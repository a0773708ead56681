use faust_jit::load_mode::DspLoadMode;

#[test]
fn voice_counts_round_trip() {
    assert_eq!(DspLoadMode::from_nvoices(-1), DspLoadMode::AutoDetect);
    assert_eq!(DspLoadMode::from_nvoices(0), DspLoadMode::Effect);
    assert_eq!(DspLoadMode::from_nvoices(1), DspLoadMode::Instrument { nvoices: 1 });
    assert_eq!(DspLoadMode::from_nvoices(32), DspLoadMode::Instrument { nvoices: 32 });
    for n in [-1, 0, 1, 2, 16, i32::MAX] {
        assert_eq!(DspLoadMode::from_nvoices(n).to_nvoices(), n);
    }
}

#[test]
fn modes_give_their_voice_counts() {
    assert_eq!(DspLoadMode::AutoDetect.to_nvoices(), -1);
    assert_eq!(DspLoadMode::Effect.to_nvoices(), 0);
    assert_eq!(DspLoadMode::Instrument { nvoices: 8 }.to_nvoices(), 8);
}
