use faust_jit::clock::{ClockData, MidiSyncMsg, SyncEvent, Transport};

fn pulse_period(sample_rate: i32, tempo: f64) -> i64 {
    (f64::from(sample_rate) * 60.0 / tempo / 24.0).round() as i64
}

fn clock_offsets(events: &[SyncEvent]) -> Vec<usize> {
    events.iter().filter(|e| e.msg == MidiSyncMsg::Clock).map(|e| e.offset).collect()
}

#[test]
fn first_block_at_120_bpm_has_one_pulse_at_zero() {
    let period = pulse_period(48000, 120.0);
    assert_eq!(period, 1000);
    let mut transport = Transport::new();
    let clock = Some(ClockData {
        samples_per_pulse: period,
        next_buffer_size: 512,
        next_buffer_sample_position: 0,
    });
    let events = transport.handle_midi_sync(true, &clock);
    assert_eq!(
        events,
        vec![
            SyncEvent { offset: 0, msg: MidiSyncMsg::Start },
            SyncEvent { offset: 0, msg: MidiSyncMsg::Clock },
        ]
    );
}

#[test]
fn pulses_stay_in_phase_across_blocks() {
    let mut transport = Transport { already_playing: true };
    let mut absolute = Vec::new();
    let mut position: i64 = 0;
    for _ in 0..8 {
        let clock = Some(ClockData {
            samples_per_pulse: 1000,
            next_buffer_size: 512,
            next_buffer_sample_position: position,
        });
        for offset in clock_offsets(&transport.handle_midi_sync(true, &clock)) {
            absolute.push(position + offset as i64);
        }
        position += 512;
    }
    assert_eq!(absolute, vec![0, 1000, 2000, 3000, 4000]);
}

#[test]
fn several_pulses_in_one_block() {
    let mut transport = Transport { already_playing: true };
    let clock = Some(ClockData {
        samples_per_pulse: 100,
        next_buffer_size: 512,
        next_buffer_sample_position: 1030,
    });
    let events = transport.handle_midi_sync(true, &clock);
    assert_eq!(clock_offsets(&events), vec![70, 170, 270, 370, 470]);
    assert_eq!(events.len(), 5);
}

#[test]
fn negative_position_keeps_the_sign_of_the_remainder() {
    let mut transport = Transport { already_playing: true };
    let clock = Some(ClockData {
        samples_per_pulse: 10,
        next_buffer_size: 40,
        next_buffer_sample_position: -3,
    });
    let events = transport.handle_midi_sync(true, &clock);
    assert_eq!(clock_offsets(&events), vec![13, 23, 33]);
    let on_a_pulse = Some(ClockData {
        samples_per_pulse: 10,
        next_buffer_size: 25,
        next_buffer_sample_position: -20,
    });
    assert_eq!(clock_offsets(&transport.handle_midi_sync(true, &on_a_pulse)), vec![0, 10, 20]);
}

#[test]
fn extreme_values_do_not_overflow() {
    let mut transport = Transport { already_playing: true };
    let clock = Some(ClockData {
        samples_per_pulse: i64::MAX,
        next_buffer_size: usize::MAX,
        next_buffer_sample_position: i64::MIN,
    });
    let events = transport.handle_midi_sync(true, &clock);
    assert!(events.len() <= 2);
    let empty_block = Some(ClockData {
        samples_per_pulse: 1,
        next_buffer_size: 0,
        next_buffer_sample_position: 0,
    });
    assert!(transport.handle_midi_sync(true, &empty_block).is_empty());
}

#[test]
fn start_and_stop_come_once_each() {
    let mut transport = Transport::new();
    let mut msgs = Vec::new();
    for playing in [false, true, true, false] {
        for event in transport.handle_midi_sync(playing, &None) {
            assert_eq!(event.offset, 0);
            msgs.push(event.msg);
        }
    }
    assert_eq!(msgs, vec![MidiSyncMsg::Start, MidiSyncMsg::Stop]);
    assert!(!transport.already_playing);
}

#[test]
fn start_and_stop_alternate_over_a_long_run() {
    let mut transport = Transport::new();
    let mut msgs = Vec::new();
    let flags = [true, false, false, true, true, true, false, true, false, false, true];
    for playing in flags {
        for event in transport.handle_midi_sync(playing, &None) {
            msgs.push(event.msg);
        }
        assert_eq!(transport.already_playing, playing);
    }
    assert_eq!(msgs.len(), 7);
    for pair in msgs.windows(2) {
        assert_ne!(pair[0], pair[1]);
    }
    assert_eq!(msgs[0], MidiSyncMsg::Start);
}

#[test]
fn no_clock_while_stopped() {
    let mut transport = Transport { already_playing: true };
    let clock = Some(ClockData {
        samples_per_pulse: 0,
        next_buffer_size: 512,
        next_buffer_sample_position: 0,
    });
    let events = transport.handle_midi_sync(false, &clock);
    assert_eq!(events, vec![SyncEvent { offset: 0, msg: MidiSyncMsg::Stop }]);
    assert!(transport.handle_midi_sync(false, &clock).is_empty());
}
