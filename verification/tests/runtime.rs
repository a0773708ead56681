use faust_jit::runtime::{
    compiler_args, factory_source, plan_block, read_diagnostic, BlockPlan, FactorySource, Handle,
    Handles, LoadOrigin, LoadStage, LoadStep,
};
use faust_jit::{Cache, CacheQueryResult, DspInfo, DspType};

#[test]
fn the_compiler_looks_in_the_script_directory_first() {
    assert_eq!(compiler_args("/home/me/dsp", &vec![]), vec!["--in-place", "-I", "/home/me/dsp"]);
    assert_eq!(
        compiler_args("scripts", &vec!["/usr/share/faust".to_string(), "lib".to_string()]),
        vec!["--in-place", "-I", "scripts", "-I", "/usr/share/faust", "-I", "lib"]
    );
}

#[test]
fn a_block_needs_as_many_buffers_as_the_unit_has_channels() {
    let info = DspInfo { sample_rate: 48000, num_inputs: 1, num_outputs: 2 };
    assert_eq!(info.num_channels(), 2);
    assert_eq!(plan_block(&info, &[512, 512, 512]), BlockPlan { channels: 2, samples: 512 });
    let info = DspInfo { sample_rate: 44100, num_inputs: 4, num_outputs: 0 };
    assert_eq!(info.num_channels(), 4);
    assert_eq!(plan_block(&info, &[64, 64, 64, 64]), BlockPlan { channels: 4, samples: 64 });
    let silent = DspInfo { sample_rate: 44100, num_inputs: 0, num_outputs: 0 };
    assert_eq!(plan_block(&silent, &[0]), BlockPlan { channels: 0, samples: 0 });
}

#[test]
fn units_are_held_to_a_number_of_channels() {
    assert!(DspInfo { sample_rate: 48000, num_inputs: 2, num_outputs: 2 }.fits(2));
    assert!(DspInfo { sample_rate: 48000, num_inputs: 0, num_outputs: 1 }.fits(2));
    assert!(!DspInfo { sample_rate: 48000, num_inputs: 3, num_outputs: 2 }.fits(2));
    assert!(!DspInfo { sample_rate: 48000, num_inputs: 0, num_outputs: 8 }.fits(2));
}

#[test]
fn a_diagnostic_ends_at_the_first_zero_byte() {
    let mut buffer = [0u8; 4096];
    assert_eq!(read_diagnostic(&buffer), Some(String::new()));
    let text = "ERROR : undefined symbol : foo\n";
    buffer[..text.len()].copy_from_slice(text.as_bytes());
    buffer[text.len() + 1] = b'x';
    assert_eq!(read_diagnostic(&buffer).as_deref(), Some(text));
}

#[test]
fn a_diagnostic_that_fills_the_buffer_is_cut_at_its_end() {
    let buffer = [b'e'; 8];
    assert_eq!(read_diagnostic(&buffer).as_deref(), Some("eeeeeeee"));
    assert_eq!(read_diagnostic(&[]), Some(String::new()));
}

#[test]
fn a_diagnostic_that_is_no_text_is_not_read() {
    assert_eq!(read_diagnostic(&[b'a', 0xff, 0, 0]), None);
    // A character cut in two by the end of the buffer.
    assert_eq!(read_diagnostic(&[b'a', 0xc3]), None);
    assert_eq!(read_diagnostic(&[b'a', 0, 0xff]).as_deref(), Some("a"));
    assert_eq!(read_diagnostic("d\u{e9}faut\0".as_bytes()).as_deref(), Some("d\u{e9}faut"));
}

#[test]
fn handles_are_released_instance_first() {
    let all = Handles::loaded_from(LoadOrigin::File);
    assert_eq!(all.release_order(), vec![Handle::Instance, Handle::Uis, Handle::Factory]);
    let borrowed = Handles::loaded_from(LoadOrigin::PolyFactory { owns_factory: false });
    assert_eq!(borrowed.release_order(), vec![Handle::Instance, Handle::Uis]);
    let owned = Handles::loaded_from(LoadOrigin::PolyFactory { owns_factory: true });
    assert_eq!(owned, all);
    assert_eq!(
        Handles::loaded_from(LoadOrigin::Instance).release_order(),
        vec![Handle::Instance, Handle::Uis]
    );
}

#[test]
fn a_load_that_fails_releases_what_it_has() {
    assert!(Handles::none().release_order().is_empty());
    let factory_only = Handles { factory: true, instance: false, uis: false };
    assert_eq!(factory_only.release_order(), vec![Handle::Factory]);
    let no_uis = Handles { factory: true, instance: true, uis: false };
    assert_eq!(no_uis.release_order(), vec![Handle::Instance, Handle::Factory]);
}

#[test]
fn the_cache_decides_where_the_factory_comes_from() {
    assert!(matches!(factory_source(None), FactorySource::Compile));
    let cache = Cache::new("/tmp/cache".to_string());
    let hit = cache.query(Cache::hash_input(b"process = _;", &[]), true);
    let CacheQueryResult::Hit(dir) = &hit else { panic!("not a hit") };
    let dir = dir.clone();
    assert!(matches!(factory_source(Some(hit)), FactorySource::ReadFrom(d) if d == dir));
    let miss = cache.query_with_suffix(Cache::hash_input(b"process = _;", &[]), false, 5);
    match factory_source(Some(miss)) {
        FactorySource::CompileAndStore(writer) => {
            assert_eq!(writer.final_dir(), dir);
            assert_eq!(writer.temp_dir(), format!("tmp-{}-5", dir));
        }
        other => panic!("not a writer: {:?}", other),
    }
}

#[test]
fn kinds_of_units_go_by_their_voice_counts() {
    assert_eq!(DspType::from_nvoices(-1), DspType::AutoDetect);
    assert_eq!(DspType::from_nvoices(0), DspType::Effect);
    assert_eq!(DspType::from_nvoices(1), DspType::Instrument);
    assert_eq!(DspType::from_nvoices(32), DspType::Instrument);
    assert_eq!(DspType::AutoDetect.voices_when_picked(DspType::Instrument, 8), -1);
    assert_eq!(DspType::Effect.voices_when_picked(DspType::Instrument, 8), 0);
    assert_eq!(DspType::Instrument.voices_when_picked(DspType::Instrument, 8), 8);
    assert_eq!(DspType::Instrument.voices_when_picked(DspType::Effect, 0), 1);
    assert_eq!(DspType::Instrument.voices_when_picked(DspType::AutoDetect, -1), 1);
}

#[test]
fn a_wrapper_goes_through_its_stages_in_order() {
    let from_file = [LoadStep::BindFactory, LoadStep::BindInstance, LoadStep::BuildWidgets];
    let mut stage = LoadStage::Empty;
    let mut seen = vec![stage];
    for step in from_file {
        stage = stage.advance(step).unwrap();
        seen.push(stage);
    }
    assert_eq!(
        seen,
        vec![
            LoadStage::Empty,
            LoadStage::FactoryBound,
            LoadStage::InstanceBound,
            LoadStage::WidgetsBuilt
        ]
    );
    assert_eq!(stage.advance(LoadStep::Destroy), Some(LoadStage::Destroyed));
    // An instance that is taken over needs no factory.
    assert_eq!(LoadStage::Empty.advance(LoadStep::BindInstance), Some(LoadStage::InstanceBound));
}

#[test]
fn no_stage_is_entered_twice() {
    let stages = [
        LoadStage::Empty,
        LoadStage::FactoryBound,
        LoadStage::InstanceBound,
        LoadStage::WidgetsBuilt,
        LoadStage::Destroyed,
    ];
    let steps =
        [LoadStep::BindFactory, LoadStep::BindInstance, LoadStep::BuildWidgets, LoadStep::Destroy];
    for (rank, stage) in stages.iter().enumerate() {
        for step in steps {
            if let Some(next) = stage.advance(step) {
                let next_rank = stages.iter().position(|s| *s == next).unwrap();
                assert!(next_rank > rank, "{:?} -> {:?}", stage, next);
            }
        }
    }
    assert_eq!(LoadStage::FactoryBound.advance(LoadStep::BindFactory), None);
    assert_eq!(LoadStage::FactoryBound.advance(LoadStep::BuildWidgets), None);
    assert_eq!(LoadStage::WidgetsBuilt.advance(LoadStep::BindInstance), None);
    assert_eq!(LoadStage::WidgetsBuilt.advance(LoadStep::BuildWidgets), None);
    assert_eq!(LoadStage::Empty.advance(LoadStep::Destroy), Some(LoadStage::Destroyed));
    for step in steps {
        assert_eq!(LoadStage::Destroyed.advance(step), None);
    }
}
