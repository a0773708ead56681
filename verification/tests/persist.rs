use faust_jit::{
    export_zones, import_zones, BoolParamLayout, BoxLayout, Declaration, DspWidget,
    DspWidgetsBuilder, ImportError, LocalZone, NumDisplayLayout, NumParamLayout, StoredValue, Zone,
    ZoneValue,
};

fn tree() -> Vec<DspWidget<LocalZone>> {
    let mut builder = DspWidgetsBuilder::new();
    let stream = vec![
        Declaration::Open { layout: BoxLayout::Vertical, label: "synth".to_string() },
        Declaration::NumParam {
            layout: NumParamLayout::HorizontalSlider,
            label: "freq".to_string(),
            zone: 1,
            init: 0,
            min: 0,
            max: 0,
            step: 0,
        },
        Declaration::Open { layout: BoxLayout::Horizontal, label: "".to_string() },
        Declaration::BoolParam { layout: BoolParamLayout::Checkbox, label: "on".to_string(), zone: 2 },
        Declaration::Close,
        Declaration::NumDisplay {
            layout: NumDisplayLayout::Horizontal,
            label: "level".to_string(),
            zone: 3,
            min: 0,
            max: 0,
        },
        Declaration::Close,
        Declaration::BoolParam { layout: BoolParamLayout::Held, label: "panic".to_string(), zone: 4 },
    ];
    for declaration in stream {
        builder.declare(declaration);
    }
    let mut widgets = Vec::new();
    builder.build_widgets(&mut widgets).unwrap();
    widgets
}

fn set_all(widgets: &mut [DspWidget<LocalZone>], next: &mut u32) {
    for w in widgets {
        match w {
            DspWidget::Box { inner, .. } => set_all(inner, next),
            DspWidget::BoolParam { zone, .. }
            | DspWidget::NumParam { zone, .. }
            | DspWidget::NumDisplay { zone, .. } => {
                zone.set_value(*next);
                *next += 1;
            }
        }
    }
}

fn value(path: &str, value: u32) -> ZoneValue {
    ZoneValue { path: path.to_string(), value }
}

fn stored(path: &str, value: Option<u32>) -> StoredValue {
    StoredValue { path: path.to_string(), value }
}

/// What a caller does between saving and restoring: writes each value as
/// decimal text and reads it back.
fn through_text(values: &[ZoneValue]) -> Vec<StoredValue> {
    values
        .iter()
        .map(|v| {
            let text = f32::from_bits(v.value).to_string();
            StoredValue { path: v.path.clone(), value: text.parse::<f32>().ok().map(f32::to_bits) }
        })
        .collect()
}

#[test]
fn export_lists_the_leaves_depth_first_with_their_paths() {
    let mut widgets = tree();
    set_all(&mut widgets, &mut 100);
    assert_eq!(
        export_zones(&widgets),
        vec![
            value("synth/freq", 100),
            value("synth//on", 101),
            value("synth/level", 102),
            value("panic", 103),
        ]
    );
    assert!(export_zones(&Vec::<DspWidget<LocalZone>>::new()).is_empty());
}

#[test]
fn export_then_import_changes_nothing() {
    let mut widgets = tree();
    let samples = [0.0f32, -0.0, 1.0, 440.0, 0.1, -3.5e-7, f32::MAX, f32::MIN_POSITIVE, 1e-45];
    for start in 0..samples.len() {
        let mut i = start;
        let mut bits = Vec::new();
        for _ in 0..4 {
            bits.push(samples[i % samples.len()].to_bits());
            i += 1;
        }
        let mut iter = bits.iter();
        write_values(&mut widgets, &mut iter);
        let before = export_zones(&widgets);
        assert_eq!(import_zones(&mut widgets, &through_text(&before)), Ok(()));
        assert_eq!(export_zones(&widgets), before);
    }
}

fn write_values(widgets: &mut [DspWidget<LocalZone>], values: &mut std::slice::Iter<u32>) {
    for w in widgets {
        match w {
            DspWidget::Box { inner, .. } => write_values(inner, values),
            DspWidget::BoolParam { zone, .. }
            | DspWidget::NumParam { zone, .. }
            | DspWidget::NumDisplay { zone, .. } => zone.set_value(*values.next().unwrap()),
        }
    }
}

#[test]
fn import_sets_the_values_that_it_finds() {
    let mut widgets = tree();
    set_all(&mut widgets, &mut 1);
    let state = vec![
        stored("panic", Some(40)),
        stored("synth/level", Some(30)),
        stored("synth//on", Some(20)),
        stored("synth/freq", Some(10)),
        stored("not/in/the/tree", Some(50)),
    ];
    assert_eq!(import_zones(&mut widgets, &state), Ok(()));
    assert_eq!(
        export_zones(&widgets),
        vec![
            value("synth/freq", 10),
            value("synth//on", 20),
            value("synth/level", 30),
            value("panic", 40),
        ]
    );
}

#[test]
fn import_reports_every_path_and_applies_the_rest() {
    let mut widgets = tree();
    set_all(&mut widgets, &mut 1);
    let state = vec![
        stored("synth//on", None),
        stored("synth/level", Some(30)),
        stored("freq", Some(10)),
    ];
    assert_eq!(
        import_zones(&mut widgets, &state),
        Err(ImportError {
            missing: vec!["synth/freq".to_string(), "panic".to_string()],
            unparsable: vec!["synth//on".to_string()],
        })
    );
    assert_eq!(
        export_zones(&widgets),
        vec![
            value("synth/freq", 1),
            value("synth//on", 2),
            value("synth/level", 30),
            value("panic", 4),
        ]
    );
}

#[test]
fn import_of_an_empty_state_reports_all_paths() {
    let mut widgets = tree();
    set_all(&mut widgets, &mut 7);
    let before = export_zones(&widgets);
    let err = import_zones(&mut widgets, &vec![]).unwrap_err();
    assert_eq!(err.missing, vec!["synth/freq", "synth//on", "synth/level", "panic"]);
    assert!(err.unparsable.is_empty());
    assert_eq!(export_zones(&widgets), before);
    assert_eq!(import_zones(&mut Vec::<DspWidget<LocalZone>>::new(), &vec![]), Ok(()));
}

#[test]
fn of_two_entries_for_one_path_the_last_counts() {
    let mut widgets = tree();
    let state = vec![
        stored("panic", Some(1)),
        stored("synth/freq", Some(2)),
        stored("panic", None),
        stored("synth/freq", Some(3)),
        stored("synth//on", Some(4)),
        stored("synth/level", None),
        stored("synth/level", Some(5)),
    ];
    let err = import_zones(&mut widgets, &state).unwrap_err();
    assert!(err.missing.is_empty());
    assert_eq!(err.unparsable, vec!["panic"]);
    assert_eq!(
        export_zones(&widgets),
        vec![
            value("synth/freq", 3),
            value("synth//on", 4),
            value("synth/level", 5),
            value("panic", 0),
        ]
    );
}

#[test]
fn import_leaves_the_tree_itself_alone() {
    let mut widgets = tree();
    let before = format!("{:?}", widgets);
    let state = vec![stored("synth/freq", Some(0)), stored("panic", None)];
    assert!(import_zones(&mut widgets, &state).is_err());
    assert_eq!(format!("{:?}", widgets), before);
}

#[test]
fn leaves_with_one_path_take_the_same_value() {
    let mut builder = DspWidgetsBuilder::new();
    for zone in [1, 2] {
        builder.declare(Declaration::BoolParam {
            layout: BoolParamLayout::Held,
            label: "twin".to_string(),
            zone,
        });
    }
    let mut widgets: Vec<DspWidget<LocalZone>> = Vec::new();
    builder.build_widgets(&mut widgets).unwrap();
    assert_eq!(import_zones(&mut widgets, &vec![stored("twin", Some(9))]), Ok(()));
    assert_eq!(export_zones(&widgets), vec![value("twin", 9), value("twin", 9)]);
}

#[test]
fn distinct_paths_are_told_from_repeated_ones() {
    assert!(faust_jit::paths_are_distinct(&export_zones(&tree())));
    assert!(faust_jit::paths_are_distinct(&vec![]));
    assert!(faust_jit::paths_are_distinct(&vec![value("a", 1)]));
    assert!(!faust_jit::paths_are_distinct(&vec![value("a", 1), value("b", 1), value("a", 2)]));
    assert!(!faust_jit::paths_are_distinct(&vec![value("a", 1), value("b", 1), value("b", 1)]));
    assert!(faust_jit::paths_are_distinct(&vec![value("a", 1), value("a/", 1), value("/a", 1)]));
}
