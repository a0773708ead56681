use faust_jit::hints::{dict_value_texts, parse_metadata};
use faust_jit::{
    DspWidget, DspWidgetsBuilder, LocalZone, MenuEntry, MetadataElem, NumDisplayStyle,
    NumParamLayout, NumParamStyle, WidgetScale, WidgetStyle,
};

fn read_numbers(texts: &[String]) -> Vec<Option<u32>> {
    texts.iter().map(|t| t.parse::<f32>().ok().map(f32::to_bits)).collect()
}

fn parse(key: &str, value: &str) -> Option<MetadataElem> {
    parse_metadata(key, value, &read_numbers(&dict_value_texts(key, value)))
}

fn menu(elem: Option<MetadataElem>) -> Vec<(String, f32)> {
    match elem {
        Some(MetadataElem::Style(WidgetStyle::Param(NumParamStyle::Menu(entries)))) => entries,
        other => panic!("not a menu: {:?}", other),
    }
    .into_iter()
    .map(|MenuEntry { label, value }| (label, f32::from_bits(value)))
    .collect()
}

#[test]
fn plain_hints_are_read() {
    assert!(matches!(parse("unit", "Hz"), Some(MetadataElem::Unit(u)) if u == "Hz"));
    assert!(matches!(parse("tooltip", "cutoff"), Some(MetadataElem::Tooltip(t)) if t == "cutoff"));
    assert!(matches!(parse("scale", "lin"), Some(MetadataElem::Scale(WidgetScale::Lin))));
    assert!(matches!(parse("scale", "log"), Some(MetadataElem::Scale(WidgetScale::Log))));
    assert!(matches!(parse("scale", "exp"), Some(MetadataElem::Scale(WidgetScale::Exp))));
    assert!(matches!(parse("hidden", "0"), Some(MetadataElem::Hidden(false))));
    assert!(matches!(parse("hidden", "1"), Some(MetadataElem::Hidden(true))));
    assert!(matches!(
        parse("style", "knob"),
        Some(MetadataElem::Style(WidgetStyle::Param(NumParamStyle::Knob)))
    ));
    assert!(matches!(
        parse("style", "led"),
        Some(MetadataElem::Style(WidgetStyle::Disp(NumDisplayStyle::Led)))
    ));
    assert!(matches!(
        parse("style", "numerical"),
        Some(MetadataElem::Style(WidgetStyle::Disp(NumDisplayStyle::Numerical)))
    ));
}

#[test]
fn keys_and_values_are_trimmed() {
    assert!(matches!(parse("  unit\t", " Hz \n"), Some(MetadataElem::Unit(u)) if u == "Hz"));
    assert!(matches!(
        parse("\u{a0}tooltip\u{2003}", "\u{3000}two words\u{85}"),
        Some(MetadataElem::Tooltip(t)) if t == "two words"
    ));
    assert!(matches!(parse(" scale ", " log "), Some(MetadataElem::Scale(WidgetScale::Log))));
    assert!(matches!(parse("unit", "   "), Some(MetadataElem::Unit(u)) if u.is_empty()));
    // U+200B is no white space.
    assert!(parse("unit\u{200b}", "Hz").is_none());
}

#[test]
fn unknown_hints_are_dropped() {
    assert!(parse("colour", "red").is_none());
    assert!(parse("", "").is_none());
    assert!(parse("Unit", "Hz").is_none());
    assert!(parse("scale", "linear").is_none());
    assert!(parse("scale", "").is_none());
    assert!(parse("hidden", "2").is_none());
    assert!(parse("hidden", "true").is_none());
    assert!(parse("style", "slider").is_none());
    assert!(parse("style", "men").is_none());
    assert!(parse("style", "Menu{'a':1}").is_none());
}

#[test]
fn a_menu_is_read_from_its_dictionary() {
    let key = "style";
    let value = "menu{'low' : 0; 'mid':0.5 ;'high': 1e1}";
    assert_eq!(dict_value_texts(key, value), vec!["0", "0.5", "1e1"]);
    assert_eq!(
        menu(parse(key, value)),
        vec![("low".to_string(), 0.0), ("mid".to_string(), 0.5), ("high".to_string(), 10.0)]
    );
}

#[test]
fn radio_buttons_are_read_like_a_menu() {
    let elem = parse(" style ", "  radio { \"a\":1;\"b\":2 }  ");
    match elem {
        Some(MetadataElem::Style(WidgetStyle::Param(NumParamStyle::Radio(entries)))) => {
            assert_eq!(
                entries,
                vec![
                    MenuEntry { label: "a".to_string(), value: 1.0f32.to_bits() },
                    MenuEntry { label: "b".to_string(), value: 2.0f32.to_bits() },
                ]
            );
        }
        other => panic!("not radio buttons: {:?}", other),
    }
}

#[test]
fn a_label_given_twice_keeps_its_place_and_takes_the_last_value() {
    let value = "menu{'a':1;'b':2;'a':3}";
    assert_eq!(dict_value_texts("style", value), vec!["1", "2", "3"]);
    assert_eq!(menu(parse("style", value)), vec![("a".to_string(), 3.0), ("b".to_string(), 2.0)]);
}

#[test]
fn brackets_and_quotes_are_taken_off_whatever_they_are() {
    assert_eq!(menu(parse("style", "menu('a':1)")), vec![("a".to_string(), 1.0)]);
    assert_eq!(menu(parse("style", "menu{xay:1}")), vec![("a".to_string(), 1.0)]);
    assert_eq!(menu(parse("style", "menu{'':7}")), vec![(String::new(), 7.0)]);
    // What follows a second colon is passed over.
    assert_eq!(menu(parse("style", "menu{'a':1:2}")), vec![("a".to_string(), 1.0)]);
    assert_eq!(dict_value_texts("style", "menu{'a': 1 :2}"), vec!["1"]);
}

#[test]
fn malformed_dictionaries_are_dropped() {
    for value in [
        "menu",
        "menu{",
        "menu{}",
        "menu{ }",
        "menu{'a'}",
        "menu{'a':1;}",
        "menu{'a':1;;'b':2}",
        "menu{a:1}x\u{e9}",
        "menu\u{e9}'a':1}",
        "menu{':1}",
        "menu{\u{e9}a\u{e9}:1}",
        "radio{'a' 1}",
    ] {
        assert!(dict_value_texts("style", value).is_empty(), "{:?}", value);
        assert!(parse("style", value).is_none(), "{:?}", value);
    }
}

#[test]
fn a_value_that_is_no_number_drops_the_menu() {
    let value = "menu{'a':1;'b':two}";
    assert_eq!(dict_value_texts("style", value), vec!["1", "two"]);
    assert!(parse("style", value).is_none());
    assert!(parse("style", "menu{'a':}").is_none());
}

#[test]
fn the_numbers_have_to_be_one_for_each_entry() {
    let value = "menu{'a':1;'b':2}";
    let one = Some(1.0f32.to_bits());
    assert!(parse_metadata("style", value, &vec![]).is_none());
    assert!(parse_metadata("style", value, &vec![one]).is_none());
    assert!(parse_metadata("style", value, &vec![one, one, one]).is_none());
    assert!(parse_metadata("style", value, &vec![one, None]).is_none());
    assert!(parse_metadata("style", value, &vec![one, one]).is_some());
    // Hints without a dictionary take no numbers into account.
    assert!(parse_metadata("unit", "Hz", &vec![one, None]).is_some());
}

#[test]
fn only_style_hints_have_texts_to_read() {
    assert!(dict_value_texts("unit", "menu{'a':1}").is_empty());
    assert!(dict_value_texts("style", "knob").is_empty());
    assert_eq!(dict_value_texts(" style ", " radio{'a': 1 } "), vec!["1"]);
}

#[test]
fn declared_hints_reach_the_widgets() {
    let mut builder = DspWidgetsBuilder::new();
    let value = "menu{'sine':0;'saw':1}";
    let numbers = read_numbers(&dict_value_texts("style", value));
    builder.declare_metadata(0x10, "style", value, &numbers);
    builder.declare_metadata(0x10, "unit", " Hz", &vec![]);
    builder.declare_metadata(0x10, "scale", "log", &vec![]);
    builder.declare_metadata(0x10, "nonsense", "dropped", &vec![]);
    builder.declare_metadata(0x10, "scale", "dropped too", &vec![]);
    builder.declare_metadata(0x10, "tooltip", "pick a wave", &vec![]);
    builder.declare(faust_jit::Declaration::NumParam {
        layout: NumParamLayout::NumEntry,
        label: "wave".to_string(),
        zone: 0x10,
        init: 0,
        min: 0,
        max: 1.0f32.to_bits(),
        step: 1.0f32.to_bits(),
    });
    let mut widgets: Vec<DspWidget<LocalZone>> = Vec::new();
    builder.build_widgets(&mut widgets).unwrap();
    match &widgets[0] {
        DspWidget::NumParam { style: NumParamStyle::Menu(entries), metadata, .. } => {
            assert_eq!(entries.len(), 2);
            assert_eq!(entries[1], MenuEntry { label: "saw".to_string(), value: 1.0f32.to_bits() });
            assert_eq!(metadata.unit.as_deref(), Some("Hz"));
            assert_eq!(metadata.scale, WidgetScale::Log);
            assert_eq!(metadata.tooltip.as_deref(), Some("pick a wave"));
            assert!(!metadata.hidden);
        }
        other => panic!("not a menu: {:?}", other),
    }
}
