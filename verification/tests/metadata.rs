use faust_jit::metadata::{clone_entries, fold_elems};
use faust_jit::{
    MenuEntry, MetadataElem, NumDisplayStyle, NumMetadata, NumParamStyle, WidgetScale, WidgetStyle,
};

#[test]
fn no_hints_come_to_the_defaults() {
    let folded = fold_elems(&vec![]);
    assert_eq!(folded.style, None);
    assert_eq!(
        folded.metadata,
        NumMetadata { unit: None, scale: WidgetScale::Lin, hidden: false, tooltip: None }
    );
}

#[test]
fn each_kind_of_hint_is_folded_on_its_own() {
    let menu = vec![MenuEntry { label: "a".to_string(), value: 1 }];
    let folded = fold_elems(&vec![
        MetadataElem::Hidden(true),
        MetadataElem::Style(WidgetStyle::Disp(NumDisplayStyle::Numerical)),
        MetadataElem::Unit("dB".to_string()),
        MetadataElem::Hidden(false),
        MetadataElem::Hidden(true),
        MetadataElem::Style(WidgetStyle::Param(NumParamStyle::Menu(clone_entries(&menu)))),
        MetadataElem::Scale(WidgetScale::Exp),
        MetadataElem::Tooltip("t".to_string()),
    ]);
    assert_eq!(folded.style, Some(WidgetStyle::Param(NumParamStyle::Menu(menu))));
    assert_eq!(
        folded.metadata,
        NumMetadata {
            unit: Some("dB".to_string()),
            scale: WidgetScale::Exp,
            hidden: true,
            tooltip: Some("t".to_string()),
        }
    );
}

#[test]
fn copies_are_equal_to_what_they_were_made_from() {
    let entries = vec![
        MenuEntry { label: "low".to_string(), value: 0 },
        MenuEntry { label: "high".to_string(), value: 0x3f80_0000 },
    ];
    assert_eq!(clone_entries(&entries), entries);
    assert!(clone_entries(&vec![]).is_empty());
    let style = WidgetStyle::Param(NumParamStyle::Radio(clone_entries(&entries)));
    assert_eq!(style.clone(), style);
    assert_eq!(NumParamStyle::Knob.clone(), NumParamStyle::Knob);
    assert_eq!(entries[1].clone(), entries[1]);
}
