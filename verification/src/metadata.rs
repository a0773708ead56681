//! Display hints that a unit attaches to its numeric controls.

use vstd::prelude::*;

verus! {

/// Which scale a slider or bargraph uses.
#[derive(Debug, Clone, Copy, PartialEq, Eq, Structural)]
pub enum WidgetScale {
    Lin,
    Log,
    Exp,
}

/// Which element shows a bargraph.
#[derive(Debug, Clone, Copy, PartialEq, Eq, Structural)]
pub enum NumDisplayStyle {
    /// Go by the layout.
    FromLayout,
    /// Show the value as the colour of a led.
    Led,
    /// Show the value as plain text.
    Numerical,
}

/// One choice of a menu or of a set of radio buttons: a label and the value
/// that it stands for, as the bits of a single-precision number.
#[derive(Debug, PartialEq, Eq)]
pub struct MenuEntry {
    pub label: String,
    pub value: u32,
}

impl View for MenuEntry {
    type V = (Seq<char>, u32);

    open spec fn view(&self) -> (Seq<char>, u32) {
        (self.label@, self.value)
    }
}

/// The choices of a menu, in spec terms: labels with their values.
pub open spec fn entries_view(entries: Seq<MenuEntry>) -> Seq<(Seq<char>, u32)> {
    Seq::new(entries.len(), |i: int| entries[i]@)
}

/// Which element shows a slider or a numeric entry.
#[derive(Debug, PartialEq, Eq)]
pub enum NumParamStyle {
    /// Go by the layout.
    FromLayout,
    /// A circular knob.
    Knob,
    /// A dropdown list of labelled values.
    Menu(Vec<MenuEntry>),
    /// A set of labelled, mutually exclusive radio buttons.
    Radio(Vec<MenuEntry>),
}

/// `NumParamStyle` in spec terms.
pub enum NumParamStyleView {
    FromLayout,
    Knob,
    Menu(Seq<(Seq<char>, u32)>),
    Radio(Seq<(Seq<char>, u32)>),
}

impl View for NumParamStyle {
    type V = NumParamStyleView;

    open spec fn view(&self) -> NumParamStyleView {
        match self {
            NumParamStyle::FromLayout => NumParamStyleView::FromLayout,
            NumParamStyle::Knob => NumParamStyleView::Knob,
            NumParamStyle::Menu(entries) => NumParamStyleView::Menu(entries_view(entries@)),
            NumParamStyle::Radio(entries) => NumParamStyleView::Radio(entries_view(entries@)),
        }
    }
}

/// A style hint, for a control or for a readout.
#[derive(Debug, PartialEq, Eq)]
pub enum WidgetStyle {
    /// For sliders and numeric entries.
    Param(NumParamStyle),
    /// For bargraphs.
    Disp(NumDisplayStyle),
}

/// `WidgetStyle` in spec terms.
pub enum WidgetStyleView {
    Param(NumParamStyleView),
    Disp(NumDisplayStyle),
}

impl View for WidgetStyle {
    type V = WidgetStyleView;

    open spec fn view(&self) -> WidgetStyleView {
        match self {
            WidgetStyle::Param(s) => WidgetStyleView::Param(s@),
            WidgetStyle::Disp(s) => WidgetStyleView::Disp(*s),
        }
    }
}

/// One hint, as declared for a zone.
#[derive(Debug, PartialEq, Eq)]
pub enum MetadataElem {
    Style(WidgetStyle),
    Scale(WidgetScale),
    Hidden(bool),
    Unit(String),
    Tooltip(String),
}

/// `MetadataElem` in spec terms.
pub enum MetadataElemView {
    Style(WidgetStyleView),
    Scale(WidgetScale),
    Hidden(bool),
    Unit(Seq<char>),
    Tooltip(Seq<char>),
}

impl View for MetadataElem {
    type V = MetadataElemView;

    open spec fn view(&self) -> MetadataElemView {
        match self {
            MetadataElem::Style(s) => MetadataElemView::Style(s@),
            MetadataElem::Scale(s) => MetadataElemView::Scale(*s),
            MetadataElem::Hidden(h) => MetadataElemView::Hidden(*h),
            MetadataElem::Unit(u) => MetadataElemView::Unit(u@),
            MetadataElem::Tooltip(t) => MetadataElemView::Tooltip(t@),
        }
    }
}

/// The hints of a list, in spec terms.
pub open spec fn elems_view(elems: Seq<MetadataElem>) -> Seq<MetadataElemView> {
    Seq::new(elems.len(), |i: int| elems[i]@)
}

/// The hints common to numeric controls and readouts.
#[derive(Debug, PartialEq, Eq)]
pub struct NumMetadata {
    /// A suffix to show after the value.
    pub unit: Option<String>,
    /// Which scale to use.
    pub scale: WidgetScale,
    /// Whether the widget is left out of the display.
    pub hidden: bool,
    /// A text to show when the pointer rests on the widget.
    pub tooltip: Option<String>,
}

/// `NumMetadata` in spec terms.
pub struct NumMetadataView {
    pub unit: Option<Seq<char>>,
    pub scale: WidgetScale,
    pub hidden: bool,
    pub tooltip: Option<Seq<char>>,
}

/// An optional text, in spec terms.
pub open spec fn text_view(text: Option<String>) -> Option<Seq<char>> {
    match text {
        Some(t) => Some(t@),
        None => None,
    }
}

impl View for NumMetadata {
    type V = NumMetadataView;

    open spec fn view(&self) -> NumMetadataView {
        NumMetadataView {
            unit: text_view(self.unit),
            scale: self.scale,
            hidden: self.hidden,
            tooltip: text_view(self.tooltip),
        }
    }
}

impl Clone for MenuEntry {
    fn clone(&self) -> (res: Self)
        ensures
            res@ == self@,
    {
        MenuEntry { label: self.label.clone(), value: self.value }
    }
}

/// Copies a list of choices.
pub fn clone_entries(entries: &Vec<MenuEntry>) -> (res: Vec<MenuEntry>)
    ensures
        entries_view(res@) == entries_view(entries@),
{
    let mut res: Vec<MenuEntry> = Vec::new();
    let mut i: usize = 0;
    while i < entries.len()
        invariant
            i <= entries.len(),
            res.len() == i,
            forall|k: int| 0 <= k < i ==> res[k]@ == entries[k]@,
        decreases entries.len() - i,
    {
        res.push(entries[i].clone());
        i += 1;
    }
    assert(entries_view(res@) =~= entries_view(entries@));
    res
}

impl Clone for NumParamStyle {
    fn clone(&self) -> (res: Self)
        ensures
            res@ == self@,
    {
        match self {
            NumParamStyle::FromLayout => NumParamStyle::FromLayout,
            NumParamStyle::Knob => NumParamStyle::Knob,
            NumParamStyle::Menu(entries) => NumParamStyle::Menu(clone_entries(entries)),
            NumParamStyle::Radio(entries) => NumParamStyle::Radio(clone_entries(entries)),
        }
    }
}

impl Clone for WidgetStyle {
    fn clone(&self) -> (res: Self)
        ensures
            res@ == self@,
    {
        match self {
            WidgetStyle::Param(s) => WidgetStyle::Param(s.clone()),
            WidgetStyle::Disp(s) => WidgetStyle::Disp(*s),
        }
    }
}

/// What a list of hints comes to: the style hint, if one was given, and
/// the hints common to numeric widgets.
pub struct FoldedMetadata {
    pub style: Option<WidgetStyle>,
    pub metadata: NumMetadata,
}

/// `FoldedMetadata` in spec terms.
pub struct FoldedMetadataView {
    pub style: Option<WidgetStyleView>,
    pub metadata: NumMetadataView,
}

impl View for FoldedMetadata {
    type V = FoldedMetadataView;

    open spec fn view(&self) -> FoldedMetadataView {
        FoldedMetadataView {
            style: match self.style {
                Some(s) => Some(s@),
                None => None,
            },
            metadata: self.metadata@,
        }
    }
}

impl FoldedMetadataView {
    /// What no hint at all comes to: no style, no unit, no tooltip, a linear
    /// scale, and a widget that is shown.
    pub open spec fn empty() -> FoldedMetadataView {
        FoldedMetadataView {
            style: None,
            metadata: NumMetadataView {
                unit: None,
                scale: WidgetScale::Lin,
                hidden: false,
                tooltip: None,
            },
        }
    }

    /// Takes one more hint in: it replaces what was there of its kind.
    pub open spec fn with(self, elem: MetadataElemView) -> FoldedMetadataView {
        match elem {
            MetadataElemView::Style(s) => FoldedMetadataView { style: Some(s), ..self },
            MetadataElemView::Scale(s) => FoldedMetadataView {
                metadata: NumMetadataView { scale: s, ..self.metadata },
                ..self
            },
            MetadataElemView::Hidden(h) => FoldedMetadataView {
                metadata: NumMetadataView { hidden: h, ..self.metadata },
                ..self
            },
            MetadataElemView::Unit(u) => FoldedMetadataView {
                metadata: NumMetadataView { unit: Some(u), ..self.metadata },
                ..self
            },
            MetadataElemView::Tooltip(t) => FoldedMetadataView {
                metadata: NumMetadataView { tooltip: Some(t), ..self.metadata },
                ..self
            },
        }
    }

    /// The style of a numeric control: the style hint if it is one for
    /// controls, else the layout's.
    pub open spec fn param_style(self) -> NumParamStyleView {
        match self.style {
            Some(WidgetStyleView::Param(s)) => s,
            _ => NumParamStyleView::FromLayout,
        }
    }

    /// The style of a numeric readout: the style hint if it is one for
    /// readouts, else the layout's.
    pub open spec fn display_style(self) -> NumDisplayStyle {
        match self.style {
            Some(WidgetStyleView::Disp(s)) => s,
            _ => NumDisplayStyle::FromLayout,
        }
    }
}

/// What a list of hints comes to, taken in the order of declaration: of
/// several hints of one kind the last one holds.
pub open spec fn fold_metadata(elems: Seq<MetadataElemView>) -> FoldedMetadataView
    decreases elems.len(),
{
    if elems.len() == 0 {
        FoldedMetadataView::empty()
    } else {
        fold_metadata(elems.drop_last()).with(elems.last())
    }
}

/// Folds the hints declared for one zone into a single record.
pub fn fold_elems(elems: &Vec<MetadataElem>) -> (folded: FoldedMetadata)
    ensures
        folded@ == fold_metadata(elems_view(elems@)),
{
    let mut folded = FoldedMetadata {
        style: None,
        metadata: NumMetadata { unit: None, scale: WidgetScale::Lin, hidden: false, tooltip: None },
    };
    let mut i: usize = 0;
    while i < elems.len()
        invariant
            i <= elems.len(),
            folded@ == fold_metadata(elems_view(elems@).subrange(0, i as int)),
        decreases elems.len() - i,
    {
        proof {
            let upto = elems_view(elems@).subrange(0, i + 1);
            assert(upto.drop_last() =~= elems_view(elems@).subrange(0, i as int));
            assert(upto.last() == elems[i as int]@);
        }
        match &elems[i] {
            MetadataElem::Style(s) => {
                folded.style = Some(s.clone());
            },
            MetadataElem::Scale(s) => {
                folded.metadata.scale = *s;
            },
            MetadataElem::Hidden(h) => {
                folded.metadata.hidden = *h;
            },
            MetadataElem::Unit(u) => {
                folded.metadata.unit = Some(u.clone());
            },
            MetadataElem::Tooltip(t) => {
                folded.metadata.tooltip = Some(t.clone());
            },
        }
        i += 1;
    }
    assert(elems_view(elems@).subrange(0, elems.len() as int) =~= elems_view(elems@));
    folded
}

} // verus!
