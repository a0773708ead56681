//! The tree of a unit's controls.

use vstd::prelude::*;
use crate::layout::{BoolParamLayout, BoxLayout, NumDisplayLayout, NumParamLayout};
use crate::metadata::{
    NumDisplayStyle, NumMetadata, NumMetadataView, NumParamStyle, NumParamStyleView, text_view,
};
use crate::zone::Zone;

verus! {

broadcast use vstd::std_specs::vec::group_vec_axioms;

/// One widget of a unit. Widgets that work alike are one variant, and differ
/// by their `layout`. A leaf reads and writes its value through its zone.
#[derive(Debug)]
#[allow(inconsistent_fields)]
pub enum DspWidget<Z> {
    /// A widget that contains others.
    Box { layout: BoxLayout, label: String, inner: Vec<DspWidget<Z>> },
    /// An interactive boolean control.
    BoolParam {
        layout: BoolParamLayout,
        label: String,
        zone: Z,
        hidden: bool,
        tooltip: Option<String>,
    },
    /// An interactive numeric control, with its initial value, its range and
    /// its step as the bits of single-precision numbers.
    NumParam {
        layout: NumParamLayout,
        style: NumParamStyle,
        label: String,
        zone: Z,
        init: u32,
        min: u32,
        max: u32,
        step: u32,
        metadata: NumMetadata,
    },
    /// A numeric readout, with its range as the bits of single-precision
    /// numbers.
    NumDisplay {
        layout: NumDisplayLayout,
        style: NumDisplayStyle,
        label: String,
        zone: Z,
        min: u32,
        max: u32,
        metadata: NumMetadata,
    },
}

/// A widget in spec terms: texts are sequences of characters, and a leaf
/// holds the address of its zone.
#[allow(inconsistent_fields)]
pub enum WidgetView {
    Box { layout: BoxLayout, label: Seq<char>, inner: Seq<WidgetView> },
    BoolParam {
        layout: BoolParamLayout,
        label: Seq<char>,
        zone: usize,
        hidden: bool,
        tooltip: Option<Seq<char>>,
    },
    NumParam {
        layout: NumParamLayout,
        style: NumParamStyleView,
        label: Seq<char>,
        zone: usize,
        init: u32,
        min: u32,
        max: u32,
        step: u32,
        metadata: NumMetadataView,
    },
    NumDisplay {
        layout: NumDisplayLayout,
        style: NumDisplayStyle,
        label: Seq<char>,
        zone: usize,
        min: u32,
        max: u32,
        metadata: NumMetadataView,
    },
}

/// The view of one widget.
pub open spec fn widget_view<Z: Zone>(w: DspWidget<Z>) -> WidgetView
    decreases w, 1int,
{
    match w {
        DspWidget::Box { layout, label, inner } => WidgetView::Box {
            layout,
            label: label@,
            inner: forest_view(inner@),
        },
        DspWidget::BoolParam { layout, label, zone, hidden, tooltip } => WidgetView::BoolParam {
            layout,
            label: label@,
            zone: zone.addr(),
            hidden,
            tooltip: text_view(tooltip),
        },
        DspWidget::NumParam {
            layout,
            style,
            label,
            zone,
            init,
            min,
            max,
            step,
            metadata,
        } => WidgetView::NumParam {
            layout,
            style: style@,
            label: label@,
            zone: zone.addr(),
            init,
            min,
            max,
            step,
            metadata: metadata@,
        },
        DspWidget::NumDisplay { layout, style, label, zone, min, max, metadata } => {
            WidgetView::NumDisplay {
                layout,
                style,
                label: label@,
                zone: zone.addr(),
                min,
                max,
                metadata: metadata@,
            }
        },
    }
}

/// The views of a list of widgets, in order.
pub open spec fn forest_view<Z: Zone>(ws: Seq<DspWidget<Z>>) -> Seq<WidgetView>
    decreases ws, 0int,
{
    if ws.len() == 0 {
        Seq::empty()
    } else {
        forest_view(ws.drop_last()).push(widget_view(ws.last()))
    }
}

impl<Z: Zone> View for DspWidget<Z> {
    type V = WidgetView;

    open spec fn view(&self) -> WidgetView {
        widget_view(*self)
    }
}

/// The widget is a tab box with a child at `index`.
pub open spec fn has_tab<Z: Zone>(w: DspWidget<Z>, index: usize) -> bool {
    match w {
        DspWidget::Box { layout: BoxLayout::Tab { .. }, inner, .. } => index < inner.len(),
        _ => false,
    }
}

/// A tab box with the child at `index` made the visible one. Any other
/// widget, and a tab box without a child at `index`, is left as it is.
pub open spec fn with_tab<Z: Zone>(w: DspWidget<Z>, index: usize) -> DspWidget<Z> {
    match w {
        DspWidget::Box { layout: BoxLayout::Tab { .. }, label, inner } if index < inner.len() => {
            DspWidget::Box { layout: BoxLayout::Tab { selected: index }, label, inner }
        },
        _ => w,
    }
}

impl<Z: Zone> DspWidget<Z> {
    /// Makes the child at `index` of a tab box the visible one, and tells
    /// whether it did: it does not for a widget that is no tab box, nor for
    /// a tab box without a child at `index`. The children and their zones
    /// are not touched.
    pub fn select_tab(&mut self, index: usize) -> (done: bool)
        ensures
            *final(self) == with_tab(*old(self), index),
            done == has_tab(*old(self), index),
    {
        match self {
            DspWidget::Box { layout, inner, .. } => {
                match layout {
                    BoxLayout::Tab { selected } => {
                        if index < inner.len() {
                            *selected = index;
                            true
                        } else {
                            false
                        }
                    },
                    _ => false,
                }
            },
            _ => false,
        }
    }

    /// The widget's label.
    pub fn label(&self) -> (label: &str)
        ensures
            label@ == self@.label(),
    {
        match self {
            DspWidget::Box { label, .. } => label.as_str(),
            DspWidget::BoolParam { label, .. } => label.as_str(),
            DspWidget::NumParam { label, .. } => label.as_str(),
            DspWidget::NumDisplay { label, .. } => label.as_str(),
        }
    }
}

impl WidgetView {
    /// The widget's label.
    pub open spec fn label(self) -> Seq<char> {
        match self {
            WidgetView::Box { label, .. } => label,
            WidgetView::BoolParam { label, .. } => label,
            WidgetView::NumParam { label, .. } => label,
            WidgetView::NumDisplay { label, .. } => label,
        }
    }
}

} // verus!
