//! The flat stream of declarations that a unit emits while it wires up its
//! controls, and how a tree of widgets reads as such a stream.

use vstd::prelude::*;
use crate::layout::{
    BoolParamLayout, BoxLayout, NumDisplayLayout, NumParamLayout, WidgetDecl, WidgetDeclType,
};
use crate::widgets::WidgetView;

verus! {

/// One item of the stream. A unit visits its controls depth first, so the
/// stream is bracketed: what stands between an `Open` and its `Close` is
/// inside that box.
#[derive(Debug)]
#[allow(inconsistent_fields)]
pub enum Declaration {
    /// Opens a box.
    Open { layout: BoxLayout, label: String },
    /// Closes the innermost open box.
    Close,
    /// Declares a boolean control.
    BoolParam { layout: BoolParamLayout, label: String, zone: usize },
    /// Declares a numeric control.
    NumParam {
        layout: NumParamLayout,
        label: String,
        zone: usize,
        init: u32,
        min: u32,
        max: u32,
        step: u32,
    },
    /// Declares a numeric readout.
    NumDisplay { layout: NumDisplayLayout, label: String, zone: usize, min: u32, max: u32 },
}

/// `Declaration` in spec terms.
#[allow(inconsistent_fields)]
pub enum DeclarationView {
    Open { layout: BoxLayout, label: Seq<char> },
    Close,
    BoolParam { layout: BoolParamLayout, label: Seq<char>, zone: usize },
    NumParam {
        layout: NumParamLayout,
        label: Seq<char>,
        zone: usize,
        init: u32,
        min: u32,
        max: u32,
        step: u32,
    },
    NumDisplay { layout: NumDisplayLayout, label: Seq<char>, zone: usize, min: u32, max: u32 },
}

impl View for Declaration {
    type V = DeclarationView;

    open spec fn view(&self) -> DeclarationView {
        match self {
            Declaration::Open { layout, label } => DeclarationView::Open {
                layout: *layout,
                label: label@,
            },
            Declaration::Close => DeclarationView::Close,
            Declaration::BoolParam { layout, label, zone } => DeclarationView::BoolParam {
                layout: *layout,
                label: label@,
                zone: *zone,
            },
            Declaration::NumParam { layout, label, zone, init, min, max, step } => {
                DeclarationView::NumParam {
                    layout: *layout,
                    label: label@,
                    zone: *zone,
                    init: *init,
                    min: *min,
                    max: *max,
                    step: *step,
                }
            },
            Declaration::NumDisplay { layout, label, zone, min, max } => {
                DeclarationView::NumDisplay {
                    layout: *layout,
                    label: label@,
                    zone: *zone,
                    min: *min,
                    max: *max,
                }
            },
        }
    }
}

impl DeclarationView {
    /// What a raw declaration with this label says: the tag picks the
    /// variant and its layout, and each variant keeps the numbers that it
    /// has a use for.
    pub open spec fn decode(label: Seq<char>, decl: WidgetDecl) -> DeclarationView {
        if decl.typ is CloseBox {
            DeclarationView::Close
        } else if decl.typ.is_box() {
            DeclarationView::Open { layout: BoxLayout::of_decl_type(decl.typ), label }
        } else if decl.typ.is_bool_param() {
            DeclarationView::BoolParam {
                layout: BoolParamLayout::of_decl_type(decl.typ),
                label,
                zone: decl.zone,
            }
        } else if decl.typ.is_num_param() {
            DeclarationView::NumParam {
                layout: NumParamLayout::of_decl_type(decl.typ),
                label,
                zone: decl.zone,
                init: decl.init,
                min: decl.min,
                max: decl.max,
                step: decl.step,
            }
        } else {
            DeclarationView::NumDisplay {
                layout: NumDisplayLayout::of_decl_type(decl.typ),
                label,
                zone: decl.zone,
                min: decl.min,
                max: decl.max,
            }
        }
    }

    /// The declaration is a control or a readout.
    pub open spec fn is_leaf(self) -> bool {
        !(self is Open) && !(self is Close)
    }

    /// By how much the declaration changes the number of open boxes.
    pub open spec fn depth_step(self) -> int {
        match self {
            DeclarationView::Open { .. } => 1,
            DeclarationView::Close => -1,
            _ => 0,
        }
    }
}

impl Declaration {
    /// Decodes a raw declaration.
    pub fn from_raw(label: String, decl: WidgetDecl) -> (declaration: Declaration)
        ensures
            declaration@ == DeclarationView::decode(label@, decl),
    {
        match decl.typ {
            WidgetDeclType::CloseBox => Declaration::Close,
            WidgetDeclType::TabBox | WidgetDeclType::HorizontalBox | WidgetDeclType::VerticalBox => {
                Declaration::Open { layout: BoxLayout::from_decl_type(decl.typ), label }
            },
            WidgetDeclType::Button | WidgetDeclType::CheckButton => Declaration::BoolParam {
                layout: BoolParamLayout::from_decl_type(decl.typ),
                label,
                zone: decl.zone,
            },
            WidgetDeclType::HorizontalSlider
            | WidgetDeclType::VerticalSlider
            | WidgetDeclType::NumEntry => Declaration::NumParam {
                layout: NumParamLayout::from_decl_type(decl.typ),
                label,
                zone: decl.zone,
                init: decl.init,
                min: decl.min,
                max: decl.max,
                step: decl.step,
            },
            WidgetDeclType::HorizontalBargraph | WidgetDeclType::VerticalBargraph => {
                Declaration::NumDisplay {
                    layout: NumDisplayLayout::from_decl_type(decl.typ),
                    label,
                    zone: decl.zone,
                    min: decl.min,
                    max: decl.max,
                }
            },
        }
    }
}

/// A stream in spec terms.
pub open spec fn stream_view(stream: Seq<Declaration>) -> Seq<DeclarationView> {
    Seq::new(stream.len(), |i: int| stream[i]@)
}

/// The number of boxes that are open after the first `n` declarations of a
/// stream; negative once a `Close` has come that no box was open for.
pub open spec fn depth(stream: Seq<DeclarationView>, n: int) -> int
    decreases n,
{
    if n <= 0 {
        0
    } else {
        depth(stream, n - 1) + stream[n - 1].depth_step()
    }
}

/// No `Close` in the first `n` declarations comes without a box open for it.
pub open spec fn closes_matched(stream: Seq<DeclarationView>, n: int) -> bool {
    forall|k: int| 0 <= k <= n ==> depth(stream, k) >= 0
}

/// Every `Close` of the stream closes a box, and every box is closed.
pub open spec fn well_bracketed(stream: Seq<DeclarationView>) -> bool {
    closes_matched(stream, stream.len() as int) && depth(stream, stream.len() as int) == 0
}

/// The number of controls and readouts that a stream declares.
pub open spec fn count_leaves(stream: Seq<DeclarationView>) -> nat
    decreases stream.len(),
{
    if stream.len() == 0 {
        0
    } else {
        count_leaves(stream.drop_last()) + if stream.last().is_leaf() {
            1nat
        } else {
            0nat
        }
    }
}

/// The declaration that a leaf comes from. (Of a box, the one that opens
/// it.)
pub open spec fn own_declaration(w: WidgetView) -> DeclarationView {
    match w {
        WidgetView::Box { layout, label, .. } => DeclarationView::Open { layout, label },
        WidgetView::BoolParam { layout, label, zone, .. } => DeclarationView::BoolParam {
            layout,
            label,
            zone,
        },
        WidgetView::NumParam { layout, label, zone, init, min, max, step, .. } => {
            DeclarationView::NumParam { layout, label, zone, init, min, max, step }
        },
        WidgetView::NumDisplay { layout, label, zone, min, max, .. } => {
            DeclarationView::NumDisplay { layout, label, zone, min, max }
        },
    }
}

/// A widget written out as a stream: a leaf is its own declaration, a box
/// is an `Open`, its children in order, and a `Close`.
pub open spec fn declarations_of(w: WidgetView) -> Seq<DeclarationView>
    decreases w, 1int,
{
    match w {
        WidgetView::Box { inner, .. } => seq![own_declaration(w)] + declarations_of_forest(inner)
            + seq![DeclarationView::Close],
        _ => seq![own_declaration(w)],
    }
}

/// A list of widgets written out as a stream, one widget after the other.
pub open spec fn declarations_of_forest(ws: Seq<WidgetView>) -> Seq<DeclarationView>
    decreases ws, 0int,
{
    if ws.len() == 0 {
        Seq::empty()
    } else {
        declarations_of_forest(ws.drop_last()) + declarations_of(ws.last())
    }
}

/// The number of leaves of a widget.
pub open spec fn leaf_count(w: WidgetView) -> nat
    decreases w, 1int,
{
    match w {
        WidgetView::Box { inner, .. } => leaf_count_forest(inner),
        _ => 1,
    }
}

/// The number of leaves of a list of widgets.
pub open spec fn leaf_count_forest(ws: Seq<WidgetView>) -> nat
    decreases ws, 0int,
{
    if ws.len() == 0 {
        0
    } else {
        leaf_count_forest(ws.drop_last()) + leaf_count(ws.last())
    }
}

/// The depth within the first part of a stream does not depend on what
/// follows.
pub proof fn lemma_depth_prefix(a: Seq<DeclarationView>, b: Seq<DeclarationView>, n: int)
    requires
        0 <= n <= a.len(),
    ensures
        depth(a + b, n) == depth(a, n),
    decreases n,
{
    if n > 0 {
        lemma_depth_prefix(a, b, n - 1);
    }
}

/// The depth after a first part and `n` declarations of a second part is
/// the sum of the two depths.
pub proof fn lemma_depth_concat(a: Seq<DeclarationView>, b: Seq<DeclarationView>, n: int)
    requires
        0 <= n <= b.len(),
    ensures
        depth(a + b, a.len() + n) == depth(a, a.len() as int) + depth(b, n),
    decreases n,
{
    if n == 0 {
        lemma_depth_prefix(a, b, a.len() as int);
    } else {
        lemma_depth_concat(a, b, n - 1);
        assert((a + b)[a.len() + n - 1] == b[n - 1]);
    }
}

/// A widget written out as a stream is well bracketed.
pub proof fn lemma_widget_well_bracketed(w: WidgetView)
    ensures
        well_bracketed(declarations_of(w)),
    decreases w, 1int,
{
    let s = declarations_of(w);
    match w {
        WidgetView::Box { inner, .. } => {
            lemma_forest_well_bracketed(inner);
            let open = seq![own_declaration(w)];
            let body = declarations_of_forest(inner);
            let close = seq![DeclarationView::Close];
            assert(depth(open, 1) == 1) by {
                assert(depth(open, 0) == 0);
            }
            assert forall|k: int| 0 <= k <= s.len() implies depth(s, k) >= 0 && (k == s.len()
                ==> depth(s, k) == 0) by {
                if k == 0 {
                } else if k <= 1 + body.len() {
                    lemma_depth_concat(open, body, k - 1);
                    lemma_depth_prefix(open + body, close, k);
                } else {
                    lemma_depth_concat(open, body, body.len() as int);
                    lemma_depth_concat(open + body, close, 1);
                    assert(depth(close, 1) == -1) by {
                        assert(depth(close, 0) == 0);
                    }
                }
            }
        },
        _ => {
            assert(depth(s, 1) == 0) by {
                assert(depth(s, 0) == 0);
            }
        },
    }
}

/// A list of widgets written out as a stream is well bracketed.
pub proof fn lemma_forest_well_bracketed(ws: Seq<WidgetView>)
    ensures
        well_bracketed(declarations_of_forest(ws)),
    decreases ws, 0int,
{
    if ws.len() > 0 {
        lemma_forest_well_bracketed(ws.drop_last());
        lemma_widget_well_bracketed(ws.last());
        let a = declarations_of_forest(ws.drop_last());
        let b = declarations_of(ws.last());
        assert forall|k: int| 0 <= k <= (a + b).len() implies depth(a + b, k) >= 0 && (k == (a
            + b).len() ==> depth(a + b, k) == 0) by {
            if k <= a.len() {
                lemma_depth_prefix(a, b, k);
                if k == (a + b).len() {
                    assert(b.len() == 0);
                }
            } else {
                lemma_depth_concat(a, b, k - a.len());
            }
        }
    }
}

/// A stream in two parts declares the leaves of both.
pub proof fn lemma_count_leaves_concat(a: Seq<DeclarationView>, b: Seq<DeclarationView>)
    ensures
        count_leaves(a + b) == count_leaves(a) + count_leaves(b),
    decreases b.len(),
{
    if b.len() == 0 {
        assert(a + b =~= a);
    } else {
        lemma_count_leaves_concat(a, b.drop_last());
        assert((a + b).drop_last() =~= a + b.drop_last());
        assert((a + b).last() == b.last());
    }
}

/// A widget written out as a stream declares as many leaves as the widget
/// has.
pub proof fn lemma_widget_leaves(w: WidgetView)
    ensures
        count_leaves(declarations_of(w)) == leaf_count(w),
    decreases w, 1int,
{
    let own = seq![own_declaration(w)];
    assert(count_leaves(own) == if own_declaration(w).is_leaf() {
        1nat
    } else {
        0nat
    }) by {
        assert(own.drop_last() =~= Seq::<DeclarationView>::empty());
        assert(count_leaves(own.drop_last()) == 0);
    }
    match w {
        WidgetView::Box { inner, .. } => {
            lemma_forest_leaves(inner);
            let body = declarations_of_forest(inner);
            let close = seq![DeclarationView::Close];
            assert(count_leaves(close) == 0) by {
                assert(close.drop_last() =~= Seq::<DeclarationView>::empty());
                assert(count_leaves(close.drop_last()) == 0);
            }
            lemma_count_leaves_concat(own, body);
            lemma_count_leaves_concat(own + body, close);
        },
        _ => {},
    }
}

/// A list of widgets written out as a stream declares as many leaves as the
/// widgets have.
pub proof fn lemma_forest_leaves(ws: Seq<WidgetView>)
    ensures
        count_leaves(declarations_of_forest(ws)) == leaf_count_forest(ws),
    decreases ws, 0int,
{
    if ws.len() > 0 {
        lemma_forest_leaves(ws.drop_last());
        lemma_widget_leaves(ws.last());
        lemma_count_leaves_concat(
            declarations_of_forest(ws.drop_last()),
            declarations_of(ws.last()),
        );
    }
}

/// A widget written out as a stream begins with its own declaration. A
/// leaf is that declaration alone; a box ends with a `Close`, and between
/// its two ends at least one box is open.
pub proof fn lemma_declarations_of_shape(w: WidgetView)
    ensures
        declarations_of(w).len() >= 1,
        declarations_of(w)[0] == own_declaration(w),
        !(w is Box) ==> declarations_of(w).len() == 1,
        w is Box ==> declarations_of(w).len() >= 2 && declarations_of(w).last()
            == DeclarationView::Close,
        forall|k: int| 1 <= k < declarations_of(w).len() ==> depth(declarations_of(w), k) >= 1,
{
    let s = declarations_of(w);
    match w {
        WidgetView::Box { inner, .. } => {
            lemma_forest_well_bracketed(inner);
            let open = seq![own_declaration(w)];
            let body = declarations_of_forest(inner);
            let close = seq![DeclarationView::Close];
            assert(depth(open, 1) == 1) by {
                assert(depth(open, 0) == 0);
            }
            assert forall|k: int| 1 <= k < s.len() implies depth(s, k) >= 1 by {
                lemma_depth_concat(open, body, k - 1);
                lemma_depth_prefix(open + body, close, k);
            }
        },
        _ => {},
    }
}

/// Widgets written out as a stream take up at least one declaration each.
pub proof fn lemma_forest_declarations_len(ws: Seq<WidgetView>)
    ensures
        declarations_of_forest(ws).len() >= ws.len(),
    decreases ws.len(),
{
    if ws.len() > 0 {
        lemma_forest_declarations_len(ws.drop_last());
        lemma_declarations_of_shape(ws.last());
    }
}

} // verus!
