//! Rebuilds the tree of a unit's widgets from the flat stream of its
//! declarations and from the hints declared for its zones.

use std::collections::hash_map::DefaultHasher;
use std::collections::{HashMap, VecDeque};
use std::hash::Hasher;
use vstd::prelude::*;
use vstd::std_specs::hash::DefaultHasherAdditionalSpecFns;
use vstd::string::StringExecFns;
use vstd::utf8::{decode_utf8, valid_utf8};
use crate::declaration::{
    closes_matched, count_leaves, declarations_of, declarations_of_forest, depth,
    leaf_count_forest, lemma_declarations_of_shape, lemma_depth_concat, lemma_depth_prefix,
    lemma_forest_declarations_len, lemma_forest_leaves, lemma_forest_well_bracketed,
    lemma_widget_well_bracketed, stream_view, well_bracketed, Declaration, DeclarationView,
};
use crate::hints::{metadata_elem, parse_metadata};
use crate::layout::WidgetDecl;
use crate::metadata::{
    elems_view, fold_elems, fold_metadata, FoldedMetadata, MetadataElem, MetadataElemView,
    NumDisplayStyle, NumParamStyle, WidgetStyle,
};
use crate::text::{decimal, decimal_text, utf8_text};
use crate::widgets::{forest_view, DspWidget, WidgetView};
use crate::zone::Zone;

verus! {

broadcast use {
    vstd::std_specs::hash::group_hash_axioms,
    vstd::std_specs::vec::group_vec_axioms,
    vstd::std_specs::vecdeque::group_vec_dequeue_axioms,
};

/// Why a stream of declarations is no tree.
#[derive(Debug, Clone, Copy, PartialEq, Eq, Structural)]
pub enum BuildError {
    /// The declaration at `index` is a `Close`, and no box is open there.
    UnexpectedClose { index: usize },
    /// The stream ends with `open` boxes still open.
    UnclosedBox { open: usize },
}

/// The label that the bytes handed over for it stand for: the text that
/// they encode, where `0x00` stands for no label; and where they encode no
/// text, a hash of the bytes, written in decimal.
pub open spec fn label_text(bytes: Seq<u8>) -> Seq<char> {
    if valid_utf8(bytes) {
        if decode_utf8(bytes) == "0x00"@ {
            Seq::empty()
        } else {
            decode_utf8(bytes)
        }
    } else {
        decimal(DefaultHasher::spec_finish(seq![bytes]) as nat)
    }
}

/// Reads a label from the bytes handed over for it.
pub fn label_of_bytes(bytes: &[u8]) -> (label: String)
    ensures
        label@ == label_text(bytes@),
{
    match utf8_text(bytes) {
        Some(text) => {
            if text == String::from_str("0x00") {
                String::new()
            } else {
                text
            }
        },
        None => {
            let mut state = DefaultHasher::new();
            state.write(bytes);
            assert(state@ =~= seq![bytes@]);
            decimal_text(state.finish())
        },
    }
}

/// Lists of hints by zone, in spec terms.
pub open spec fn hints_view(map: Map<usize, Vec<MetadataElem>>) -> Map<
    usize,
    Seq<MetadataElemView>,
> {
    Map::new(|zone: usize| map.contains_key(zone), |zone: usize| elems_view(map[zone]@))
}

/// The hints declared for a zone, in the order of their declaration; none
/// for a zone that has no entry.
pub open spec fn hints_of(
    metadata: Map<usize, Seq<MetadataElemView>>,
    zone: usize,
) -> Seq<MetadataElemView> {
    if metadata.contains_key(zone) {
        metadata[zone]
    } else {
        Seq::empty()
    }
}

/// A leaf carries what the hints declared for its zone come to.
pub open spec fn leaf_decorated(w: WidgetView, metadata: Map<usize, Seq<MetadataElemView>>) -> bool {
    match w {
        WidgetView::Box { .. } => true,
        WidgetView::BoolParam { zone, hidden, tooltip, .. } => {
            let folded = fold_metadata(hints_of(metadata, zone));
            hidden == folded.metadata.hidden && tooltip == folded.metadata.tooltip
        },
        WidgetView::NumParam { zone, style, metadata: own, .. } => {
            let folded = fold_metadata(hints_of(metadata, zone));
            style == folded.param_style() && own == folded.metadata
        },
        WidgetView::NumDisplay { zone, style, metadata: own, .. } => {
            let folded = fold_metadata(hints_of(metadata, zone));
            style == folded.display_style() && own == folded.metadata
        },
    }
}

/// Every leaf of the widget carries what the hints declared for its zone
/// come to.
pub open spec fn decorated(w: WidgetView, metadata: Map<usize, Seq<MetadataElemView>>) -> bool
    decreases w, 1int,
{
    match w {
        WidgetView::Box { inner, .. } => forest_decorated(inner, metadata),
        _ => leaf_decorated(w, metadata),
    }
}

/// Every leaf of the widgets carries what the hints declared for its zone
/// come to.
pub open spec fn forest_decorated(
    ws: Seq<WidgetView>,
    metadata: Map<usize, Seq<MetadataElemView>>,
) -> bool
    decreases ws, 0int,
{
    ws.len() == 0 || (forest_decorated(ws.drop_last(), metadata) && decorated(ws.last(), metadata))
}

/// Two decorated widgets that read as the same stream are the same widget.
proof fn lemma_widget_unique(
    a: WidgetView,
    b: WidgetView,
    metadata: Map<usize, Seq<MetadataElemView>>,
)
    requires
        declarations_of(a) == declarations_of(b),
        decorated(a, metadata),
        decorated(b, metadata),
    ensures
        a == b,
    decreases declarations_of(a).len(), 0int,
{
    lemma_declarations_of_shape(a);
    lemma_declarations_of_shape(b);
    match a {
        WidgetView::Box { inner, .. } => {
            assert(b is Box);
            match b {
                WidgetView::Box { inner: other_inner, .. } => {
                    let body = declarations_of_forest(inner);
                    let other_body = declarations_of_forest(other_inner);
                    let s = declarations_of(a);
                    assert(s.subrange(1, s.len() - 1) =~= body);
                    assert(s.subrange(1, s.len() - 1) =~= other_body);
                    lemma_forest_unique(inner, other_inner, metadata);
                },
                _ => {},
            }
        },
        _ => {
            assert(!(b is Box));
        },
    }
}

/// Two decorated lists of widgets that read as the same stream are the
/// same list.
proof fn lemma_forest_unique(
    a: Seq<WidgetView>,
    b: Seq<WidgetView>,
    metadata: Map<usize, Seq<MetadataElemView>>,
)
    requires
        declarations_of_forest(a) == declarations_of_forest(b),
        forest_decorated(a, metadata),
        forest_decorated(b, metadata),
    ensures
        a == b,
    decreases declarations_of_forest(a).len(), 1int,
{
    lemma_forest_declarations_len(a);
    lemma_forest_declarations_len(b);
    if a.len() == 0 || b.len() == 0 {
        assert(a =~= b);
    } else {
        let s = declarations_of_forest(a);
        let front = declarations_of_forest(a.drop_last());
        let other_front = declarations_of_forest(b.drop_last());
        let last = declarations_of(a.last());
        let other_last = declarations_of(b.last());
        lemma_declarations_of_shape(a.last());
        lemma_declarations_of_shape(b.last());
        lemma_widget_well_bracketed(a.last());
        lemma_widget_well_bracketed(b.last());
        assert(s == front + last);
        assert(s == other_front + other_last);
        if last.len() <= other_last.len() {
            lemma_last_widget_is_told(other_last, last, other_front, front);
        } else {
            lemma_last_widget_is_told(last, other_last, front, other_front);
        }
        assert(last =~= s.subrange(s.len() - last.len(), s.len() as int));
        assert(other_last =~= s.subrange(s.len() - last.len(), s.len() as int));
        assert(front =~= s.subrange(0, s.len() - last.len()));
        assert(other_front =~= s.subrange(0, s.len() - last.len()));
        lemma_widget_unique(a.last(), b.last(), metadata);
        lemma_forest_unique(a.drop_last(), b.drop_last(), metadata);
        assert(a =~= a.drop_last().push(a.last()));
        assert(b =~= b.drop_last().push(b.last()));
    }
}

/// The end of a stream is a whole widget in one way only: the end of a
/// widget's stream, short of the whole, leaves a box open in front of it.
proof fn lemma_last_widget_is_told(
    long: Seq<DeclarationView>,
    short: Seq<DeclarationView>,
    long_front: Seq<DeclarationView>,
    short_front: Seq<DeclarationView>,
)
    requires
        short_front + short == long_front + long,
        1 <= short.len() <= long.len(),
        well_bracketed(short),
        well_bracketed(long),
        forall|k: int| 1 <= k < long.len() ==> depth(long, k) >= 1,
    ensures
        short.len() == long.len(),
{
    let cut = long.len() - short.len();
    let whole = long_front + long;
    assert(whole.len() == short_front.len() + short.len());
    assert(short =~= long.subrange(cut, long.len() as int)) by {
        assert forall|i: int| 0 <= i < short.len() implies short[i] == long[cut + i] by {
            assert(whole[short_front.len() + i] == short[i]);
            assert(whole[long_front.len() + cut + i] == long[cut + i]);
        }
    }
    assert(long =~= long.subrange(0, cut) + short);
    lemma_depth_concat(long.subrange(0, cut), short, short.len() as int);
    lemma_depth_prefix(long.subrange(0, cut), short, cut);
}

/// A stream is the stream of one tree at most: two lists of widgets that
/// read as the same stream, each leaf with what the hints declared for its
/// zone come to, are the same. So what `build_widgets` builds is told by
/// the stream and the hints alone.
pub proof fn lemma_stream_has_one_tree(
    a: Seq<WidgetView>,
    b: Seq<WidgetView>,
    metadata: Map<usize, Seq<MetadataElemView>>,
)
    requires
        declarations_of_forest(a) == declarations_of_forest(b),
        forest_decorated(a, metadata),
        forest_decorated(b, metadata),
    ensures
        a == b,
{
    lemma_forest_unique(a, b, metadata);
}

/// Collects what a unit declares while it wires up its controls, then
/// builds the widgets.
pub struct DspWidgetsBuilder {
    widget_decls: VecDeque<Declaration>,
    metadata_map: HashMap<usize, Vec<MetadataElem>>,
}

impl DspWidgetsBuilder {
    /// The declarations collected so far, in order.
    pub closed spec fn declarations(&self) -> Seq<DeclarationView> {
        stream_view(self.widget_decls@)
    }

    /// The hints collected so far, by zone, each list in order.
    pub closed spec fn metadata(&self) -> Map<usize, Seq<MetadataElemView>> {
        hints_view(self.metadata_map@)
    }

    /// A builder that holds nothing yet.
    pub fn new() -> (builder: Self)
        ensures
            builder.declarations() == Seq::<DeclarationView>::empty(),
            builder.metadata() == Map::<usize, Seq<MetadataElemView>>::empty(),
    {
        let builder = DspWidgetsBuilder { widget_decls: VecDeque::new(), metadata_map: HashMap::new() };
        assert(builder.declarations() =~= Seq::<DeclarationView>::empty());
        assert(builder.metadata() =~= Map::<usize, Seq<MetadataElemView>>::empty());
        builder
    }

    /// Takes the next declaration of the stream.
    pub fn declare(&mut self, declaration: Declaration)
        ensures
            final(self).declarations() == old(self).declarations().push(declaration@),
            final(self).metadata() == old(self).metadata(),
    {
        self.widget_decls.push_back(declaration);
        assert(self.declarations() =~= old(self).declarations().push(declaration@));
    }

    /// Takes one more hint for a zone.
    pub fn declare_hint(&mut self, zone: usize, elem: MetadataElem)
        ensures
            final(self).declarations() == old(self).declarations(),
            final(self).metadata() == old(self).metadata().insert(
                zone,
                hints_of(old(self).metadata(), zone).push(elem@),
            ),
    {
        let mut elems = match self.metadata_map.remove(&zone) {
            Some(elems) => elems,
            None => Vec::new(),
        };
        assert(elems_view(elems@) =~= hints_of(old(self).metadata(), zone));
        elems.push(elem);
        assert(elems_view(elems@) =~= hints_of(old(self).metadata(), zone).push(elem@));
        self.metadata_map.insert(zone, elems);
        assert(self.metadata() =~= old(self).metadata().insert(
            zone,
            hints_of(old(self).metadata(), zone).push(elem@),
        ));
    }

    /// Takes a raw declaration, as the unit hands it over: the bytes of its
    /// label and the declaration itself.
    pub fn declare_widget(&mut self, label: &[u8], decl: WidgetDecl)
        ensures
            final(self).declarations() == old(self).declarations().push(
                DeclarationView::decode(label_text(label@), decl),
            ),
            final(self).metadata() == old(self).metadata(),
    {
        self.declare(Declaration::from_raw(label_of_bytes(label), decl));
    }

    /// Takes a hint for a zone as the unit hands it over, as a key and a
    /// value, together with what the texts that `dict_value_texts` lists
    /// for them were read as. A hint that is not known, or not well formed,
    /// is dropped.
    pub fn declare_metadata(&mut self, zone: usize, key: &str, value: &str, numbers: &Vec<Option<u32>>)
        ensures
            final(self).declarations() == old(self).declarations(),
            final(self).metadata() == match metadata_elem(key@, value@, numbers@) {
                Some(elem) => old(self).metadata().insert(
                    zone,
                    hints_of(old(self).metadata(), zone).push(elem),
                ),
                None => old(self).metadata(),
            },
    {
        match parse_metadata(key, value, numbers) {
            Some(elem) => {
                self.declare_hint(zone, elem);
            },
            None => {},
        }
    }

    /// Builds the widgets that the collected stream declares and appends them
    /// to `widget_list`.
    ///
    /// This succeeds exactly on a well-bracketed stream. The widgets built
    /// are then those that, written out depth first, give the stream back:
    /// each box holds what was declared between its `Open` and its `Close`,
    /// and each leaf carries what the hints declared for its zone come to.
    /// On any other stream `widget_list` is left as it was, and the error
    /// tells the first `Close` that closes nothing, or else how many boxes
    /// the stream leaves open.
    pub fn build_widgets<Z: Zone>(self, widget_list: &mut Vec<DspWidget<Z>>) -> (res: Result<
        (),
        BuildError,
    >)
        ensures
            res is Ok <==> well_bracketed(self.declarations()),
            match res {
                Ok(()) => {
                    let n = old(widget_list).len() as int;
                    let built = forest_view(
                        final(widget_list)@.subrange(n, final(widget_list).len() as int),
                    );
                    &&& final(widget_list).len() >= n
                    &&& final(widget_list)@.subrange(0, n) == old(widget_list)@
                    &&& declarations_of_forest(built) == self.declarations()
                    &&& forest_decorated(built, self.metadata())
                    &&& leaf_count_forest(built) == count_leaves(self.declarations())
                },
                Err(BuildError::UnexpectedClose { index }) => {
                    &&& *final(widget_list) == *old(widget_list)
                    &&& index < self.declarations().len()
                    &&& closes_matched(self.declarations(), index as int)
                    &&& depth(self.declarations(), index + 1) < 0
                },
                Err(BuildError::UnclosedBox { open }) => {
                    &&& *final(widget_list) == *old(widget_list)
                    &&& closes_matched(self.declarations(), self.declarations().len() as int)
                    &&& open == depth(self.declarations(), self.declarations().len() as int)
                    &&& open > 0
                },
            },
    {
        let mut builder = self;
        let pending = builder.widget_decls.len();
        assert(builder.declarations().len() == pending);
        match builder.build_level::<Z>(0) {
            Ok(mut items) => {
                proof {
                    let built = forest_view(items@);
                    lemma_forest_well_bracketed(built);
                    lemma_forest_leaves(built);
                    assert((old(widget_list)@ + items@).subrange(
                        old(widget_list).len() as int,
                        old(widget_list).len() + items.len(),
                    ) =~= items@);
                    assert((old(widget_list)@ + items@).subrange(0, old(widget_list).len() as int)
                        =~= old(widget_list)@);
                }
                widget_list.append(&mut items);
                Ok(())
            },
            Err(e) => Err(e),
        }
    }

    /// What the hints declared for `zone` come to.
    fn folded_for(&self, zone: usize) -> (folded: FoldedMetadata)
        ensures
            folded@ == fold_metadata(hints_of(self.metadata(), zone)),
    {
        match self.metadata_map.get(&zone) {
            Some(elems) => fold_elems(elems),
            None => fold_elems(&Vec::new()),
        }
    }

    /// Builds the widgets of one level: up to the `Close` that ends it where
    /// `level > 0`, up to the end of the stream where `level == 0`.
    fn build_level<Z: Zone>(&mut self, level: usize) -> (res: Result<Vec<DspWidget<Z>>, BuildError>)
        requires
            level + old(self).declarations().len() <= usize::MAX,
        ensures
            final(self).metadata() == old(self).metadata(),
            final(self).declarations().len() <= old(self).declarations().len(),
            match res {
                Ok(items) => {
                    let flat = declarations_of_forest(forest_view(items@));
                    &&& forest_decorated(forest_view(items@), old(self).metadata())
                    &&& level == 0 ==> old(self).declarations() == flat
                    &&& level > 0 ==> old(self).declarations() == flat + seq![
                        DeclarationView::Close,
                    ] + final(self).declarations()
                },
                Err(BuildError::UnexpectedClose { index }) => {
                    &&& level == 0
                    &&& index < old(self).declarations().len()
                    &&& closes_matched(old(self).declarations(), index as int)
                    &&& depth(old(self).declarations(), index + 1) < 0
                },
                Err(BuildError::UnclosedBox { open }) => {
                    &&& closes_matched(
                        old(self).declarations(),
                        old(self).declarations().len() as int,
                    )
                    &&& open == level + depth(
                        old(self).declarations(),
                        old(self).declarations().len() as int,
                    )
                    &&& open > 0
                },
            },
        decreases old(self).declarations().len(),
    {
        let ghost all = self.declarations();
        let ghost hints = self.metadata();
        let total = self.widget_decls.len();
        let mut items: Vec<DspWidget<Z>> = Vec::new();
        assert(forest_view(items@) =~= Seq::<WidgetView>::empty());
        loop
            invariant
                all == old(self).declarations(),
                hints == old(self).metadata(),
                total == all.len(),
                level + all.len() <= usize::MAX,
                self.metadata() == hints,
                all == declarations_of_forest(forest_view(items@)) + self.declarations(),
                forest_decorated(forest_view(items@), hints),
            decreases self.declarations().len(),
        {
            let ghost flat = declarations_of_forest(forest_view(items@));
            let ghost before = self.declarations();
            let ghost seen = forest_view(items@);
            proof {
                lemma_forest_well_bracketed(seen);
            }
            let next = self.widget_decls.pop_front();
            let ghost rest = self.declarations();
            let widget = match next {
                None => {
                    proof {
                        assert(all =~= flat);
                    }
                    if level == 0 {
                        return Ok(items);
                    } else {
                        return Err(BuildError::UnclosedBox { open: level });
                    }
                },
                Some(declaration) => {
                    assert(before =~= seq![declaration@] + rest);
                    match declaration {
                        Declaration::Close => {
                            if level == 0 {
                                let index = total - 1 - self.widget_decls.len();
                                proof {
                                    assert(index == flat.len());
                                    assert forall|k: int| 0 <= k <= index implies depth(all, k)
                                        >= 0 by {
                                        lemma_depth_prefix(flat, before, k);
                                    }
                                    lemma_depth_prefix(flat, before, index as int);
                                    assert(all[index as int] == DeclarationView::Close);
                                }
                                return Err(BuildError::UnexpectedClose { index });
                            } else {
                                proof {
                                    assert(all =~= flat + seq![DeclarationView::Close] + rest);
                                }
                                return Ok(items);
                            }
                        },
                        Declaration::Open { layout, label } => {
                            let ghost opening = seq![declaration@];
                            match self.build_level::<Z>(level + 1) {
                                Ok(inner) => {
                                    let ghost body = declarations_of_forest(forest_view(inner@));
                                    let widget = DspWidget::Box { layout, label, inner };
                                    proof {
                                        assert(declarations_of(widget@) =~= opening + body + seq![
                                            DeclarationView::Close,
                                        ]);
                                        assert(all =~= flat + declarations_of(widget@)
                                            + self.declarations());
                                    }
                                    widget
                                },
                                Err(BuildError::UnexpectedClose { index }) => {
                                    return Err(BuildError::UnexpectedClose { index });
                                },
                                Err(BuildError::UnclosedBox { open }) => {
                                    proof {
                                        let head = flat + opening;
                                        assert(all =~= head + rest);
                                        assert(depth(head, head.len() as int) == 1) by {
                                            lemma_depth_concat(flat, opening, 1);
                                            assert(depth(opening, 0) == 0);
                                        }
                                        assert forall|k: int| 0 <= k <= all.len() implies depth(
                                            all,
                                            k,
                                        ) >= 0 by {
                                            if k <= flat.len() {
                                                lemma_depth_prefix(flat, before, k);
                                            } else {
                                                lemma_depth_concat(head, rest, k - head.len());
                                            }
                                        }
                                        lemma_depth_concat(head, rest, rest.len() as int);
                                    }
                                    return Err(BuildError::UnclosedBox { open });
                                },
                            }
                        },
                        Declaration::BoolParam { layout, label, zone } => {
                            let folded = self.folded_for(zone);
                            DspWidget::BoolParam {
                                layout,
                                label,
                                zone: Z::from_zone_ptr(zone),
                                hidden: folded.metadata.hidden,
                                tooltip: folded.metadata.tooltip,
                            }
                        },
                        Declaration::NumParam { layout, label, zone, init, min, max, step } => {
                            let folded = self.folded_for(zone);
                            DspWidget::NumParam {
                                layout,
                                style: match folded.style {
                                    Some(WidgetStyle::Param(s)) => s,
                                    _ => NumParamStyle::FromLayout,
                                },
                                label,
                                zone: Z::from_zone_ptr(zone),
                                init,
                                min,
                                max,
                                step,
                                metadata: folded.metadata,
                            }
                        },
                        Declaration::NumDisplay { layout, label, zone, min, max } => {
                            let folded = self.folded_for(zone);
                            DspWidget::NumDisplay {
                                layout,
                                style: match folded.style {
                                    Some(WidgetStyle::Disp(s)) => s,
                                    _ => NumDisplayStyle::FromLayout,
                                },
                                label,
                                zone: Z::from_zone_ptr(zone),
                                min,
                                max,
                                metadata: folded.metadata,
                            }
                        },
                    }
                },
            };
            proof {
                assert(decorated(widget@, hints));
                assert(all =~= flat + declarations_of(widget@) + self.declarations());
                let grown = forest_view(items@.push(widget));
                assert(items@.push(widget).drop_last() =~= items@);
                assert(grown =~= seen.push(widget@));
                assert(grown.drop_last() =~= seen);
            }
            items.push(widget);
        }
    }
}

} // verus!
