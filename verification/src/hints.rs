//! Reading the hints that a unit declares as pairs of a key and a value.
//!
//! A menu or a set of radio buttons comes as a dictionary of labelled
//! numbers, such as `{'low':0; 'high':1}`. The numbers are read by the
//! caller: `dict_value_texts` tells which texts to read, and
//! `parse_metadata` takes what they were read as.

use vstd::prelude::*;
use crate::metadata::{
    entries_view, MenuEntry, MetadataElem, MetadataElemView, NumDisplayStyle, NumParamStyle,
    NumParamStyleView, WidgetScale, WidgetStyle, WidgetStyleView,
};
use crate::persist::texts_view;
use crate::text::{
    chars_of, cut, find_char, first_index, part_is, split, starts_with, trim_bounds, trimmed,
};

verus! {

broadcast use vstd::std_specs::vec::group_vec_axioms;

/// One entry of a dictionary as written: its label, and the text of its
/// value.
#[derive(Debug, Clone, PartialEq, Eq)]
pub struct DictEntry {
    pub label: String,
    pub value: String,
}

impl View for DictEntry {
    type V = (Seq<char>, Seq<char>);

    open spec fn view(&self) -> (Seq<char>, Seq<char>) {
        (self.label@, self.value@)
    }
}

/// The entries of a dictionary in spec terms.
pub open spec fn dict_view(entries: Seq<DictEntry>) -> Seq<(Seq<char>, Seq<char>)> {
    Seq::new(entries.len(), |i: int| entries[i]@)
}

/// The text without its first and its last character, which stand for a
/// pair of brackets or of quotes. There is none where the text has fewer
/// than two characters, or where one of the two is not an ASCII character.
pub open spec fn strip_ends(s: Seq<char>) -> Option<Seq<char>> {
    if s.len() >= 2 && (s[0] as u32) < 128 && (s.last() as u32) < 128 {
        Some(s.subrange(1, s.len() - 1))
    } else {
        None
    }
}

/// One entry of a dictionary: the label is what stands before the first
/// colon, trimmed and without its quotes; the value is what stands between
/// that colon and the next one or the end, trimmed. There is none where
/// the text has no colon or the label no quotes.
pub open spec fn dict_entry(piece: Seq<char>) -> Option<(Seq<char>, Seq<char>)> {
    let i = first_index(piece, ':');
    if 0 <= i < piece.len() {
        let rest = piece.subrange(i + 1, piece.len() as int);
        let j = first_index(rest, ':');
        match strip_ends(trimmed(piece.subrange(0, i))) {
            Some(label) => Some((label, trimmed(rest.subrange(0, j)))),
            None => None,
        }
    } else {
        None
    }
}

/// The entries of a dictionary: the text is trimmed and loses its
/// brackets, and what is left, trimmed again, holds the entries between
/// semicolons. There is none where the brackets are missing or a part
/// between semicolons is no entry.
pub open spec fn dict_entries(text: Seq<char>) -> Option<Seq<(Seq<char>, Seq<char>)>> {
    match strip_ends(trimmed(text)) {
        Some(inner) => {
            let pieces = split(trimmed(inner), ';');
            if forall|i: int| 0 <= i < pieces.len() ==> (#[trigger] dict_entry(pieces[i])) is Some {
                Some(Seq::new(pieces.len(), |i: int| dict_entry(pieces[i])->0))
            } else {
                None
            }
        },
        None => None,
    }
}

/// The index of the entry of a menu with the given label, or the menu's
/// length where it has none.
pub open spec fn label_index(menu: Seq<(Seq<char>, u32)>, label: Seq<char>) -> int
    decreases menu.len(),
{
    if menu.len() == 0 || menu[0].0 == label {
        0
    } else {
        1 + label_index(menu.drop_first(), label)
    }
}

/// A menu with one more labelled value: it takes the place of the value
/// with the same label, or comes last where there is none.
pub open spec fn menu_with(menu: Seq<(Seq<char>, u32)>, label: Seq<char>, value: u32) -> Seq<
    (Seq<char>, u32),
> {
    let i = label_index(menu, label);
    if 0 <= i < menu.len() {
        menu.update(i, (label, value))
    } else {
        menu.push((label, value))
    }
}

/// The menu that the entries of a dictionary make with the numbers that
/// their values were read as, taken in order. There is none where a value
/// is no number, or where the numbers are not one for each entry.
pub open spec fn menu_of(
    entries: Seq<(Seq<char>, Seq<char>)>,
    numbers: Seq<Option<u32>>,
) -> Option<Seq<(Seq<char>, u32)>>
    decreases entries.len(),
{
    if entries.len() != numbers.len() {
        None
    } else if entries.len() == 0 {
        Some(Seq::empty())
    } else {
        match (menu_of(entries.drop_last(), numbers.drop_last()), numbers.last()) {
            (Some(menu), Some(value)) => Some(menu_with(menu, entries.last().0, value)),
            _ => None,
        }
    }
}

/// No two entries of the menu have the same label.
pub open spec fn distinct_labels(menu: Seq<(Seq<char>, u32)>) -> bool {
    forall|i: int, j: int| 0 <= i < j < menu.len() ==> menu[i].0 != menu[j].0
}

/// The dictionary of a hint: the one written after `menu` or `radio` in
/// the value of a `style` hint.
pub open spec fn dictionary_of(key: Seq<char>, value: Seq<char>) -> Option<
    Seq<(Seq<char>, Seq<char>)>,
> {
    let v = trimmed(value);
    if trimmed(key) != "style"@ {
        None
    } else if starts_with(v, "menu"@) {
        dict_entries(v.subrange(4, v.len() as int))
    } else if starts_with(v, "radio"@) {
        dict_entries(v.subrange(5, v.len() as int))
    } else {
        None
    }
}

/// The texts of a hint that stand for numbers: the values of its
/// dictionary, in order.
pub open spec fn number_texts(key: Seq<char>, value: Seq<char>) -> Seq<Seq<char>> {
    match dictionary_of(key, value) {
        Some(entries) => Seq::new(entries.len(), |i: int| entries[i].1),
        None => Seq::empty(),
    }
}

/// The style that a `style` hint asks for, if any.
pub open spec fn style_of(key: Seq<char>, value: Seq<char>, numbers: Seq<Option<u32>>) -> Option<
    WidgetStyleView,
> {
    let v = trimmed(value);
    if v == "knob"@ {
        Some(WidgetStyleView::Param(NumParamStyleView::Knob))
    } else if v == "led"@ {
        Some(WidgetStyleView::Disp(NumDisplayStyle::Led))
    } else if v == "numerical"@ {
        Some(WidgetStyleView::Disp(NumDisplayStyle::Numerical))
    } else {
        match dictionary_of(key, value) {
            Some(entries) => match menu_of(entries, numbers) {
                Some(menu) => if starts_with(v, "menu"@) {
                    Some(WidgetStyleView::Param(NumParamStyleView::Menu(menu)))
                } else {
                    Some(WidgetStyleView::Param(NumParamStyleView::Radio(menu)))
                },
                None => None,
            },
            None => None,
        }
    }
}

/// The hint that a key and a value stand for, both trimmed, given what the
/// values of its dictionary were read as. A key or a value that is not
/// known gives none, and so does a dictionary that is not well formed.
pub open spec fn metadata_elem(
    key: Seq<char>,
    value: Seq<char>,
    numbers: Seq<Option<u32>>,
) -> Option<MetadataElemView> {
    let k = trimmed(key);
    let v = trimmed(value);
    if k == "unit"@ {
        Some(MetadataElemView::Unit(v))
    } else if k == "tooltip"@ {
        Some(MetadataElemView::Tooltip(v))
    } else if k == "style"@ {
        match style_of(key, value, numbers) {
            Some(style) => Some(MetadataElemView::Style(style)),
            None => None,
        }
    } else if k == "scale"@ {
        if v == "lin"@ {
            Some(MetadataElemView::Scale(WidgetScale::Lin))
        } else if v == "log"@ {
            Some(MetadataElemView::Scale(WidgetScale::Log))
        } else if v == "exp"@ {
            Some(MetadataElemView::Scale(WidgetScale::Exp))
        } else {
            None
        }
    } else if k == "hidden"@ {
        if v == "0"@ {
            Some(MetadataElemView::Hidden(false))
        } else if v == "1"@ {
            Some(MetadataElemView::Hidden(true))
        } else {
            None
        }
    } else {
        None
    }
}

/// An optional hint in spec terms.
pub open spec fn elem_view(elem: Option<MetadataElem>) -> Option<MetadataElemView> {
    match elem {
        Some(e) => Some(e@),
        None => None,
    }
}

/// Optional entries in spec terms.
pub open spec fn opt_dict_view(entries: Option<Vec<DictEntry>>) -> Option<
    Seq<(Seq<char>, Seq<char>)>,
> {
    match entries {
        Some(es) => Some(dict_view(es@)),
        None => None,
    }
}

/// Tells whether the part `from..to` of a text can lose its ends.
fn can_strip(chars: &Vec<char>, from: usize, to: usize) -> (r: bool)
    requires
        from <= to <= chars.len(),
    ensures
        r == strip_ends(chars@.subrange(from as int, to as int)) is Some,
        r ==> from + 2 <= to && strip_ends(chars@.subrange(from as int, to as int)) == Some(
            chars@.subrange(from + 1, to - 1),
        ),
{
    if to - from >= 2 && (chars[from] as u32) < 128 && (chars[to - 1] as u32) < 128 {
        assert(chars@.subrange(from as int, to as int).subrange(1, to - from - 1)
            =~= chars@.subrange(from + 1, to - 1));
        true
    } else {
        false
    }
}

/// Reads one entry of a dictionary from the part `from..to` of a text.
fn parse_dict_entry(text: &str, chars: &Vec<char>, from: usize, to: usize) -> (entry: Option<
    DictEntry,
>)
    requires
        chars@ == text@,
        from <= to <= chars.len(),
    ensures
        match entry {
            Some(e) => dict_entry(chars@.subrange(from as int, to as int)) == Some(e@),
            None => dict_entry(chars@.subrange(from as int, to as int)) is None,
        },
{
    let ghost piece = chars@.subrange(from as int, to as int);
    let colon = find_char(chars, from, to, ':');
    if colon == to {
        return None;
    }
    let next = find_char(chars, colon + 1, to, ':');
    let (label_from, label_to) = trim_bounds(chars, from, colon);
    let (value_from, value_to) = trim_bounds(chars, colon + 1, next);
    proof {
        let rest = piece.subrange(colon - from + 1, piece.len() as int);
        assert(rest =~= chars@.subrange(colon + 1, to as int));
        assert(rest.subrange(0, next - colon - 1) =~= chars@.subrange(colon + 1, next as int));
        assert(piece.subrange(0, colon - from) =~= chars@.subrange(from as int, colon as int));
    }
    if can_strip(chars, label_from, label_to) {
        Some(
            DictEntry {
                label: cut(text, label_from + 1, label_to - 1),
                value: cut(text, value_from, value_to),
            },
        )
    } else {
        None
    }
}

/// Reads the entries of a dictionary from the part `from..to` of a text.
fn parse_dict_entries(text: &str, chars: &Vec<char>, from: usize, to: usize) -> (entries: Option<
    Vec<DictEntry>,
>)
    requires
        chars@ == text@,
        from <= to <= chars.len(),
    ensures
        opt_dict_view(entries) == dict_entries(chars@.subrange(from as int, to as int)),
{
    let (outer_from, outer_to) = trim_bounds(chars, from, to);
    if !can_strip(chars, outer_from, outer_to) {
        return None;
    }
    let (start, end) = trim_bounds(chars, outer_from + 1, outer_to - 1);
    let ghost whole = chars@.subrange(start as int, end as int);
    let ghost pieces = split(whole, ';');
    let ghost done: Seq<Seq<char>> = Seq::empty();
    let mut entries: Vec<DictEntry> = Vec::new();
    let mut at = start;
    loop
        invariant
            chars@ == text@,
            start <= at <= end <= chars.len(),
            whole == chars@.subrange(start as int, end as int),
            pieces == split(whole, ';'),
            dict_entries(chars@.subrange(from as int, to as int)) == if forall|i: int|
                0 <= i < pieces.len() ==> (#[trigger] dict_entry(pieces[i])) is Some {
                Some(Seq::new(pieces.len(), |i: int| dict_entry(pieces[i])->0))
            } else {
                None
            },
            pieces == done + split(chars@.subrange(at as int, end as int), ';'),
            entries.len() == done.len(),
            forall|i: int| 0 <= i < done.len() ==> dict_entry(done[i]) == Some(entries[i]@),
        decreases end - at,
    {
        let semicolon = find_char(chars, at, end, ';');
        let ghost piece = chars@.subrange(at as int, semicolon as int);
        let ghost rest = chars@.subrange(at as int, end as int);
        proof {
            assert(rest.subrange(0, semicolon - at) =~= piece);
            if semicolon < end {
                assert(rest.subrange(semicolon - at + 1, rest.len() as int) =~= chars@.subrange(
                    semicolon + 1,
                    end as int,
                ));
            } else {
                assert(piece =~= rest);
            }
            assert(pieces[done.len() as int] == piece);
        }
        match parse_dict_entry(text, chars, at, semicolon) {
            None => {
                return None;
            },
            Some(entry) => {
                entries.push(entry);
            },
        }
        proof {
            done = done.push(piece);
        }
        if semicolon == end {
            proof {
                assert(pieces =~= done);
                assert(dict_view(entries@) =~= Seq::new(
                    pieces.len(),
                    |i: int| dict_entry(pieces[i])->0,
                ));
            }
            return Some(entries);
        }
        proof {
            assert(pieces =~= done + split(chars@.subrange(semicolon + 1, end as int), ';'));
        }
        at = semicolon + 1;
    }
}

/// The index found by going through the menu from the top is the index of
/// the label.
proof fn lemma_label_index(menu: Seq<(Seq<char>, u32)>, label: Seq<char>, i: int)
    requires
        0 <= i <= menu.len(),
        forall|k: int| 0 <= k < i ==> menu[k].0 != label,
        i < menu.len() ==> menu[i].0 == label,
    ensures
        label_index(menu, label) == i,
    decreases i,
{
    if i > 0 {
        let rest = menu.drop_first();
        assert forall|k: int| 0 <= k < i - 1 implies rest[k].0 != label by {
            assert(rest[k] == menu[k + 1]);
        }
        lemma_label_index(rest, label, i - 1);
    }
}

/// The index of a label lies within the menu or is the menu's length, and
/// no entry before it has the label.
pub proof fn lemma_label_index_bounds(menu: Seq<(Seq<char>, u32)>, label: Seq<char>)
    ensures
        0 <= label_index(menu, label) <= menu.len(),
        forall|k: int| 0 <= k < label_index(menu, label) ==> menu[k].0 != label,
        label_index(menu, label) < menu.len() ==> menu[label_index(menu, label)].0 == label,
    decreases menu.len(),
{
    if menu.len() > 0 && menu[0].0 != label {
        let rest = menu.drop_first();
        lemma_label_index_bounds(rest, label);
        assert forall|k: int| 0 <= k < label_index(menu, label) implies menu[k].0 != label by {
            if k > 0 {
                assert(rest[k - 1] == menu[k]);
            }
        }
    }
}

/// A menu whose labels are distinct keeps them distinct when it takes one
/// more labelled value.
pub proof fn lemma_menu_with_distinct(menu: Seq<(Seq<char>, u32)>, label: Seq<char>, value: u32)
    requires
        distinct_labels(menu),
    ensures
        distinct_labels(menu_with(menu, label, value)),
{
    lemma_label_index_bounds(menu, label);
}

/// A menu made from a dictionary has no label twice.
pub proof fn lemma_menu_of_distinct(
    entries: Seq<(Seq<char>, Seq<char>)>,
    numbers: Seq<Option<u32>>,
)
    ensures
        menu_of(entries, numbers) matches Some(menu) ==> distinct_labels(menu),
    decreases entries.len(),
{
    if entries.len() == numbers.len() && entries.len() > 0 {
        lemma_menu_of_distinct(entries.drop_last(), numbers.drop_last());
        match (menu_of(entries.drop_last(), numbers.drop_last()), numbers.last()) {
            (Some(menu), Some(value)) => {
                lemma_menu_with_distinct(menu, entries.last().0, value);
            },
            _ => {},
        }
    }
}

/// Puts a labelled value into a menu.
fn menu_insert(menu: &mut Vec<MenuEntry>, label: String, value: u32)
    ensures
        entries_view(final(menu)@) == menu_with(entries_view(old(menu)@), label@, value),
{
    let ghost before = entries_view(menu@);
    let mut i: usize = 0;
    while i < menu.len()
        invariant
            i <= menu.len(),
            menu@ == old(menu)@,
            forall|k: int| 0 <= k < i ==> before[k].0 != label@,
            before == entries_view(old(menu)@),
        decreases menu.len() - i,
    {
        if menu[i].label == label {
            proof {
                lemma_label_index(before, label@, i as int);
            }
            menu[i] = MenuEntry { label, value };
            assert(entries_view(menu@) =~= before.update(i as int, (label@, value)));
            return ;
        }
        i += 1;
    }
    proof {
        lemma_label_index(before, label@, i as int);
    }
    menu.push(MenuEntry { label, value });
    assert(entries_view(menu@) =~= before.push((label@, value)));
}

/// Makes a menu from the entries of a dictionary and the numbers that
/// their values were read as.
fn build_menu(entries: &Vec<DictEntry>, numbers: &Vec<Option<u32>>) -> (menu: Option<Vec<MenuEntry>>)
    ensures
        match menu {
            Some(m) => menu_of(dict_view(entries@), numbers@) == Some(entries_view(m@)),
            None => menu_of(dict_view(entries@), numbers@) is None,
        },
{
    if entries.len() != numbers.len() {
        return None;
    }
    let ghost all = dict_view(entries@);
    let mut menu: Vec<MenuEntry> = Vec::new();
    let mut i: usize = 0;
    proof {
        assert(all.subrange(0, 0) =~= Seq::<(Seq<char>, Seq<char>)>::empty());
        assert(entries_view(menu@) =~= Seq::<(Seq<char>, u32)>::empty());
    }
    while i < entries.len()
        invariant
            i <= entries.len(),
            entries.len() == numbers.len(),
            all == dict_view(entries@),
            menu_of(all.subrange(0, i as int), numbers@.subrange(0, i as int)) == Some(
                entries_view(menu@),
            ),
        decreases entries.len() - i,
    {
        proof {
            assert(all.subrange(0, i + 1).drop_last() =~= all.subrange(0, i as int));
            assert(numbers@.subrange(0, i + 1).drop_last() =~= numbers@.subrange(0, i as int));
        }
        match numbers[i] {
            Some(value) => {
                menu_insert(&mut menu, entries[i].label.clone(), value);
            },
            None => {
                proof {
                    lemma_menu_of_none(all, numbers@, i as int);
                }
                return None;
            },
        }
        i += 1;
    }
    proof {
        assert(all.subrange(0, i as int) =~= all);
        assert(numbers@.subrange(0, i as int) =~= numbers@);
    }
    Some(menu)
}

/// There is no menu where one of the values is no number.
proof fn lemma_menu_of_none(
    entries: Seq<(Seq<char>, Seq<char>)>,
    numbers: Seq<Option<u32>>,
    i: int,
)
    requires
        entries.len() == numbers.len(),
        0 <= i < numbers.len(),
        numbers[i] is None,
    ensures
        menu_of(entries, numbers) is None,
    decreases entries.len(),
{
    if i < entries.len() - 1 {
        lemma_menu_of_none(entries.drop_last(), numbers.drop_last(), i);
    }
}

/// The bounds of a hint's dictionary within its value, where the hint is a
/// `style` hint for a menu or for radio buttons, and whether it is for a
/// menu.
fn dictionary_bounds(key: &str, value_chars: &Vec<char>) -> (found: Option<(usize, usize, bool)>)
    ensures
        match found {
            Some((from, to, is_menu)) => {
                let v = trimmed(value_chars@);
                &&& from <= to <= value_chars.len()
                &&& trimmed(key@) == "style"@
                &&& is_menu == starts_with(v, "menu"@)
                &&& !is_menu ==> starts_with(v, "radio"@)
                &&& value_chars@.subrange(from as int, to as int) == if is_menu {
                    v.subrange(4, v.len() as int)
                } else {
                    v.subrange(5, v.len() as int)
                }
            },
            None => {
                let v = trimmed(value_chars@);
                trimmed(key@) != "style"@ || (!starts_with(v, "menu"@) && !starts_with(
                    v,
                    "radio"@,
                ))
            },
        },
{
    let key_chars = chars_of(key);
    let (key_from, key_to) = trim_bounds(&key_chars, 0, key_chars.len());
    let (from, to) = trim_bounds(value_chars, 0, value_chars.len());
    proof {
        reveal_strlit("menu");
        reveal_strlit("radio");
        assert(key_chars@.subrange(0, key_chars.len() as int) =~= key@);
        assert(value_chars@.subrange(0, value_chars.len() as int) =~= value_chars@);
    }
    let ghost v = trimmed(value_chars@);
    if !part_is(&key_chars, key_from, key_to, "style") {
        None
    } else if to - from >= 4 && part_is(value_chars, from, from + 4, "menu") {
        proof {
            assert(v.subrange(0, 4) =~= value_chars@.subrange(from as int, from + 4));
            assert(v.subrange(4, v.len() as int) =~= value_chars@.subrange(from + 4, to as int));
        }
        Some((from + 4, to, true))
    } else if to - from >= 5 && part_is(value_chars, from, from + 5, "radio") {
        proof {
            if to - from >= 4 {
                assert(v.subrange(0, 4) =~= value_chars@.subrange(from as int, from + 4));
            }
            assert(v.subrange(0, 5) =~= value_chars@.subrange(from as int, from + 5));
            assert(v.subrange(5, v.len() as int) =~= value_chars@.subrange(from + 5, to as int));
        }
        Some((from + 5, to, false))
    } else {
        proof {
            if to - from >= 4 {
                assert(v.subrange(0, 4) =~= value_chars@.subrange(from as int, from + 4));
            }
            if to - from >= 5 {
                assert(v.subrange(0, 5) =~= value_chars@.subrange(from as int, from + 5));
            }
        }
        None
    }
}

/// The texts of a hint that the caller has to read as numbers before the
/// hint itself can be read: the values of its dictionary, in order. There
/// are none unless the hint is a well-formed menu or set of radio buttons.
pub fn dict_value_texts(key: &str, value: &str) -> (texts: Vec<String>)
    ensures
        texts_view(texts@) == number_texts(key@, value@),
{
    let value_chars = chars_of(value);
    let mut texts: Vec<String> = Vec::new();
    match dictionary_bounds(key, &value_chars) {
        Some((from, to, _)) => match parse_dict_entries(value, &value_chars, from, to) {
            Some(entries) => {
                let mut i: usize = 0;
                while i < entries.len()
                    invariant
                        i <= entries.len(),
                        texts.len() == i,
                        forall|k: int| 0 <= k < i ==> texts[k]@ == entries[k].value@,
                    decreases entries.len() - i,
                {
                    texts.push(entries[i].value.clone());
                    i += 1;
                }
                assert(texts_view(texts@) =~= number_texts(key@, value@));
            },
            None => {
                assert(texts_view(texts@) =~= number_texts(key@, value@));
            },
        },
        None => {
            assert(texts_view(texts@) =~= number_texts(key@, value@));
        },
    }
    texts
}

/// Reads the style that a `style` hint asks for.
fn parse_style(key: &str, value: &str, value_chars: &Vec<char>, numbers: &Vec<Option<u32>>) -> (style:
    Option<WidgetStyle>)
    requires
        value_chars@ == value@,
        trimmed(key@) == "style"@,
    ensures
        match style {
            Some(s) => style_of(key@, value@, numbers@) == Some(s@),
            None => style_of(key@, value@, numbers@) is None,
        },
{
    let (from, to) = trim_bounds(value_chars, 0, value_chars.len());
    proof {
        reveal_strlit("menu");
        reveal_strlit("radio");
        reveal_strlit("knob");
        reveal_strlit("led");
        reveal_strlit("numerical");
        assert(value_chars@.subrange(0, value_chars.len() as int) =~= value@);
    }
    if part_is(value_chars, from, to, "knob") {
        Some(WidgetStyle::Param(NumParamStyle::Knob))
    } else if part_is(value_chars, from, to, "led") {
        Some(WidgetStyle::Disp(NumDisplayStyle::Led))
    } else if part_is(value_chars, from, to, "numerical") {
        Some(WidgetStyle::Disp(NumDisplayStyle::Numerical))
    } else {
        match dictionary_bounds(key, value_chars) {
            Some((dict_from, dict_to, is_menu)) => {
                match parse_dict_entries(value, value_chars, dict_from, dict_to) {
                    Some(entries) => match build_menu(&entries, numbers) {
                        Some(menu) => if is_menu {
                            Some(WidgetStyle::Param(NumParamStyle::Menu(menu)))
                        } else {
                            Some(WidgetStyle::Param(NumParamStyle::Radio(menu)))
                        },
                        None => None,
                    },
                    None => None,
                }
            },
            None => None,
        }
    }
}

/// Reads a hint from its key and its value, given what the texts that
/// `dict_value_texts` lists for it were read as: for each a number, or
/// `None` where the text is no number. Hints that are not known give
/// `None`, and so does a dictionary that is not well formed or holds a
/// value that is no number.
pub fn parse_metadata(key: &str, value: &str, numbers: &Vec<Option<u32>>) -> (elem: Option<
    MetadataElem,
>)
    ensures
        elem_view(elem) == metadata_elem(key@, value@, numbers@),
{
    let key_chars = chars_of(key);
    let value_chars = chars_of(value);
    let (key_from, key_to) = trim_bounds(&key_chars, 0, key_chars.len());
    let (from, to) = trim_bounds(&value_chars, 0, value_chars.len());
    proof {
        reveal_strlit("unit");
        reveal_strlit("tooltip");
        reveal_strlit("style");
        reveal_strlit("scale");
        reveal_strlit("hidden");
        reveal_strlit("lin");
        reveal_strlit("log");
        reveal_strlit("exp");
        reveal_strlit("0");
        reveal_strlit("1");
        assert(key_chars@.subrange(0, key_chars.len() as int) =~= key@);
        assert(value_chars@.subrange(0, value_chars.len() as int) =~= value@);
    }
    if part_is(&key_chars, key_from, key_to, "unit") {
        Some(MetadataElem::Unit(cut(value, from, to)))
    } else if part_is(&key_chars, key_from, key_to, "tooltip") {
        Some(MetadataElem::Tooltip(cut(value, from, to)))
    } else if part_is(&key_chars, key_from, key_to, "style") {
        match parse_style(key, value, &value_chars, numbers) {
            Some(style) => Some(MetadataElem::Style(style)),
            None => None,
        }
    } else if part_is(&key_chars, key_from, key_to, "scale") {
        if part_is(&value_chars, from, to, "lin") {
            Some(MetadataElem::Scale(WidgetScale::Lin))
        } else if part_is(&value_chars, from, to, "log") {
            Some(MetadataElem::Scale(WidgetScale::Log))
        } else if part_is(&value_chars, from, to, "exp") {
            Some(MetadataElem::Scale(WidgetScale::Exp))
        } else {
            None
        }
    } else if part_is(&key_chars, key_from, key_to, "hidden") {
        if part_is(&value_chars, from, to, "0") {
            Some(MetadataElem::Hidden(false))
        } else if part_is(&value_chars, from, to, "1") {
            Some(MetadataElem::Hidden(true))
        } else {
            None
        }
    } else {
        None
    }
}

} // verus!
