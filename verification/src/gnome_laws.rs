//! Laws of the `custom-keybindings` list editing: reading back a written
//! list gives its items, and adding / removing our slot behaves as a set
//! operation.

use vstd::prelude::*;
use crate::gnome::{
    build_list_spec, clean_item, ensure_slot_spec, join_quoted, list_inner, non_empty,
    not_slot, parse_list_spec, quoted, remove_slot_spec, spec_slot,
};
use crate::text::{
    has_char, is_ws, sep_index, split, split_from, trim, trim_char, trim_char_end,
    trim_char_start, trim_end, trim_prefix_start, trim_start,
};

verus! {

/// A list item that survives being written and read back: non-empty, free
/// of commas, and neither starting nor ending with a quote character.
pub open spec fn item_ok(x: Seq<char>) -> bool {
    &&& x.len() > 0
    &&& !has_char(x, ',')
    &&& x[0] != '\'' && x[0] != '"'
    &&& x.last() != '\'' && x.last() != '"'
}

/// Every item is `item_ok`.
pub open spec fn items_ok(items: Seq<Seq<char>>) -> bool {
    forall|i: int| 0 <= i < items.len() ==> item_ok(#[trigger] items[i])
}

proof fn lemma_sep_index_shift(s: Seq<char>, sep: char, from: int, f: int)
    requires
        0 <= from <= f <= s.len(),
    ensures
        sep_index(s, sep, f) == from + sep_index(s.skip(from), sep, f - from),
    decreases s.len() - f,
{
    if f < s.len() {
        assert(s.skip(from)[f - from] == s[f]);
        if s[f] != sep {
            lemma_sep_index_shift(s, sep, from, f + 1);
        }
    }
}

proof fn lemma_sep_index_bounds(s: Seq<char>, sep: char, from: int)
    requires
        0 <= from <= s.len(),
    ensures
        from <= sep_index(s, sep, from) <= s.len(),
    decreases s.len() - from,
{
    if from < s.len() && s[from] != sep {
        lemma_sep_index_bounds(s, sep, from + 1);
    }
}

proof fn lemma_split_from_shift(s: Seq<char>, sep: char, from: int)
    requires
        0 <= from <= s.len(),
    ensures
        split_from(s, sep, from) == split_from(s.skip(from), sep, 0),
    decreases s.len() - from,
{
    let t = s.skip(from);
    lemma_sep_index_shift(s, sep, from, from);
    lemma_sep_index_bounds(s, sep, from);
    lemma_sep_index_bounds(t, sep, 0);
    let k = sep_index(s, sep, from);
    let k2 = sep_index(t, sep, 0);
    if k >= s.len() {
        assert(s.subrange(from, s.len() as int) =~= t.subrange(0, t.len() as int));
    } else {
        assert(s.subrange(from, k) =~= t.subrange(0, k2));
        lemma_split_from_shift(s, sep, k + 1);
        lemma_split_from_shift(t, sep, k2 + 1);
        assert(s.skip(k + 1) =~= t.skip(k2 + 1));
    }
}

proof fn lemma_sep_index_none(s: Seq<char>, sep: char, from: int)
    requires
        0 <= from <= s.len(),
        forall|k: int| from <= k < s.len() ==> s[k] != sep,
    ensures
        sep_index(s, sep, from) == s.len(),
    decreases s.len() - from,
{
    if from < s.len() {
        lemma_sep_index_none(s, sep, from + 1);
    }
}

proof fn lemma_sep_index_found(s: Seq<char>, sep: char, from: int, i: int)
    requires
        0 <= from <= i < s.len(),
        s[i] == sep,
        forall|k: int| from <= k < i ==> s[k] != sep,
    ensures
        sep_index(s, sep, from) == i,
    decreases i - from,
{
    if from < i {
        lemma_sep_index_found(s, sep, from + 1, i);
    }
}

/// A text without the separator splits into itself.
pub proof fn lemma_split_no_sep(s: Seq<char>, sep: char)
    requires
        !has_char(s, sep),
    ensures
        split(s, sep) == seq![s],
{
    lemma_sep_index_none(s, sep, 0);
    assert(s.subrange(0, s.len() as int) =~= s);
}

/// Splitting `a` + separator + `b`, where `a` has no separator.
pub proof fn lemma_split_concat(a: Seq<char>, b: Seq<char>, sep: char)
    requires
        !has_char(a, sep),
    ensures
        split(a + seq![sep] + b, sep) == seq![a] + split(b, sep),
{
    let s = a + seq![sep] + b;
    assert(s[a.len() as int] == sep);
    assert forall|k: int| 0 <= k < a.len() implies s[k] != sep by {
        assert(s[k] == a[k]);
    }
    lemma_sep_index_found(s, sep, 0, a.len() as int);
    assert(s.subrange(0, a.len() as int) =~= a);
    lemma_split_from_shift(s, sep, (a.len() + 1) as int);
    assert(s.skip((a.len() + 1) as int) =~= b);
}

proof fn lemma_trim_start_stop(s: Seq<char>)
    requires
        s.len() > 0,
        !is_ws(s[0]),
    ensures
        trim_start(s) == s,
{
}

proof fn lemma_trim_end_stop(s: Seq<char>)
    requires
        s.len() > 0,
        !is_ws(s.last()),
    ensures
        trim_end(s) == s,
{
}

/// Cleaning a written item (with an optional leading space) gives it back.
proof fn lemma_clean_quoted(p: Seq<char>, x: Seq<char>)
    requires
        p == Seq::<char>::empty() || p == seq![' '],
        item_ok(x),
    ensures
        clean_item(p + quoted(x)) == x,
{
    let q = quoted(x);
    assert(q[0] == '\'');
    assert(q.last() == '\'');
    let s = p + q;
    if p.len() == 1 {
        assert(s[0] == ' ');
        assert(s.drop_first() =~= q);
        assert(is_ws(' '));
    } else {
        assert(s =~= q);
    }
    lemma_trim_start_stop(q);
    assert(trim_start(s) == q);
    lemma_trim_end_stop(q);
    assert(trim(s) == q);
    assert(q.drop_first() =~= x + seq!['\'']);
    assert((x + seq!['\''])[0] == x[0]);
    assert(trim_char_start(x + seq!['\''], '\'') == x + seq!['\'']);
    assert(trim_char_start(q, '\'') == x + seq!['\'']);
    assert((x + seq!['\'']).drop_last() =~= x);
    assert(trim_char_end(x, '\'') == x);
    assert(trim_char(q, '\'') == x);
    assert(trim_char_start(x, '"') == x);
    assert(trim_char_end(x, '"') == x);
}

proof fn lemma_quoted_no_comma(x: Seq<char>)
    requires
        item_ok(x),
    ensures
        !has_char(seq![' '] + quoted(x), ','),
        !has_char(quoted(x), ','),
{
    let q = quoted(x);
    assert forall|i: int| 0 <= i < q.len() implies q[i] != ',' by {
        if 0 < i < q.len() - 1 {
            assert(q[i] == x[i - 1]);
        }
    }
    let s = seq![' '] + q;
    assert forall|i: int| 0 <= i < s.len() implies s[i] != ',' by {
        if i > 0 {
            assert(s[i] == q[i - 1]);
        }
    }
}

/// Splitting written items on commas and cleaning each piece gives the
/// items back.
proof fn lemma_split_join(items: Seq<Seq<char>>, p: Seq<char>)
    requires
        items.len() > 0,
        items_ok(items),
        p == Seq::<char>::empty() || p == seq![' '],
    ensures
        split(p + join_quoted(items), ',').map_values(|x: Seq<char>| clean_item(x)) == items,
    decreases items.len(),
{
    let x0 = items[0];
    assert(item_ok(x0));
    lemma_quoted_no_comma(x0);
    let a = p + quoted(x0);
    assert(!has_char(a, ',')) by {
        if p.len() == 1 {
            assert(a =~= seq![' '] + quoted(x0));
        } else {
            assert(a =~= quoted(x0));
        }
    }
    lemma_clean_quoted(p, x0);
    if items.len() == 1 {
        assert(p + join_quoted(items) =~= a);
        lemma_split_no_sep(a, ',');
        assert(split(a, ',').map_values(|x: Seq<char>| clean_item(x)) =~= items);
    } else {
        let rest = items.drop_first();
        assert(items_ok(rest)) by {
            assert forall|i: int| 0 <= i < rest.len() implies item_ok(#[trigger] rest[i]) by {
                assert(rest[i] == items[i + 1]);
            }
        }
        let b = seq![' '] + join_quoted(rest);
        assert(p + join_quoted(items) =~= a + seq![','] + b);
        lemma_split_concat(a, b, ',');
        lemma_split_join(rest, seq![' ']);
        assert(split(p + join_quoted(items), ',').map_values(|x: Seq<char>| clean_item(x))
            =~= seq![clean_item(a)] + split(b, ',').map_values(|x: Seq<char>| clean_item(x)));
        assert(seq![x0] + rest =~= items);
    }
}

proof fn lemma_filter_all<A>(s: Seq<A>, p: spec_fn(A) -> bool)
    requires
        forall|i: int| 0 <= i < s.len() ==> p(#[trigger] s[i]),
    ensures
        s.filter(p) == s,
    decreases s.len(),
{
    reveal(Seq::filter);
    if s.len() > 0 {
        lemma_filter_all(s.drop_last(), p);
        assert(s.drop_last().push(s.last()) =~= s);
    }
}

/// The bracketed text inside a written list is the joined quoted items.
proof fn lemma_list_inner_build(items: Seq<Seq<char>>)
    requires
        items.len() > 0,
        items_ok(items),
    ensures
        list_inner(build_list_spec(items)) == join_quoted(items),
{
    let j = join_quoted(items);
    let x0 = items[0];
    assert(item_ok(x0));
    assert(j.len() > 0 && j[0] == '\'' && j.last() == '\'') by {
        if items.len() == 1 {
            assert(j == quoted(x0));
        } else {
            assert(j == quoted(x0) + seq![',', ' '] + join_quoted(items.drop_first()));
            let rest = items.drop_first();
            let jr = join_quoted(rest);
            assert(rest.len() > 0);
            lemma_join_shape(rest);
            assert(j.last() == jr.last());
        }
    }
    let s = seq!['['] + j + seq![']'];
    assert(s[0] == '[');
    assert(s.last() == ']');
    lemma_trim_start_stop(s);
    lemma_trim_end_stop(s);
    assert(trim(s) == s);
    reveal_strlit("@as");
    assert(s.take(3) != "@as"@) by {
        assert(s.take(3)[0] == '[');
    }
    assert(trim_prefix_start(s, "@as"@) == s);
    assert(s.drop_first() =~= j + seq![']']);
    assert((j + seq![']'])[0] == '\'');
    assert(trim_char_start(j + seq![']'], '[') == j + seq![']']);
    assert(trim_char_start(s, '[') == j + seq![']']);
    assert((j + seq![']']).drop_last() =~= j);
    assert(trim_char_end(j, ']') == j);
    assert(trim_char_end(j + seq![']'], ']') == j);
}

proof fn lemma_join_shape(items: Seq<Seq<char>>)
    requires
        items.len() > 0,
    ensures
        join_quoted(items).len() > 0,
        join_quoted(items)[0] == '\'',
        join_quoted(items).last() == '\'',
    decreases items.len(),
{
    if items.len() > 1 {
        lemma_join_shape(items.drop_first());
    }
}

/// Reading back a written list gives its items, when each item survives
/// quoting (see `item_ok`).
pub proof fn law_parse_build(items: Seq<Seq<char>>)
    requires
        items_ok(items),
    ensures
        parse_list_spec(build_list_spec(items)) == items,
{
    if items.len() == 0 {
        let s = seq!['[', ']'];
        assert(build_list_spec(items) == s);
        lemma_trim_start_stop(s);
        lemma_trim_end_stop(s);
        reveal_strlit("@as");
        assert("@as"@.len() == 3);
        assert(trim_prefix_start(s, "@as"@) == s);
        assert(s.drop_first() =~= seq![']']);
        assert(seq![']'][0] == ']');
        assert(trim_char_start(seq![']'], '[') == seq![']']);
        assert(seq![']'].drop_first() =~= Seq::<char>::empty());
        assert(seq![']'].drop_last() =~= Seq::<char>::empty());
        assert(trim_char_start(s, '[') == seq![']']);
        assert(trim(s) == s);
        assert(trim(trim_prefix_start(trim(s), "@as"@)) == s);
        assert(seq![']'].last() == ']');
        assert(trim_char_end(Seq::<char>::empty(), ']') == Seq::<char>::empty());
        assert(trim_char_end(seq![']'], ']') == Seq::<char>::empty());
        assert(list_inner(s) == Seq::<char>::empty());
        lemma_split_no_sep(Seq::<char>::empty(), ',');
        let m = split(Seq::<char>::empty(), ',').map_values(|x: Seq<char>| clean_item(x));
        assert(m =~= seq![clean_item(Seq::<char>::empty())]);
        assert(clean_item(Seq::<char>::empty()) =~= Seq::<char>::empty());
        reveal(Seq::filter);
        assert(m.drop_last() =~= Seq::<Seq<char>>::empty());
        assert(Seq::<Seq<char>>::empty().filter(non_empty()) == Seq::<Seq<char>>::empty());
        assert(!non_empty()(m.last()));
        assert(m.filter(non_empty()) == m.drop_last().filter(non_empty()));
    } else {
        lemma_list_inner_build(items);
        lemma_split_join(items, Seq::<char>::empty());
        assert(Seq::<char>::empty() + join_quoted(items) =~= join_quoted(items));
        lemma_filter_all(items, non_empty());
    }
}

/// Our slot path survives quoting.
pub proof fn lemma_slot_ok()
    ensures
        item_ok(spec_slot()),
{
    reveal_strlit(
        "/org/gnome/settings-daemon/plugins/media-keys/custom-keybindings/linux-clipboard/",
    );
    let s = spec_slot();
    assert(!has_char(s, ',')) by {
        assert forall|i: int| 0 <= i < s.len() implies s[i] != ',' by {}
    }
}

/// After adding our slot, the list holds it, after the items it held before.
pub proof fn law_ensure_slot_present(current: Seq<char>)
    requires
        items_ok(parse_list_spec(current)),
    ensures
        parse_list_spec(ensure_slot_spec(current)).contains(spec_slot()),
        parse_list_spec(ensure_slot_spec(current)).take(parse_list_spec(current).len() as int)
            == parse_list_spec(current),
{
    let items = parse_list_spec(current);
    lemma_slot_ok();
    if items.contains(spec_slot()) {
        law_parse_build(items);
        assert(items.take(items.len() as int) =~= items);
    } else {
        let it2 = items.push(spec_slot());
        assert(items_ok(it2)) by {
            assert forall|i: int| 0 <= i < it2.len() implies item_ok(#[trigger] it2[i]) by {
                if i < items.len() {
                    assert(it2[i] == items[i]);
                }
            }
        }
        law_parse_build(it2);
        assert(it2[items.len() as int] == spec_slot());
        assert(it2.take(items.len() as int) =~= items);
    }
}

/// Adding our slot twice is the same as adding it once.
pub proof fn law_ensure_slot_idempotent(current: Seq<char>)
    requires
        items_ok(parse_list_spec(current)),
    ensures
        ensure_slot_spec(ensure_slot_spec(current)) == ensure_slot_spec(current),
{
    let items = parse_list_spec(current);
    law_ensure_slot_present(current);
    lemma_slot_ok();
    if items.contains(spec_slot()) {
        law_parse_build(items);
    } else {
        let it2 = items.push(spec_slot());
        assert(items_ok(it2)) by {
            assert forall|i: int| 0 <= i < it2.len() implies item_ok(#[trigger] it2[i]) by {
                if i < items.len() {
                    assert(it2[i] == items[i]);
                }
            }
        }
        law_parse_build(it2);
    }
}

/// After removing our slot, the list no longer holds it.
pub proof fn law_remove_slot_absent(current: Seq<char>)
    requires
        items_ok(parse_list_spec(current)),
    ensures
        !parse_list_spec(remove_slot_spec(current)).contains(spec_slot()),
{
    broadcast use vstd::seq_lib::group_seq_properties;

    let items = parse_list_spec(current);
    let kept = items.filter(not_slot());
    assert(items_ok(kept)) by {
        assert forall|i: int| 0 <= i < kept.len() implies item_ok(#[trigger] kept[i]) by {
            items.lemma_filter_contains_rev(not_slot(), kept[i]);
            assert(kept.contains(kept[i]));
        }
    }
    law_parse_build(kept);
    if kept.contains(spec_slot()) {
        let k = choose|k: int| 0 <= k < kept.len() && kept[k] == spec_slot();
        items.lemma_filter_pred(not_slot(), k);
    }
}


/// What adding our slot reads back as: the list as it was when it already
/// held the slot, else the list with the slot at the end.
pub proof fn law_ensure_slot_result(current: Seq<char>)
    requires
        items_ok(parse_list_spec(current)),
    ensures
        parse_list_spec(ensure_slot_spec(current)) == (if parse_list_spec(current).contains(
            spec_slot(),
        ) {
            parse_list_spec(current)
        } else {
            parse_list_spec(current).push(spec_slot())
        }),
{
    let items = parse_list_spec(current);
    lemma_slot_ok();
    if items.contains(spec_slot()) {
        law_parse_build(items);
    } else {
        let it2 = items.push(spec_slot());
        assert(items_ok(it2)) by {
            assert forall|i: int| 0 <= i < it2.len() implies item_ok(#[trigger] it2[i]) by {
                if i < items.len() {
                    assert(it2[i] == items[i]);
                }
            }
        }
        law_parse_build(it2);
    }
}

proof fn lemma_trim_start_chars(s: Seq<char>, c: char)
    ensures
        has_char(trim_start(s), c) ==> has_char(s, c),
    decreases s.len(),
{
    if s.len() > 0 && is_ws(s[0]) {
        lemma_trim_start_chars(s.drop_first(), c);
        if has_char(s.drop_first(), c) {
            let i = choose|i: int| 0 <= i < s.drop_first().len() && s.drop_first()[i] == c;
            assert(s[i + 1] == c);
        }
    }
}

proof fn lemma_trim_end_chars(s: Seq<char>, c: char)
    ensures
        has_char(trim_end(s), c) ==> has_char(s, c),
    decreases s.len(),
{
    if s.len() > 0 && is_ws(s.last()) {
        lemma_trim_end_chars(s.drop_last(), c);
        if has_char(s.drop_last(), c) {
            let i = choose|i: int| 0 <= i < s.drop_last().len() && s.drop_last()[i] == c;
            assert(s[i] == c);
        }
    }
}

proof fn lemma_trim_char_start_chars(s: Seq<char>, t: char, c: char)
    ensures
        has_char(trim_char_start(s, t), c) ==> has_char(s, c),
    decreases s.len(),
{
    if s.len() > 0 && s[0] == t {
        lemma_trim_char_start_chars(s.drop_first(), t, c);
        if has_char(s.drop_first(), c) {
            let i = choose|i: int| 0 <= i < s.drop_first().len() && s.drop_first()[i] == c;
            assert(s[i + 1] == c);
        }
    }
}

proof fn lemma_trim_char_end_chars(s: Seq<char>, t: char, c: char)
    ensures
        has_char(trim_char_end(s, t), c) ==> has_char(s, c),
    decreases s.len(),
{
    if s.len() > 0 && s.last() == t {
        lemma_trim_char_end_chars(s.drop_last(), t, c);
        if has_char(s.drop_last(), c) {
            let i = choose|i: int| 0 <= i < s.drop_last().len() && s.drop_last()[i] == c;
            assert(s[i] == c);
        }
    }
}

/// Cleaning an item adds no character.
proof fn lemma_clean_chars(x: Seq<char>, c: char)
    ensures
        has_char(clean_item(x), c) ==> has_char(x, c),
{
    lemma_trim_start_chars(x, c);
    lemma_trim_end_chars(trim_start(x), c);
    let a = trim(x);
    lemma_trim_char_start_chars(a, '\'', c);
    lemma_trim_char_end_chars(trim_char_start(a, '\''), '\'', c);
    let b = trim_char(a, '\'');
    lemma_trim_char_start_chars(b, '"', c);
    lemma_trim_char_end_chars(trim_char_start(b, '"'), '"', c);
}

proof fn lemma_sep_index_clear(s: Seq<char>, sep: char, from: int, j: int)
    requires
        0 <= from <= j < sep_index(s, sep, from),
    ensures
        s[j] != sep,
    decreases j - from,
{
    if from < j {
        lemma_sep_index_clear(s, sep, from + 1, j);
    }
}

/// The pieces of a split never hold the separator.
proof fn lemma_split_pieces_clear(s: Seq<char>, sep: char, from: int)
    ensures
        forall|i: int| 0 <= i < split_from(s, sep, from).len() ==> !has_char(
            #[trigger] split_from(s, sep, from)[i],
            sep,
        ),
    decreases s.len() - from,
{
    if from < 0 || from > s.len() {
    } else {
        let k = sep_index(s, sep, from);
        lemma_sep_index_bounds(s, sep, from);
        let p = if k >= s.len() {
            s.subrange(from, s.len() as int)
        } else {
            s.subrange(from, k)
        };
        assert(!has_char(p, sep)) by {
            if has_char(p, sep) {
                let j = choose|j: int| 0 <= j < p.len() && p[j] == sep;
                assert(p[j] == s[from + j]);
                lemma_sep_index_clear(s, sep, from, from + j);
            }
        }
        if k >= s.len() {
            assert(split_from(s, sep, from) == seq![p]);
        } else if k < from {
        } else {
            lemma_split_pieces_clear(s, sep, k + 1);
            let rest = split_from(s, sep, k + 1);
            assert(split_from(s, sep, from) == seq![p] + rest);
            assert forall|i: int| 0 <= i < split_from(s, sep, from).len() implies !has_char(
                #[trigger] split_from(s, sep, from)[i],
                sep,
            ) by {
                if i > 0 {
                    assert(split_from(s, sep, from)[i] == rest[i - 1]);
                }
            }
        }
    }
}

/// A list whose items hold no quote character has only items that survive
/// being written and read back (read items are never empty and never hold
/// a comma).
pub proof fn law_unquoted_items_ok(current: Seq<char>)
    requires
        forall|i: int|
            0 <= i < parse_list_spec(current).len() ==> !has_char(
                #[trigger] parse_list_spec(current)[i],
                '\'',
            ) && !has_char(parse_list_spec(current)[i], '"'),
    ensures
        items_ok(parse_list_spec(current)),
{
    let pieces = split(list_inner(current), ',');
    let cleaned = pieces.map_values(|x: Seq<char>| clean_item(x));
    let items = parse_list_spec(current);
    lemma_split_pieces_clear(list_inner(current), ',', 0);
    assert forall|i: int| 0 <= i < items.len() implies item_ok(#[trigger] items[i]) by {
        cleaned.lemma_filter_pred(non_empty(), i);
        cleaned.lemma_filter_contains_rev(non_empty(), items[i]);
        let k = choose|k: int| 0 <= k < cleaned.len() && cleaned[k] == items[i];
        lemma_clean_chars(pieces[k], ',');
        assert(!has_char(pieces[k], ','));
        let x = items[i];
        assert(x[0] != '\'' && x[0] != '"' && x.last() != '\'' && x.last() != '"') by {
            if x[0] == '\'' || x[0] == '"' || x.last() == '\'' || x.last() == '"' {
                assert(x[x.len() - 1] == x.last());
            }
        }
    }
}

/// With no quote character in its items, adding our slot reads back as the
/// list with the slot added (when missing), and adding it again changes
/// nothing.
pub proof fn law_ensure_slot_unquoted(current: Seq<char>)
    requires
        forall|i: int|
            0 <= i < parse_list_spec(current).len() ==> !has_char(
                #[trigger] parse_list_spec(current)[i],
                '\'',
            ) && !has_char(parse_list_spec(current)[i], '"'),
    ensures
        parse_list_spec(ensure_slot_spec(current)) == (if parse_list_spec(current).contains(
            spec_slot(),
        ) {
            parse_list_spec(current)
        } else {
            parse_list_spec(current).push(spec_slot())
        }),
        ensure_slot_spec(ensure_slot_spec(current)) == ensure_slot_spec(current),
{
    law_unquoted_items_ok(current);
    law_ensure_slot_result(current);
    law_ensure_slot_idempotent(current);
}

} // verus!
