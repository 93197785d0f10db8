//! The GNOME custom keyboard shortcut that launches `<app> --toggle`: the
//! translation of accelerators to GNOME's syntax, the editing of the
//! `custom-keybindings` list value, and the `gsettings` calls that program
//! (or remove) the shortcut.

use vstd::prelude::*;
use vstd::utf8::is_ascii_chars;
use crate::text::{
    ascii_lower, is_ws, sep_index, split_from, trim_end, trim_start, chars_eq_str, chars_of, lowercase, split, split_chars, string_of, to_lowercase,
    trim, trim_char, trim_char_chars, trim_char_end, trim_char_start, trim_chars,
    trim_prefix_chars, trim_prefix_start,
};

verus! {

/// The dconf path of our custom keybinding slot.
pub open spec fn spec_slot() -> Seq<char> {
    "/org/gnome/settings-daemon/plugins/media-keys/custom-keybindings/linux-clipboard/"@
}

/// The dconf path of our custom keybinding slot.
pub fn slot() -> (r: &'static str)
    ensures
        r@ == spec_slot(),
{
    "/org/gnome/settings-daemon/plugins/media-keys/custom-keybindings/linux-clipboard/"
}

/// The schema holding the list of custom keybindings.
pub open spec fn spec_schema() -> Seq<char> {
    "org.gnome.settings-daemon.plugins.media-keys"@
}

/// The schema of one custom keybinding.
pub open spec fn spec_kb_schema() -> Seq<char> {
    "org.gnome.settings-daemon.plugins.media-keys.custom-keybinding"@
}

// ---------------------------------------------------------------------------
// Accelerators
// ---------------------------------------------------------------------------

/// The GNOME modifier a (trimmed, lower-cased) accelerator part stands for.
pub open spec fn modifier_of(p: Seq<char>) -> Option<Seq<char>> {
    if p == "ctrl"@ || p == "control"@ || p == "commandorcontrol"@ {
        Some("<Control>"@)
    } else if p == "alt"@ || p == "option"@ {
        Some("<Alt>"@)
    } else if p == "shift"@ {
        Some("<Shift>"@)
    } else if p == "super"@ || p == "meta"@ || p == "cmd"@ || p == "command"@ || p == "win"@ {
        Some("<Super>"@)
    } else {
        None
    }
}

/// How an accelerator part is lower-cased: by Unicode (`str::to_lowercase`),
/// or, for an ASCII part, by folding `A`..`Z`, which gives the same.
pub open spec fn lower_part(p: Seq<char>, ascii: bool) -> Seq<char> {
    if ascii {
        ascii_lower(p)
    } else {
        lowercase(p)
    }
}

/// Modifiers and key collected from accelerator parts, left to right: each
/// modifier is appended, and a non-empty other part becomes the key (the
/// last one wins). Parts are trimmed and lower-cased as `lower_part` says.
pub open spec fn accel_fold_with(parts: Seq<Seq<char>>, ascii: bool) -> (Seq<char>, Seq<char>)
    decreases parts.len(),
{
    if parts.len() == 0 {
        (Seq::empty(), Seq::empty())
    } else {
        let (mods, key) = accel_fold_with(parts.drop_last(), ascii);
        let p = lower_part(trim(parts.last()), ascii);
        match modifier_of(p) {
            Some(m) => (mods + m, key),
            None => if p.len() > 0 {
                (mods, p)
            } else {
                (mods, key)
            },
        }
    }
}

/// Modifiers and key collected from accelerator parts (Unicode lower-casing).
pub open spec fn accel_fold(parts: Seq<Seq<char>>) -> (Seq<char>, Seq<char>) {
    accel_fold_with(parts, false)
}

/// A Tauri accelerator ("Ctrl+Alt+V") in GNOME/GTK syntax ("<Control><Alt>v").
pub open spec fn gnome_accel(tauri_accel: Seq<char>) -> Seq<char> {
    let (mods, key) = accel_fold(split(tauri_accel, '+'));
    mods + key
}

/// The same for an ASCII accelerator, whose parts are lower-cased by
/// folding `A`..`Z` to `a`..`z`.
pub open spec fn gnome_accel_ascii(tauri_accel: Seq<char>) -> Seq<char> {
    let (mods, key) = accel_fold_with(split(tauri_accel, '+'), true);
    mods + key
}

/// Each Tauri spelling of a modifier, letters in any case and blanks around
/// it ignored, becomes its GNOME modifier, appended after those collected
/// before it, and the key collected so far stays: "ctrl", "control" and
/// "commandorcontrol" give `<Control>`; "alt" and "option" give `<Alt>`;
/// "shift" gives `<Shift>`; "super", "meta", "cmd", "command" and "win" give
/// `<Super>`. Any other non-empty part becomes the key.
pub proof fn law_accel_part(parts: Seq<Seq<char>>, x: Seq<char>, ascii: bool)
    ensures
        ({
            let p = lower_part(trim(x), ascii);
            let mods = accel_fold_with(parts, ascii).0;
            let key = accel_fold_with(parts, ascii).1;
            let r = accel_fold_with(parts.push(x), ascii);
            &&& (p == "ctrl"@ || p == "control"@ || p == "commandorcontrol"@) ==> r == (mods
                + "<Control>"@, key)
            &&& (p == "alt"@ || p == "option"@) ==> r == (mods + "<Alt>"@, key)
            &&& p == "shift"@ ==> r == (mods + "<Shift>"@, key)
            &&& (p == "super"@ || p == "meta"@ || p == "cmd"@ || p == "command"@ || p == "win"@)
                ==> r == (mods + "<Super>"@, key)
            &&& (p != "ctrl"@ && p != "control"@ && p != "commandorcontrol"@ && p != "alt"@ && p
                != "option"@ && p != "shift"@ && p != "super"@ && p != "meta"@ && p != "cmd"@ && p
                != "command"@ && p != "win"@ && p.len() > 0) ==> r == (mods, p)
        }),
{
    reveal_strlit("ctrl");
    reveal_strlit("control");
    reveal_strlit("commandorcontrol");
    reveal_strlit("alt");
    reveal_strlit("option");
    reveal_strlit("shift");
    reveal_strlit("super");
    reveal_strlit("meta");
    reveal_strlit("cmd");
    reveal_strlit("command");
    reveal_strlit("win");
    let p = lower_part(trim(x), ascii);
    let mods = accel_fold_with(parts, ascii).0;
    let key = accel_fold_with(parts, ascii).1;
    assert(parts.push(x).drop_last() =~= parts);
    assert(parts.push(x).last() == x);
    assert(accel_fold_with(parts.push(x), ascii) == match modifier_of(p) {
        Some(m) => (mods + m, key),
        None => if p.len() > 0 {
            (mods, p)
        } else {
            (mods, key)
        },
    });
    if p == "alt"@ || p == "option"@ || p == "shift"@ || p == "super"@ || p == "meta"@ || p
        == "cmd"@ || p == "command"@ || p == "win"@ {
        assert(p.len() != 4 || p[0] != 'c');
        assert(p.len() != 7 || p[2] != 'n');
        assert(p.len() != 16);
    }
    if p == "shift"@ || p == "super"@ || p == "meta"@ || p == "cmd"@ || p == "command"@ || p
        == "win"@ {
        assert(p.len() != 3 || p[0] != 'a');
        assert(p.len() != 6);
    }
    if p == "super"@ || p == "meta"@ || p == "cmd"@ || p == "command"@ || p == "win"@ {
        assert(p.len() != 5 || p[1] != 'h');
    }
}

proof fn lemma_trim_ascii(s: Seq<char>)
    requires
        is_ascii_chars(s),
    ensures
        is_ascii_chars(trim(s)),
{
    lemma_trim_start_ascii(s);
    lemma_trim_end_ascii(trim_start(s));
}

proof fn lemma_trim_start_ascii(s: Seq<char>)
    requires
        is_ascii_chars(s),
    ensures
        is_ascii_chars(trim_start(s)),
    decreases s.len(),
{
    if s.len() > 0 && is_ws(s[0]) {
        assert forall|i| 0 <= i < s.drop_first().len() implies '\0' <= #[trigger] s.drop_first()[i]
            <= '\u{7f}' by {
            assert(s.drop_first()[i] == s[i + 1]);
        }
        lemma_trim_start_ascii(s.drop_first());
    }
}

proof fn lemma_trim_end_ascii(s: Seq<char>)
    requires
        is_ascii_chars(s),
    ensures
        is_ascii_chars(trim_end(s)),
    decreases s.len(),
{
    if s.len() > 0 && is_ws(s.last()) {
        assert forall|i| 0 <= i < s.drop_last().len() implies '\0' <= #[trigger] s.drop_last()[i]
            <= '\u{7f}' by {
            assert(s.drop_last()[i] == s[i]);
        }
        lemma_trim_end_ascii(s.drop_last());
    }
}

/// The pieces of an ASCII text are ASCII.
proof fn lemma_split_ascii(s: Seq<char>, sep: char, from: int)
    requires
        is_ascii_chars(s),
    ensures
        forall|i: int| 0 <= i < split_from(s, sep, from).len() ==> is_ascii_chars(
            #[trigger] split_from(s, sep, from)[i],
        ),
    decreases s.len() - from,
{
    if from < 0 || from > s.len() {
    } else {
        let k = sep_index(s, sep, from);
        if k >= s.len() {
            let p = s.subrange(from, s.len() as int);
            assert forall|j| 0 <= j < p.len() implies '\0' <= #[trigger] p[j] <= '\u{7f}' by {
                assert(p[j] == s[from + j]);
            }
            assert(split_from(s, sep, from) == seq![p]);
        } else if k < from {
        } else {
            lemma_split_ascii(s, sep, k + 1);
            let p = s.subrange(from, k);
            assert forall|j| 0 <= j < p.len() implies '\0' <= #[trigger] p[j] <= '\u{7f}' by {
                assert(p[j] == s[from + j]);
            }
            let rest = split_from(s, sep, k + 1);
            assert(split_from(s, sep, from) == seq![p] + rest);
            assert forall|i: int| 0 <= i < split_from(s, sep, from).len() implies is_ascii_chars(
                #[trigger] split_from(s, sep, from)[i],
            ) by {
                if i > 0 {
                    assert(split_from(s, sep, from)[i] == rest[i - 1]);
                }
            }
        }
    }
}

fn modifier_exec(p: &Vec<char>) -> (r: Option<&'static str>)
    ensures
        match modifier_of(p@) {
            Some(m) => r matches Some(s) && s@ == m,
            None => r is None,
        },
{
    if chars_eq_str(p.as_slice(), "ctrl") || chars_eq_str(p.as_slice(), "control")
        || chars_eq_str(p.as_slice(), "commandorcontrol") {
        Some("<Control>")
    } else if chars_eq_str(p.as_slice(), "alt") || chars_eq_str(p.as_slice(), "option") {
        Some("<Alt>")
    } else if chars_eq_str(p.as_slice(), "shift") {
        Some("<Shift>")
    } else if chars_eq_str(p.as_slice(), "super") || chars_eq_str(p.as_slice(), "meta")
        || chars_eq_str(p.as_slice(), "cmd") || chars_eq_str(p.as_slice(), "command")
        || chars_eq_str(p.as_slice(), "win") {
        Some("<Super>")
    } else {
        None
    }
}

/// Translate a Tauri accelerator ("Ctrl+Alt+V") to a GNOME/GTK one
/// ("<Control><Alt>v"): parts are split on `+`, trimmed and lower-cased;
/// modifiers are written first in the order given, then the key.
pub fn to_gnome_accel(tauri_accel: &str) -> (r: String)
    ensures
        r@ == gnome_accel(tauri_accel@),
        is_ascii_chars(tauri_accel@) ==> r@ == gnome_accel_ascii(tauri_accel@),
{
    let chars = chars_of(tauri_accel);
    let parts = split_chars(chars.as_slice(), '+');
    let ghost ps = split(tauri_accel@, '+');
    let ghost ascii = is_ascii_chars(tauri_accel@);
    proof {
        if ascii {
            lemma_split_ascii(tauri_accel@, '+', 0);
        }
    }
    let mut mods = String::new();
    let mut key = String::new();
    let mut i: usize = 0;
    while i < parts.len()
        invariant
            parts@.len() == ps.len(),
            forall|k: int| 0 <= k < parts@.len() ==> #[trigger] parts@[k]@ == ps[k],
            i <= parts@.len(),
            (mods@, key@) == accel_fold(ps.take(i as int)),
            ascii == is_ascii_chars(tauri_accel@),
            ascii ==> forall|k: int| 0 <= k < ps.len() ==> is_ascii_chars(#[trigger] ps[k]),
            ascii ==> (mods@, key@) == accel_fold_with(ps.take(i as int), true),
        decreases parts@.len() - i,
    {
        let t = trim_chars(parts[i].as_slice());
        let ts = string_of(t.as_slice());
        proof {
            if ascii {
                lemma_trim_ascii(ps[i as int]);
            }
        }
        let low = to_lowercase(ts.as_str());
        let lc = chars_of(low.as_str());
        assert(ps.take(i + 1).drop_last() =~= ps.take(i as int));
        assert(ps.take(i + 1).last() == ps[i as int]);
        match modifier_exec(&lc) {
            Some(m) => {
                mods.append(m);
            },
            None => {
                if lc.len() > 0 {
                    key = low;
                }
            },
        }
        i = i + 1;
    }
    assert(ps.take(ps.len() as int) =~= ps);
    mods.concat(key.as_str())
}

// ---------------------------------------------------------------------------
// The `custom-keybindings` list value
// ---------------------------------------------------------------------------

/// What lies between the brackets of a gsettings list value: surrounding
/// whitespace, a leading `@as` type annotation, leading `[` and trailing `]`
/// are removed.
pub open spec fn list_inner(s: Seq<char>) -> Seq<char> {
    trim_char_end(trim_char_start(trim(trim_prefix_start(trim(s), "@as"@)), '['), ']')
}

/// One list element with surrounding whitespace, single quotes and double
/// quotes removed.
pub open spec fn clean_item(x: Seq<char>) -> Seq<char> {
    trim_char(trim_char(trim(x), '\''), '"')
}

/// Non-empty sequences.
pub open spec fn non_empty() -> spec_fn(Seq<char>) -> bool {
    |x: Seq<char>| x.len() > 0
}

/// The elements of a gsettings list value ("@as []", "[]", "['a', 'b']").
pub open spec fn parse_list_spec(s: Seq<char>) -> Seq<Seq<char>> {
    split(list_inner(s), ',').map_values(|x: Seq<char>| clean_item(x)).filter(non_empty())
}

/// `'x'`.
pub open spec fn quoted(x: Seq<char>) -> Seq<char> {
    seq!['\''] + x + seq!['\'']
}

/// The quoted items separated by ", ".
pub open spec fn join_quoted(items: Seq<Seq<char>>) -> Seq<char>
    decreases items.len(),
{
    if items.len() == 0 {
        Seq::empty()
    } else if items.len() == 1 {
        quoted(items[0])
    } else {
        quoted(items[0]) + seq![',', ' '] + join_quoted(items.drop_first())
    }
}

/// A gsettings list value holding `items`.
pub open spec fn build_list_spec(items: Seq<Seq<char>>) -> Seq<char> {
    if items.len() == 0 {
        seq!['[', ']']
    } else {
        seq!['['] + join_quoted(items) + seq![']']
    }
}

/// The views of a vector of strings.
pub open spec fn views(v: Seq<String>) -> Seq<Seq<char>> {
    v.map_values(|s: String| s@)
}

/// The list value with our slot added (if it is not there already).
pub open spec fn ensure_slot_spec(current: Seq<char>) -> Seq<char> {
    let items = parse_list_spec(current);
    if items.contains(spec_slot()) {
        build_list_spec(items)
    } else {
        build_list_spec(items.push(spec_slot()))
    }
}

/// Entries other than our slot.
pub open spec fn not_slot() -> spec_fn(Seq<char>) -> bool {
    |x: Seq<char>| x != spec_slot()
}

/// The list value with our slot removed.
pub open spec fn remove_slot_spec(current: Seq<char>) -> Seq<char> {
    build_list_spec(parse_list_spec(current).filter(not_slot()))
}

proof fn lemma_filter_step<A>(s: Seq<A>, p: spec_fn(A) -> bool, i: int)
    requires
        0 <= i < s.len(),
    ensures
        s.take(i + 1).filter(p) == (if p(s[i]) {
            s.take(i).filter(p).push(s[i])
        } else {
            s.take(i).filter(p)
        }),
{
    reveal(Seq::filter);
    assert(s.take(i + 1).drop_last() =~= s.take(i));
}

/// Parse a gsettings list value: handles "@as []", "[]", "['a', 'b']".
pub fn parse_list(s: &str) -> (out: Vec<String>)
    ensures
        views(out@) == parse_list_spec(s@),
{
    let c0 = chars_of(s);
    let c1 = trim_chars(c0.as_slice());
    let at = chars_of("@as");
    proof {
        reveal_strlit("@as");
    }
    let c2 = trim_prefix_chars(c1.as_slice(), at.as_slice());
    let c3 = trim_chars(c2.as_slice());
    let inner = trim_char_chars(c3.as_slice(), '[', true, false);
    let inner = trim_char_chars(inner.as_slice(), ']', false, true);
    assert(inner@ == list_inner(s@));
    let pieces = split_chars(inner.as_slice(), ',');
    let ghost ps = split(inner@, ',');
    let ghost cleaned = ps.map_values(|x: Seq<char>| clean_item(x));
    let mut out: Vec<String> = Vec::new();
    let mut i: usize = 0;
    assert(cleaned.take(0) =~= Seq::<Seq<char>>::empty());
    proof {
        reveal(Seq::filter);
    }
    while i < pieces.len()
        invariant
            pieces@.len() == ps.len(),
            cleaned.len() == ps.len(),
            cleaned == ps.map_values(|x: Seq<char>| clean_item(x)),
            forall|k: int| 0 <= k < pieces@.len() ==> #[trigger] pieces@[k]@ == ps[k],
            i <= pieces@.len(),
            views(out@) == cleaned.take(i as int).filter(non_empty()),
        decreases pieces@.len() - i,
    {
        proof {
            lemma_filter_step(cleaned, non_empty(), i as int);
        }
        let t = trim_chars(pieces[i].as_slice());
        let t = trim_char_chars(t.as_slice(), '\'', true, true);
        let t = trim_char_chars(t.as_slice(), '"', true, true);
        assert(t@ == cleaned[i as int]);
        if t.len() > 0 {
            let ghost before = out@;
            out.push(string_of(t.as_slice()));
            assert(views(out@) =~= views(before).push(t@));
        }
        i = i + 1;
    }
    assert(cleaned.take(cleaned.len() as int) =~= cleaned);
    out
}

proof fn lemma_join_push(items: Seq<Seq<char>>, x: Seq<char>)
    requires
        items.len() > 0,
    ensures
        join_quoted(items.push(x)) == join_quoted(items) + seq![',', ' '] + quoted(x),
    decreases items.len(),
{
    if items.len() == 1 {
        assert(items.push(x).drop_first() =~= seq![x]);
        assert(join_quoted(seq![x]) == quoted(x));
    } else {
        assert(items.push(x).drop_first() =~= items.drop_first().push(x));
        lemma_join_push(items.drop_first(), x);
        assert(join_quoted(items.push(x)) =~= quoted(items[0]) + seq![',', ' '] + (join_quoted(
            items.drop_first(),
        ) + seq![',', ' '] + quoted(x)));
    }
}

/// A gsettings list value holding `items`: "[]" when empty, else the items
/// single-quoted, separated by ", ", inside brackets.
pub fn build_list(items: &Vec<String>) -> (r: String)
    ensures
        r@ == build_list_spec(views(items@)),
{
    if items.len() == 0 {
        let mut e = String::new();
        e.push('[');
        e.push(']');
        assert(e@ =~= seq!['[', ']']);
        return e;
    }
    let ghost vs = views(items@);
    let mut body = String::new();
    body.push('\'');
    body.append(items[0].as_str());
    body.push('\'');
    assert(vs.take(1) =~= seq![vs[0]]);
    assert(body@ =~= join_quoted(vs.take(1)));
    let mut i: usize = 1;
    while i < items.len()
        invariant
            vs == views(items@),
            1 <= i <= items@.len(),
            body@ == join_quoted(vs.take(i as int)),
        decreases items@.len() - i,
    {
        body.push(',');
        body.push(' ');
        body.push('\'');
        body.append(items[i].as_str());
        body.push('\'');
        proof {
            assert(vs.take(i + 1) =~= vs.take(i as int).push(vs[i as int]));
            lemma_join_push(vs.take(i as int), vs[i as int]);
            assert(body@ =~= join_quoted(vs.take(i as int)) + seq![',', ' '] + quoted(vs[i as int]));
        }
        i = i + 1;
    }
    assert(vs.take(vs.len() as int) =~= vs);
    let mut r = String::new();
    r.push('[');
    r.append(body.as_str());
    r.push(']');
    r
}

/// The list value with our slot appended, unless it is already there.
pub fn ensure_slot(current: &str) -> (r: String)
    ensures
        r@ == ensure_slot_spec(current@),
{
    let mut items = parse_list(current);
    let present = contains_item(&items, slot());
    if !present {
        let ghost before = items@;
        items.push(slot().to_owned());
        assert(views(items@) =~= views(before).push(spec_slot()));
    }
    build_list(&items)
}

/// The list value with every occurrence of our slot removed.
pub fn remove_slot(current: &str) -> (r: String)
    ensures
        r@ == remove_slot_spec(current@),
{
    let items = parse_list(current);
    let ghost vs = views(items@);
    let mut kept: Vec<String> = Vec::new();
    let mut i: usize = 0;
    assert(vs.take(0) =~= Seq::<Seq<char>>::empty());
    proof {
        reveal(Seq::filter);
    }
    while i < items.len()
        invariant
            vs == views(items@),
            i <= items@.len(),
            views(kept@) == vs.take(i as int).filter(not_slot()),
        decreases items@.len() - i,
    {
        proof {
            lemma_filter_step(vs, not_slot(), i as int);
        }
        if !crate::text::str_eq(items[i].as_str(), slot()) {
            let ghost before = kept@;
            kept.push(items[i].clone());
            assert(views(kept@) =~= views(before).push(vs[i as int]));
        }
        i = i + 1;
    }
    assert(vs.take(vs.len() as int) =~= vs);
    build_list(&kept)
}

/// Whether the list value already holds our slot (so the shortcut exists and
/// is left as the user may have retuned it).
pub fn slot_present(current: &str) -> (r: bool)
    ensures
        r == parse_list_spec(current@).contains(spec_slot()),
{
    let items = parse_list(current);
    contains_item(&items, slot())
}

fn contains_item(items: &Vec<String>, x: &str) -> (r: bool)
    ensures
        r == views(items@).contains(x@),
{
    let mut i: usize = 0;
    while i < items.len()
        invariant
            i <= items@.len(),
            forall|k: int| 0 <= k < i ==> items@[k]@ != x@,
        decreases items@.len() - i,
    {
        if crate::text::str_eq(items[i].as_str(), x) {
            assert(views(items@)[i as int] == x@);
            return true;
        }
        i = i + 1;
    }
    assert(!views(items@).contains(x@)) by {
        if views(items@).contains(x@) {
            let k = choose|k: int| 0 <= k < views(items@).len() && views(items@)[k] == x@;
            assert(items@[k]@ == x@);
        }
    }
    false
}

// ---------------------------------------------------------------------------
// The gsettings calls
// ---------------------------------------------------------------------------

/// `[a, b, c, ...]` as owned strings.
fn args_of(parts: &[&str]) -> (r: Vec<String>)
    ensures
        r@.len() == parts@.len(),
        forall|i: int| 0 <= i < parts@.len() ==> #[trigger] r@[i]@ == parts@[i]@,
{
    let mut r: Vec<String> = Vec::new();
    let mut i: usize = 0;
    while i < parts.len()
        invariant
            i <= parts@.len(),
            r@.len() == i,
            forall|k: int| 0 <= k < i ==> #[trigger] r@[k]@ == parts@[k]@,
        decreases parts@.len() - i,
    {
        r.push(parts[i].to_owned());
        i = i + 1;
    }
    r
}

/// `schema:path` for our keybinding slot.
pub open spec fn spec_path_schema() -> Seq<char> {
    spec_kb_schema() + ":"@ + spec_slot()
}

fn path_schema() -> (r: String)
    ensures
        r@ == spec_path_schema(),
{
    "org.gnome.settings-daemon.plugins.media-keys.custom-keybinding".to_owned().concat(":").concat(
        slot(),
    )
}

/// The texts of a list of argument lists.
pub open spec fn call_views(calls: Seq<Vec<String>>) -> Seq<Seq<Seq<char>>> {
    calls.map_values(|c: Vec<String>| c@.map_values(|a: String| a@))
}

/// The `gsettings` calls that program our shortcut: set the list (with our
/// slot ensured), then the slot's name, command and binding.
pub open spec fn configure_calls(current: Seq<char>, command: Seq<char>, accel: Seq<char>) -> Seq<
    Seq<Seq<char>>,
> {
    seq![
        seq!["set"@, spec_schema(), "custom-keybindings"@, ensure_slot_spec(current)],
        seq!["set"@, spec_path_schema(), "name"@, "Linux Clipboard Toggle"@],
        seq!["set"@, spec_path_schema(), "command"@, command],
        seq!["set"@, spec_path_schema(), "binding"@, accel],
    ]
}

/// The argument lists of the `gsettings` calls that program our shortcut,
/// given the current `custom-keybindings` value (empty when it could not be
/// read): set the list (with our slot ensured), then the slot's name,
/// command and binding. They run in order; the first failure stops the rest.
pub fn configure(current: &str, command: &str, gnome_accel: &str) -> (calls: Vec<Vec<String>>)
    ensures
        calls@.len() == 4,
        forall|i: int| 0 <= i < 4 ==> (#[trigger] calls@[i])@.len() == 4 && calls@[i]@[0]@ == "set"@,
        calls@[0]@[1]@ == spec_schema() && calls@[0]@[2]@ == "custom-keybindings"@
            && calls@[0]@[3]@ == ensure_slot_spec(current@),
        calls@[1]@[1]@ == spec_path_schema() && calls@[1]@[2]@ == "name"@ && calls@[1]@[3]@
            == "Linux Clipboard Toggle"@,
        calls@[2]@[1]@ == spec_path_schema() && calls@[2]@[2]@ == "command"@ && calls@[2]@[3]@
            == command@,
        calls@[3]@[1]@ == spec_path_schema() && calls@[3]@[2]@ == "binding"@ && calls@[3]@[3]@
            == gnome_accel@,
        call_views(calls@) == configure_calls(current@, command@, gnome_accel@),
{
    let list = ensure_slot(current);
    let ps = path_schema();
    let mut calls: Vec<Vec<String>> = Vec::new();
    calls.push(
        args_of(
            &["set", "org.gnome.settings-daemon.plugins.media-keys", "custom-keybindings", list.as_str()],
        ),
    );
    calls.push(args_of(&["set", ps.as_str(), "name", "Linux Clipboard Toggle"]));
    calls.push(args_of(&["set", ps.as_str(), "command", command]));
    calls.push(args_of(&["set", ps.as_str(), "binding", gnome_accel]));
    proof {
        reveal_strlit("set");
        reveal_strlit("org.gnome.settings-daemon.plugins.media-keys");
        reveal_strlit("custom-keybindings");
        reveal_strlit("name");
        reveal_strlit("Linux Clipboard Toggle");
        reveal_strlit("command");
        reveal_strlit("binding");
        let want = configure_calls(current@, command@, gnome_accel@);
        let got = call_views(calls@);
        assert forall|i: int| 0 <= i < 4 implies #[trigger] got[i] =~= want[i] by {
            assert(got[i] == calls@[i]@.map_values(|a: String| a@));
        }
        assert(got =~= want);
    }
    calls
}

/// The argument lists of the `gsettings` calls that remove our shortcut: set
/// the list with our slot removed (its failure stops the rest), then reset
/// the slot's keys (its failure is ignored).
pub fn remove(current: &str) -> (calls: Vec<Vec<String>>)
    ensures
        calls@.len() == 2,
        calls@[0]@.len() == 4 && calls@[0]@[0]@ == "set"@ && calls@[0]@[1]@ == spec_schema()
            && calls@[0]@[2]@ == "custom-keybindings"@ && calls@[0]@[3]@ == remove_slot_spec(
            current@,
        ),
        calls@[1]@.len() == 2 && calls@[1]@[0]@ == "reset-recursively"@ && calls@[1]@[1]@
            == spec_path_schema(),
{
    let list = remove_slot(current);
    let ps = path_schema();
    let mut calls: Vec<Vec<String>> = Vec::new();
    calls.push(
        args_of(
            &["set", "org.gnome.settings-daemon.plugins.media-keys", "custom-keybindings", list.as_str()],
        ),
    );
    calls.push(args_of(&["reset-recursively", ps.as_str()]));
    calls
}


/// Create our shortcut only when it is missing: when the list value already
/// holds our slot nothing is done (`None`: the user may have retuned the
/// combination in GNOME's own settings); otherwise the calls of `configure`.
pub fn ensure(current: &str, command: &str, gnome_accel: &str) -> (r: Option<Vec<Vec<String>>>)
    ensures
        parse_list_spec(current@).contains(spec_slot()) ==> r is None,
        !parse_list_spec(current@).contains(spec_slot()) ==> (r matches Some(calls) && call_views(
            calls@,
        ) == configure_calls(current@, command@, gnome_accel@)),
{
    if slot_present(current) {
        None
    } else {
        Some(configure(current, command, gnome_accel))
    }
}

} // verus!
