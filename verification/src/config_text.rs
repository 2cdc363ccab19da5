//! Reading `config.toml`: a line-oriented TOML dialect of `[section]`
//! headers and `key = value` lines, applied over the defaults.

use vstd::prelude::*;
use vstd::utf8::is_ascii_chars;
use crate::config::{
    color_defined, color_is_defined, color_value, default_config, default_methods, strings_view,
    Config, ConfigParseExt, ConfigView,
};
use crate::number::{parse_i32, parse_i32_spec, parse_u32, parse_u32_spec, parse_u64, parse_u64_spec};
use crate::text::{
    ascii_lower, char_pos, comment_pos, find_char, find_comment, lemma_char_pos, lemma_char_pos_unique, lowercase,
    str_eq, to_chars, to_lowercase, trim_by, trim_span, trim_ws, Pat,
};

verus! {

/// One `key = value` line: its section, key and value as character
/// sequences.
pub type EntryView = (Seq<char>, Seq<char>, Seq<char>);

/// What one line of the file does.
pub enum LineKind {
    /// Blank lines, comments and lines that are neither a header nor hold `=`.
    Skip,
    /// `[name]`: the lower-cased name of the section that follows.
    Section(Seq<char>),
    /// `key = value`: the lower-cased key and the value.
    Assign(Seq<char>, Seq<char>),
}

/// `str::to_lowercase`, as a function value.
pub open spec fn unicode_lower() -> spec_fn(Seq<char>) -> Seq<char> {
    |x: Seq<char>| lowercase(x)
}

/// Lower-casing as far as it is known: ASCII text by `ascii_lower` on each
/// character, other text by `lowercase`. It agrees with `lowercase` on every
/// text that the reader lower-cases (see `load_config_text`).
pub open spec fn known_lower() -> spec_fn(Seq<char>) -> Seq<char> {
    |x: Seq<char>|
        if is_ascii_chars(x) {
            x.map_values(|c: char| ascii_lower(c))
        } else {
            lowercase(x)
        }
}

/// A line, trimmed: empty or starting with `#` is skipped; `[...]` opens a
/// section; else the text before the first `=` is the key (trimmed, then
/// lower-cased by `low`) and the text after it, cut at the first `" #"` and
/// trimmed, is the value.
pub open spec fn classify_line_with(raw: Seq<char>, low: spec_fn(Seq<char>) -> Seq<char>) -> LineKind {
    let t = trim_ws(raw);
    if t.len() == 0 || t[0] == '#' {
        LineKind::Skip
    } else if t[0] == '[' && t[t.len() - 1] == ']' {
        LineKind::Section(low(t.subrange(1, t.len() - 1)))
    } else {
        let e = char_pos(t, '=');
        if e < t.len() {
            let v = t.subrange(e + 1, t.len() as int);
            LineKind::Assign(
                low(trim_ws(t.subrange(0, e))),
                trim_ws(v.subrange(0, comment_pos(v))),
            )
        } else {
            LineKind::Skip
        }
    }
}

/// `classify_line_with` lower-casing by `str::to_lowercase`.
pub open spec fn classify_line(raw: Seq<char>) -> LineKind {
    classify_line_with(raw, unicode_lower())
}

/// The assignments of `s` from position `i` on, lines being split at `'\n'`,
/// appended to `acc`; `sec` is the section in force at `i`.
pub open spec fn scan_entries_with(
    s: Seq<char>,
    i: int,
    sec: Seq<char>,
    acc: Seq<EntryView>,
    low: spec_fn(Seq<char>) -> Seq<char>,
) -> Seq<EntryView>
    decreases s.len() + 1 - i,
{
    if i < 0 || i > s.len() {
        acc
    } else {
        let rest = s.subrange(i, s.len() as int);
        let j = i + char_pos(rest, '\n');
        let line = s.subrange(i, if j <= s.len() { j } else { s.len() as int });
        proof {
            lemma_char_pos(rest, '\n');
        }
        match classify_line_with(line, low) {
            LineKind::Skip => scan_entries_with(s, j + 1, sec, acc, low),
            LineKind::Section(name) => scan_entries_with(s, j + 1, name, acc, low),
            LineKind::Assign(k, v) => scan_entries_with(s, j + 1, sec, acc.push((sec, k, v)), low),
        }
    }
}

/// Every assignment of the file, in order, each with the section in force
/// (the empty name before the first header).
pub open spec fn config_entries(s: Seq<char>) -> Seq<EntryView> {
    scan_entries_with(s, 0, Seq::empty(), Seq::empty(), unicode_lower())
}

/// `config_entries` with `known_lower` for the lower-casing.
pub open spec fn known_entries(s: Seq<char>) -> Seq<EntryView> {
    scan_entries_with(s, 0, Seq::empty(), Seq::empty(), known_lower())
}

/// The value of the last assignment to `key` in section `sec`.
pub open spec fn lookup(entries: Seq<EntryView>, sec: Seq<char>, key: Seq<char>) -> Option<
    Seq<char>,
>
    decreases entries.len(),
{
    if entries.len() == 0 {
        None
    } else if entries.last().0 == sec && entries.last().1 == key {
        Some(entries.last().2)
    } else {
        lookup(entries.drop_last(), sec, key)
    }
}

/// A number setting: the value when it reads as a `u64`, else the default.
pub open spec fn u64_setting(e: Seq<EntryView>, sec: Seq<char>, key: Seq<char>, default: u64) -> u64 {
    match lookup(e, sec, key) {
        Some(v) => match parse_u64_spec(v) {
            Some(n) => n,
            None => default,
        },
        None => default,
    }
}

/// A signed setting: the value when it reads as an `i32`, else the default.
pub open spec fn i32_setting(e: Seq<EntryView>, sec: Seq<char>, key: Seq<char>, default: i32) -> i32 {
    match lookup(e, sec, key) {
        Some(v) => match parse_i32_spec(v) {
            Some(n) => n,
            None => default,
        },
        None => default,
    }
}

/// A switch: `true` or `false` exactly, else the default.
pub open spec fn bool_setting(e: Seq<EntryView>, sec: Seq<char>, key: Seq<char>, default: bool) -> bool {
    match lookup(e, sec, key) {
        Some(v) => if v == "true"@ {
            true
        } else if v == "false"@ {
            false
        } else {
            default
        },
        None => default,
    }
}

/// A colour: whatever the value reads as (see `color_value`).
pub open spec fn color_setting(e: Seq<EntryView>, sec: Seq<char>, key: Seq<char>, default: u32) -> u32 {
    match lookup(e, sec, key) {
        Some(v) => color_value(v),
        None => default,
    }
}

/// The items of a comma-separated method list: each trimmed, stripped of
/// double quotes, lower-cased; empty items dropped.
pub open spec fn method_items_with(s: Seq<char>, low: spec_fn(Seq<char>) -> Seq<char>) -> Seq<Seq<char>>
    decreases s.len(),
{
    let k = char_pos(s, ',');
    proof {
        lemma_char_pos(s, ',');
    }
    let item = low(trim_by(trim_ws(s.subrange(0, k)), Pat::Quote));
    let rest = if k < s.len() {
        method_items_with(s.subrange(k + 1, s.len() as int), low)
    } else {
        Seq::empty()
    };
    if item.len() > 0 {
        seq![item] + rest
    } else {
        rest
    }
}

/// `method_items_with` lower-casing by `str::to_lowercase`.
pub open spec fn method_items(s: Seq<char>) -> Seq<Seq<char>> {
    method_items_with(s, unicode_lower())
}

/// The items of a comma-separated number list that read as `u32`, each
/// trimmed; the others dropped.
pub open spec fn cursor_items(s: Seq<char>) -> Seq<u32>
    decreases s.len(),
{
    let k = char_pos(s, ',');
    proof {
        lemma_char_pos(s, ',');
    }
    let rest = if k < s.len() {
        cursor_items(s.subrange(k + 1, s.len() as int))
    } else {
        Seq::empty()
    };
    match parse_u32_spec(trim_ws(s.subrange(0, k))) {
        Some(n) => seq![n] + rest,
        None => rest,
    }
}

/// `[caret] methods`: the list (brackets stripped) when it has an item, else
/// the default.
pub open spec fn methods_setting(e: Seq<EntryView>, low: spec_fn(Seq<char>) -> Seq<char>) -> Seq<Seq<char>> {
    match lookup(e, "caret"@, "methods"@) {
        Some(v) => {
            let items = method_items_with(trim_by(v, Pat::Bracket), low);
            if items.len() > 0 {
                items
            } else {
                default_methods()
            }
        },
        None => default_methods(),
    }
}

/// `[mouse] target_cursors`: the numbers of the list (brackets stripped),
/// possibly none.
pub open spec fn cursors_setting(e: Seq<EntryView>) -> Seq<u32> {
    match lookup(e, "mouse"@, "target_cursors"@) {
        Some(v) => cursor_items(trim_by(v, Pat::Bracket)),
        None => seq![32513u32, 32512u32],
    }
}

/// No upper-case ASCII letter and no comma.
pub open spec fn plain_name(x: Seq<char>) -> bool {
    forall|k: int| 0 <= k < x.len() ==> !('A' <= #[trigger] x[k] && x[k] <= 'Z') && x[k] != ','
}

/// The text of `[caret] methods` is ASCII, or there is none.
pub open spec fn methods_text_ascii(e: Seq<EntryView>) -> bool {
    match lookup(e, "caret"@, "methods"@) {
        Some(v) => is_ascii_chars(v),
        None => true,
    }
}

/// A method list as loaded: not empty, no empty name, and (for ASCII text)
/// names in lower case without commas.
pub open spec fn loaded_methods_law(m: Seq<Seq<char>>, ascii: bool) -> bool {
    &&& m.len() > 0
    &&& forall|i: int| 0 <= i < m.len() ==> (#[trigger] m[i]).len() > 0
    &&& ascii ==> forall|i: int| 0 <= i < m.len() ==> plain_name(#[trigger] m[i])
}

proof fn lemma_default_methods_plain()
    ensures
        loaded_methods_law(default_methods(), true),
{
    reveal_strlit("gui_info");
    reveal_strlit("uia_selection");
    reveal_strlit("msaa");
    let m = default_methods();
    assert(m[0] == "gui_info"@ && m[1] == "uia_selection"@ && m[2] == "msaa"@);
}

/// The settings that the assignments `e` give, over the defaults.
pub open spec fn config_from_entries_with(e: Seq<EntryView>, low: spec_fn(Seq<char>) -> Seq<char>) -> ConfigView {
    let d = default_config();
    ConfigView {
        poll_state_interval_ms: u64_setting(e, "poll"@, "state_interval_ms"@, d.poll_state_interval_ms),
        poll_track_interval_ms: u64_setting(e, "poll"@, "track_interval_ms"@, d.poll_track_interval_ms),
        tray_enable: bool_setting(e, "tray"@, "enable"@, d.tray_enable),
        caret_enable: bool_setting(e, "caret"@, "enable"@, d.caret_enable),
        caret_color_cn: color_setting(e, "caret"@, "color_cn"@, d.caret_color_cn),
        caret_color_en: color_setting(e, "caret"@, "color_en"@, d.caret_color_en),
        caret_size: i32_setting(e, "caret"@, "size"@, d.caret_size),
        caret_offset_x: i32_setting(e, "caret"@, "offset_x"@, d.caret_offset_x),
        caret_offset_y: i32_setting(e, "caret"@, "offset_y"@, d.caret_offset_y),
        caret_show_en: bool_setting(e, "caret"@, "show_en"@, d.caret_show_en),
        caret_methods: methods_setting(e, low),
        mouse_enable: bool_setting(e, "mouse"@, "enable"@, d.mouse_enable),
        mouse_color_cn: color_setting(e, "mouse"@, "color_cn"@, d.mouse_color_cn),
        mouse_color_en: color_setting(e, "mouse"@, "color_en"@, d.mouse_color_en),
        mouse_size: i32_setting(e, "mouse"@, "size"@, d.mouse_size),
        mouse_offset_x: i32_setting(e, "mouse"@, "offset_x"@, d.mouse_offset_x),
        mouse_offset_y: i32_setting(e, "mouse"@, "offset_y"@, d.mouse_offset_y),
        mouse_show_en: bool_setting(e, "mouse"@, "show_en"@, d.mouse_show_en),
        mouse_target_cursors: cursors_setting(e),
    }
}

/// `config_from_entries_with` lower-casing by `str::to_lowercase`.
pub open spec fn config_from_entries(e: Seq<EntryView>) -> ConfigView {
    config_from_entries_with(e, unicode_lower())
}

/// The settings that the file text `s` gives.
pub open spec fn config_from_text(s: Seq<char>) -> ConfigView {
    config_from_entries(config_entries(s))
}

/// A colour setting is readable: absent, or its text is (see
/// `color_defined`).
pub open spec fn color_entry_ok(e: Seq<EntryView>, sec: Seq<char>, key: Seq<char>) -> bool {
    lookup(e, sec, key) matches Some(v) ==> color_defined(v)
}

/// The file can be read without a panic: its four colours are readable.
pub open spec fn text_loadable(s: Seq<char>) -> bool {
    let e = config_entries(s);
    &&& color_entry_ok(e, "caret"@, "color_cn"@)
    &&& color_entry_ok(e, "caret"@, "color_en"@)
    &&& color_entry_ok(e, "mouse"@, "color_cn"@)
    &&& color_entry_ok(e, "mouse"@, "color_en"@)
}

// ============================================================================
// Reading
// ============================================================================

/// One assignment read from the file.
pub struct Entry {
    pub section: String,
    pub key: String,
    pub value: String,
}

impl View for Entry {
    type V = EntryView;

    open spec fn view(&self) -> EntryView {
        (self.section@, self.key@, self.value@)
    }
}

pub open spec fn entries_view(v: Seq<Entry>) -> Seq<EntryView> {
    v.map_values(|e: Entry| e@)
}

/// The assignments of `content`, as `config_entries` gives them.
pub fn read_entries(content: &str) -> (r: Vec<Entry>)
    ensures
        entries_view(r@) == config_entries(content@),
        entries_view(r@) == known_entries(content@),
{
    let chars = to_chars(content);
    let n = chars.len();
    let ghost s = content@;
    let mut i: usize = 0;
    let mut sec = String::new();
    let mut entries: Vec<Entry> = Vec::new();
    assert(entries_view(entries@) =~= Seq::<EntryView>::empty());
    loop
        invariant
            chars@ == s,
            s == content@,
            n == s.len(),
            i <= n,
            scan_entries_with(s, i as int, sec@, entries_view(entries@), unicode_lower())
                == config_entries(s),
            scan_entries_with(s, i as int, sec@, entries_view(entries@), known_lower())
                == known_entries(s),
        decreases n - i,
    {
        let ghost sec0 = sec@;
        let ghost acc0 = entries_view(entries@);
        let j = find_char(&chars, i, n, '\n');
        proof {
            lemma_char_pos(s.subrange(i as int, n as int), '\n');
        }
        let ghost line = s.subrange(i as int, j as int);
        let (a, b) = trim_span(&chars, i, j, Pat::Space);
        let ghost t = s.subrange(a as int, b as int);
        assert(t == trim_ws(line));
        if a == b || chars[a] == '#' {
            assert(classify_line(line) == LineKind::Skip);
        } else if chars[a] == '[' && chars[b - 1] == ']' {
            assert(b - a >= 2) by {
                if b - a == 1 {
                    assert(chars@[a as int] == chars@[b - 1]);
                }
            }
            let name = content.substring_char(a + 1, b - 1);
            assert(name@ =~= t.subrange(1, t.len() - 1));
            sec = to_lowercase(name);
        } else {
            let e = find_char(&chars, a, b, '=');
            if e < b {
                proof {
                    lemma_char_pos(t, '=');
                }
                let (ka, kb) = trim_span(&chars, a, e, Pat::Space);
                assert(s.subrange(a as int, e as int) =~= t.subrange(0, e - a));
                let key = to_lowercase(content.substring_char(ka, kb));
                let c = find_comment(&chars, e + 1, b);
                let ghost v = t.subrange(e - a + 1, t.len() as int);
                assert(v =~= s.subrange(e + 1, b as int));
                assert(s.subrange(e + 1, c as int) =~= v.subrange(0, c - e - 1));
                let (va, vb) = trim_span(&chars, e + 1, c, Pat::Space);
                let value = String::from_str(content.substring_char(va, vb));
                let ghost old_entries = entries_view(entries@);
                let ghost sec_now = sec@;
                entries.push(Entry { section: sec.clone(), key, value });
                assert(entries_view(entries@) =~= old_entries.push((sec_now, key@, value@)));
            } else {
                assert(classify_line(line) == LineKind::Skip);
            }
        }
        assert(scan_entries_with(s, i as int, sec0, acc0, unicode_lower()) == scan_entries_with(
            s,
            j + 1,
            sec@,
            entries_view(entries@),
            unicode_lower(),
        ));
        assert(scan_entries_with(s, i as int, sec0, acc0, known_lower()) == scan_entries_with(
            s,
            j + 1,
            sec@,
            entries_view(entries@),
            known_lower(),
        ));
        if j == n {
            assert(scan_entries_with(s, j + 1, sec@, entries_view(entries@), unicode_lower())
                == entries_view(entries@));
            assert(scan_entries_with(s, j + 1, sec@, entries_view(entries@), known_lower())
                == entries_view(entries@));
            return entries;
        }
        i = j + 1;
    }
}

/// The last value assigned to `key` in section `sec`.
pub fn lookup_value<'a>(entries: &'a Vec<Entry>, sec: &str, key: &str) -> (r: Option<&'a String>)
    ensures
        match lookup(entries_view(entries@), sec@, key@) {
            Some(v) => r matches Some(x) && x@ == v,
            None => r is None,
        },
{
    let ghost all = entries_view(entries@);
    let mut i = entries.len();
    assert(all.take(i as int) =~= all);
    while i > 0
        invariant
            i <= entries.len(),
            all == entries_view(entries@),
            lookup(all, sec@, key@) == lookup(all.take(i as int), sec@, key@),
        decreases i,
    {
        let e = &entries[i - 1];
        let ghost pre = all.take(i as int);
        assert(pre.last() == e@);
        assert(pre.drop_last() =~= all.take(i - 1));
        if str_eq(e.section.as_str(), sec) && str_eq(e.key.as_str(), key) {
            return Some(&e.value);
        }
        i = i - 1;
    }
    None
}

fn u64_setting_of(entries: &Vec<Entry>, sec: &str, key: &str, default: u64) -> (r: u64)
    ensures
        r == u64_setting(entries_view(entries@), sec@, key@, default),
{
    match lookup_value(entries, sec, key) {
        Some(v) => {
            let ch = to_chars(v.as_str());
            assert(ch@.subrange(0, ch@.len() as int) =~= ch@);
            match parse_u64(&ch, 0, ch.len()) {
                Some(n) => n,
                None => default,
            }
        },
        None => default,
    }
}

fn i32_setting_of(entries: &Vec<Entry>, sec: &str, key: &str, default: i32) -> (r: i32)
    ensures
        r == i32_setting(entries_view(entries@), sec@, key@, default),
{
    match lookup_value(entries, sec, key) {
        Some(v) => {
            let ch = to_chars(v.as_str());
            assert(ch@.subrange(0, ch@.len() as int) =~= ch@);
            match parse_i32(&ch, 0, ch.len()) {
                Some(n) => n,
                None => default,
            }
        },
        None => default,
    }
}

fn bool_setting_of(entries: &Vec<Entry>, sec: &str, key: &str, default: bool) -> (r: bool)
    ensures
        r == bool_setting(entries_view(entries@), sec@, key@, default),
{
    match lookup_value(entries, sec, key) {
        Some(v) => {
            if str_eq(v.as_str(), "true") {
                true
            } else if str_eq(v.as_str(), "false") {
                false
            } else {
                default
            }
        },
        None => default,
    }
}

fn color_setting_of(entries: &Vec<Entry>, sec: &str, key: &str, default: u32) -> (r: u32)
    requires
        color_entry_ok(entries_view(entries@), sec@, key@),
    ensures
        r == color_setting(entries_view(entries@), sec@, key@, default),
{
    match lookup_value(entries, sec, key) {
        Some(v) => v.as_str().parse_color(),
        None => default,
    }
}

fn color_entry_ok_of(entries: &Vec<Entry>, sec: &str, key: &str) -> (r: bool)
    ensures
        r == color_entry_ok(entries_view(entries@), sec@, key@),
{
    match lookup_value(entries, sec, key) {
        Some(v) => color_is_defined(v.as_str()),
        None => true,
    }
}

/// `method_items` of `v` with its brackets stripped.
fn method_list(v: &str) -> (r: Vec<String>)
    ensures
        strings_view(r@) == method_items(trim_by(v@, Pat::Bracket)),
        strings_view(r@) == method_items_with(trim_by(v@, Pat::Bracket), known_lower()),
        forall|j: int| 0 <= j < r@.len() ==> (#[trigger] r@[j])@.len() > 0,
        is_ascii_chars(v@) ==> forall|j: int| 0 <= j < r@.len() ==> plain_name((#[trigger] r@[j])@),
{
    let chars = to_chars(v);
    let n = chars.len();
    assert(chars@.subrange(0, n as int) =~= chars@);
    let (lo, hi) = trim_span(&chars, 0, n, Pat::Bracket);
    let ghost whole = chars@.subrange(lo as int, hi as int);
    let mut out: Vec<String> = Vec::new();
    let mut i = lo;
    assert(strings_view(out@) =~= Seq::<Seq<char>>::empty());
    assert(whole =~= chars@.subrange(i as int, hi as int));
    loop
        invariant
            chars@ == v@,
            lo <= i <= hi <= chars.len(),
            whole == trim_by(v@, Pat::Bracket),
            method_items(whole) == strings_view(out@) + method_items(
                chars@.subrange(i as int, hi as int),
            ),
            method_items_with(whole, known_lower()) == strings_view(out@) + method_items_with(
                chars@.subrange(i as int, hi as int),
                known_lower(),
            ),
            forall|j: int| 0 <= j < out@.len() ==> (#[trigger] out@[j])@.len() > 0,
            is_ascii_chars(v@) ==> forall|j: int| 0 <= j < out@.len() ==> plain_name((#[trigger] out@[j])@),
        decreases hi - i,
    {
        let ghost rest = chars@.subrange(i as int, hi as int);
        let k = find_char(&chars, i, hi, ',');
        proof {
            lemma_char_pos(rest, ',');
        }
        assert(rest.subrange(0, k - i) =~= chars@.subrange(i as int, k as int));
        let (a, b) = trim_span(&chars, i, k, Pat::Space);
        let (a2, b2) = trim_span(&chars, a, b, Pat::Quote);
        let piece = v.substring_char(a2, b2);
        proof {
            if is_ascii_chars(v@) {
                assert forall|q: int| 0 <= q < piece@.len() implies '\0' <= #[trigger] piece@[q]
                    <= '\u{7f}' && piece@[q] != ',' by {
                    assert(piece@[q] == chars@[a2 + q]);
                    assert(chars@[a2 + q] == rest[a2 + q - i]);
                }
            }
        }
        let item = to_lowercase(piece);
        proof {
            if is_ascii_chars(v@) {
                assert forall|q: int| 0 <= q < item@.len() implies !('A' <= #[trigger] item@[q] && item@[q]
                    <= 'Z') && item@[q] != ',' by {
                    assert(item@[q] == ascii_lower(piece@[q]));
                }
            }
        }
        let ghost tail = if k < hi {
            method_items(chars@.subrange(k + 1, hi as int))
        } else {
            Seq::<Seq<char>>::empty()
        };
        let ghost tail2 = if k < hi {
            method_items_with(chars@.subrange(k + 1, hi as int), known_lower())
        } else {
            Seq::<Seq<char>>::empty()
        };
        if k < hi {
            assert(rest.subrange(k - i + 1, rest.len() as int) =~= chars@.subrange(k + 1, hi as int));
        }
        let ghost before = strings_view(out@);
        if !item.as_str().is_empty() {
            let ghost old_out = out@;
            out.push(item);
            assert(strings_view(out@) =~= before.push(item@));
            assert(forall|j: int| 0 <= j < old_out.len() ==> out@[j] == old_out[j]);
            assert(before + (seq![item@] + tail) =~= strings_view(out@) + tail);
            assert(before + (seq![item@] + tail2) =~= strings_view(out@) + tail2);
        }
        if k == hi {
            assert(strings_view(out@) + Seq::<Seq<char>>::empty() =~= strings_view(out@));
            return out;
        }
        i = k + 1;
    }
}

/// `cursor_items` of `v` with its brackets stripped.
fn cursor_list(v: &str) -> (r: Vec<u32>)
    ensures
        r@ == cursor_items(trim_by(v@, Pat::Bracket)),
{
    let chars = to_chars(v);
    let n = chars.len();
    assert(chars@.subrange(0, n as int) =~= chars@);
    let (lo, hi) = trim_span(&chars, 0, n, Pat::Bracket);
    let ghost whole = chars@.subrange(lo as int, hi as int);
    let mut out: Vec<u32> = Vec::new();
    let mut i = lo;
    assert(whole =~= chars@.subrange(i as int, hi as int));
    assert(out@ + cursor_items(whole) =~= cursor_items(whole));
    loop
        invariant
            chars@ == v@,
            lo <= i <= hi <= chars.len(),
            whole == trim_by(v@, Pat::Bracket),
            cursor_items(whole) == out@ + cursor_items(chars@.subrange(i as int, hi as int)),
        decreases hi - i,
    {
        let ghost rest = chars@.subrange(i as int, hi as int);
        let k = find_char(&chars, i, hi, ',');
        proof {
            lemma_char_pos(rest, ',');
        }
        assert(rest.subrange(0, k - i) =~= chars@.subrange(i as int, k as int));
        let (a, b) = trim_span(&chars, i, k, Pat::Space);
        let ghost tail = if k < hi {
            cursor_items(chars@.subrange(k + 1, hi as int))
        } else {
            Seq::<u32>::empty()
        };
        if k < hi {
            assert(rest.subrange(k - i + 1, rest.len() as int) =~= chars@.subrange(k + 1, hi as int));
        }
        let ghost before = out@;
        match parse_u32(&chars, a, b) {
            Some(x) => {
                out.push(x);
                assert(before + (seq![x] + tail) =~= out@ + tail);
            },
            None => {},
        }
        if k == hi {
            assert(out@ + Seq::<u32>::empty() =~= out@);
            return out;
        }
        i = k + 1;
    }
}

fn methods_setting_of(entries: &Vec<Entry>, default: Vec<String>) -> (r: Vec<String>)
    requires
        strings_view(default@) == default_methods(),
    ensures
        strings_view(r@) == methods_setting(entries_view(entries@), unicode_lower()),
        strings_view(r@) == methods_setting(entries_view(entries@), known_lower()),
        loaded_methods_law(strings_view(r@), methods_text_ascii(entries_view(entries@))),
{
    proof {
        lemma_default_methods_plain();
        assert(strings_view(default@).len() == default@.len());
    }
    match lookup_value(entries, "caret", "methods") {
        Some(v) => {
            let list = method_list(v.as_str());
            if list.len() > 0 {
                list
            } else {
                default
            }
        },
        None => default,
    }
}

fn cursors_setting_of(entries: &Vec<Entry>, default: Vec<u32>) -> (r: Vec<u32>)
    requires
        default@ == seq![32513u32, 32512u32],
    ensures
        r@ == cursors_setting(entries_view(entries@)),
{
    match lookup_value(entries, "mouse", "target_cursors") {
        Some(v) => cursor_list(v.as_str()),
        None => default,
    }
}

/// The settings that the file text `content` gives over the defaults, or
/// `None` when one of its colours cannot be read (where reading the file
/// panics).
pub fn load_config_text(content: &str) -> (r: Option<Config>)
    ensures
        r is Some <==> text_loadable(content@),
        r matches Some(c) ==> c@ == config_from_text(content@),
        config_entries(content@) == known_entries(content@),
        r is Some ==> config_from_text(content@) == config_from_entries_with(
            known_entries(content@),
            known_lower(),
        ),
        r matches Some(c) ==> loaded_methods_law(
            c@.caret_methods,
            methods_text_ascii(config_entries(content@)),
        ),
{
    let entries = read_entries(content);
    if !(color_entry_ok_of(&entries, "caret", "color_cn") && color_entry_ok_of(
        &entries,
        "caret",
        "color_en",
    ) && color_entry_ok_of(&entries, "mouse", "color_cn") && color_entry_ok_of(
        &entries,
        "mouse",
        "color_en",
    )) {
        return None;
    }
    let d = Config::default();
    let c = Config {
        poll_state_interval_ms: u64_setting_of(&entries, "poll", "state_interval_ms", d.poll_state_interval_ms),
        poll_track_interval_ms: u64_setting_of(&entries, "poll", "track_interval_ms", d.poll_track_interval_ms),
        tray_enable: bool_setting_of(&entries, "tray", "enable", d.tray_enable),
        caret_enable: bool_setting_of(&entries, "caret", "enable", d.caret_enable),
        caret_color_cn: color_setting_of(&entries, "caret", "color_cn", d.caret_color_cn),
        caret_color_en: color_setting_of(&entries, "caret", "color_en", d.caret_color_en),
        caret_size: i32_setting_of(&entries, "caret", "size", d.caret_size),
        caret_offset_x: i32_setting_of(&entries, "caret", "offset_x", d.caret_offset_x),
        caret_offset_y: i32_setting_of(&entries, "caret", "offset_y", d.caret_offset_y),
        caret_show_en: bool_setting_of(&entries, "caret", "show_en", d.caret_show_en),
        caret_methods: methods_setting_of(&entries, d.caret_methods),
        mouse_enable: bool_setting_of(&entries, "mouse", "enable", d.mouse_enable),
        mouse_color_cn: color_setting_of(&entries, "mouse", "color_cn", d.mouse_color_cn),
        mouse_color_en: color_setting_of(&entries, "mouse", "color_en", d.mouse_color_en),
        mouse_size: i32_setting_of(&entries, "mouse", "size", d.mouse_size),
        mouse_offset_x: i32_setting_of(&entries, "mouse", "offset_x", d.mouse_offset_x),
        mouse_offset_y: i32_setting_of(&entries, "mouse", "offset_y", d.mouse_offset_y),
        mouse_show_en: bool_setting_of(&entries, "mouse", "show_en", d.mouse_show_en),
        mouse_target_cursors: cursors_setting_of(&entries, d.mouse_target_cursors),
    };
    assert(c@ =~= config_from_text(content@));
    assert(c@ =~= config_from_entries_with(known_entries(content@), known_lower()));
    Some(c)
}

// ============================================================================
// Laws
// ============================================================================

/// A file without assignments (missing, empty, or only comments, blank lines
/// and headers) gives the default settings.
pub proof fn lemma_no_assignments_gives_defaults(s: Seq<char>)
    requires
        config_entries(s).len() == 0,
    ensures
        text_loadable(s),
        config_from_text(s) == default_config(),
{
    let e = config_entries(s);
    assert(config_from_entries(e) =~= default_config());
}

/// The last assignment to a key in a section is the one that counts:
/// whatever came before it, and whatever assignments to other keys or
/// sections follow it.
pub proof fn lemma_last_assignment_wins(
    before: Seq<EntryView>,
    after: Seq<EntryView>,
    sec: Seq<char>,
    key: Seq<char>,
    value: Seq<char>,
)
    requires
        forall|i: int| 0 <= i < after.len() ==> !((#[trigger] after[i]).0 == sec && after[i].1 == key),
    ensures
        lookup(before.push((sec, key, value)) + after, sec, key) == Some(value),
    decreases after.len(),
{
    let all = before.push((sec, key, value)) + after;
    if after.len() == 0 {
        assert(all =~= before.push((sec, key, value)));
    } else {
        let shorter = after.drop_last();
        assert(all.drop_last() =~= before.push((sec, key, value)) + shorter);
        assert(all.last() == after[after.len() - 1]);
        assert forall|i: int| 0 <= i < shorter.len() implies !((#[trigger] shorter[i]).0 == sec
            && shorter[i].1 == key) by {
            assert(shorter[i] == after[i]);
        }
        lemma_last_assignment_wins(before, shorter, sec, key, value);
    }
}

/// A key that is never assigned in a section has no value there.
pub proof fn lemma_unassigned_key(e: Seq<EntryView>, sec: Seq<char>, key: Seq<char>)
    requires
        forall|i: int| 0 <= i < e.len() ==> !((#[trigger] e[i]).0 == sec && e[i].1 == key),
    ensures
        lookup(e, sec, key) is None,
    decreases e.len(),
{
    if e.len() > 0 {
        let d = e.drop_last();
        assert(e.last() == e[e.len() - 1]);
        assert forall|i: int| 0 <= i < d.len() implies !((#[trigger] d[i]).0 == sec && d[i].1 == key) by {
            assert(d[i] == e[i]);
        }
        lemma_unassigned_key(d, sec, key);
    }
}

/// A list is split at its commas: the text before the first comma gives the
/// first item (trimmed, unquoted, lower-cased by `low`, and dropped when
/// empty), and the text after it the rest of the items, in order.
pub proof fn lemma_method_items_split(
    head: Seq<char>,
    rest: Seq<char>,
    low: spec_fn(Seq<char>) -> Seq<char>,
)
    requires
        forall|i: int| 0 <= i < head.len() ==> head[i] != ',',
    ensures
        ({
            let item = low(trim_by(trim_ws(head), Pat::Quote));
            &&& method_items_with(head + seq![','] + rest, low) == if item.len() > 0 {
                seq![item] + method_items_with(rest, low)
            } else {
                method_items_with(rest, low)
            }
            &&& method_items_with(head, low) == if item.len() > 0 {
                seq![item]
            } else {
                Seq::<Seq<char>>::empty()
            }
        }),
{
    let s = head + seq![','] + rest;
    lemma_char_pos_unique(s, ',', head.len() as int);
    assert(s.subrange(0, head.len() as int) =~= head);
    assert(s.subrange(head.len() as int + 1, s.len() as int) =~= rest);
    lemma_char_pos_unique(head, ',', head.len() as int);
    assert(head.subrange(0, head.len() as int) =~= head);
    if method_items_with(head, low).len() > 0 {
        assert(seq![low(trim_by(trim_ws(head), Pat::Quote))] + Seq::<Seq<char>>::empty()
            =~= seq![low(trim_by(trim_ws(head), Pat::Quote))]);
    }
}

/// A number list is split at its commas: the text before the first comma,
/// trimmed, gives the first number when it reads as a `u32` (else nothing),
/// and the text after it the rest, in order.
pub proof fn lemma_cursor_items_split(head: Seq<char>, rest: Seq<char>)
    requires
        forall|i: int| 0 <= i < head.len() ==> head[i] != ',',
    ensures
        cursor_items(head + seq![','] + rest) == match parse_u32_spec(trim_ws(head)) {
            Some(n) => seq![n] + cursor_items(rest),
            None => cursor_items(rest),
        },
        cursor_items(head) == match parse_u32_spec(trim_ws(head)) {
            Some(n) => seq![n],
            None => Seq::<u32>::empty(),
        },
{
    let s = head + seq![','] + rest;
    lemma_char_pos_unique(s, ',', head.len() as int);
    assert(s.subrange(0, head.len() as int) =~= head);
    assert(s.subrange(head.len() as int + 1, s.len() as int) =~= rest);
    lemma_char_pos_unique(head, ',', head.len() as int);
    assert(head.subrange(0, head.len() as int) =~= head);
    match parse_u32_spec(trim_ws(head)) {
        Some(n) => {
            assert(seq![n] + Seq::<u32>::empty() =~= seq![n]);
        },
        None => {},
    }
}

/// Each setting is read from its own line and no other: the last
/// assignment to its key in its section, when it holds a valid value, gives
/// the setting; without one the setting keeps its default. (Numbers read as
/// `str::parse` reads them, switches are `true` or `false` exactly, colours
/// read by `color_value`, lists of at least one item.) This holds for the `[poll]` and `[tray]` settings.
pub proof fn lemma_poll_settings_read_from_their_lines(e: Seq<EntryView>)
    ensures
        (lookup(e, "poll"@, "state_interval_ms"@) is Some && parse_u64_spec(lookup(e, "poll"@, "state_interval_ms"@)->0) is Some) ==> config_from_entries(e).poll_state_interval_ms == parse_u64_spec(lookup(e, "poll"@, "state_interval_ms"@)->0)->0,
        !(lookup(e, "poll"@, "state_interval_ms"@) is Some && parse_u64_spec(lookup(e, "poll"@, "state_interval_ms"@)->0) is Some) ==> config_from_entries(e).poll_state_interval_ms == 100,
        (lookup(e, "poll"@, "track_interval_ms"@) is Some && parse_u64_spec(lookup(e, "poll"@, "track_interval_ms"@)->0) is Some) ==> config_from_entries(e).poll_track_interval_ms == parse_u64_spec(lookup(e, "poll"@, "track_interval_ms"@)->0)->0,
        !(lookup(e, "poll"@, "track_interval_ms"@) is Some && parse_u64_spec(lookup(e, "poll"@, "track_interval_ms"@)->0) is Some) ==> config_from_entries(e).poll_track_interval_ms == 10,
        lookup(e, "tray"@, "enable"@) == Some("true"@) ==> config_from_entries(e).tray_enable,
        lookup(e, "tray"@, "enable"@) == Some("false"@) ==> !config_from_entries(e).tray_enable,
        !(lookup(e, "tray"@, "enable"@) == Some("true"@) || lookup(e, "tray"@, "enable"@) == Some("false"@)) ==> config_from_entries(e).tray_enable == true,
{
    reveal_strlit("true");
    reveal_strlit("false");
    assert("true"@.len() != "false"@.len());
}

/// Each setting is read from its own line and no other: the last
/// assignment to its key in its section, when it holds a valid value, gives
/// the setting; without one the setting keeps its default. (Numbers read as
/// `str::parse` reads them, switches are `true` or `false` exactly, colours
/// read by `color_value`, lists of at least one item.) This holds for the `[caret]` settings.
pub proof fn lemma_caret_settings_read_from_their_lines(e: Seq<EntryView>)
    ensures
        lookup(e, "caret"@, "enable"@) == Some("true"@) ==> config_from_entries(e).caret_enable,
        lookup(e, "caret"@, "enable"@) == Some("false"@) ==> !config_from_entries(e).caret_enable,
        !(lookup(e, "caret"@, "enable"@) == Some("true"@) || lookup(e, "caret"@, "enable"@) == Some("false"@)) ==> config_from_entries(e).caret_enable == true,
        lookup(e, "caret"@, "color_cn"@) is Some ==> config_from_entries(e).caret_color_cn == color_value(lookup(e, "caret"@, "color_cn"@)->0),
        lookup(e, "caret"@, "color_cn"@) is None ==> config_from_entries(e).caret_color_cn == 0xA0FF7800,
        lookup(e, "caret"@, "color_en"@) is Some ==> config_from_entries(e).caret_color_en == color_value(lookup(e, "caret"@, "color_en"@)->0),
        lookup(e, "caret"@, "color_en"@) is None ==> config_from_entries(e).caret_color_en == 0x300078FF,
        (lookup(e, "caret"@, "size"@) is Some && parse_i32_spec(lookup(e, "caret"@, "size"@)->0) is Some) ==> config_from_entries(e).caret_size == parse_i32_spec(lookup(e, "caret"@, "size"@)->0)->0,
        !(lookup(e, "caret"@, "size"@) is Some && parse_i32_spec(lookup(e, "caret"@, "size"@)->0) is Some) ==> config_from_entries(e).caret_size == 8,
        (lookup(e, "caret"@, "offset_x"@) is Some && parse_i32_spec(lookup(e, "caret"@, "offset_x"@)->0) is Some) ==> config_from_entries(e).caret_offset_x == parse_i32_spec(lookup(e, "caret"@, "offset_x"@)->0)->0,
        !(lookup(e, "caret"@, "offset_x"@) is Some && parse_i32_spec(lookup(e, "caret"@, "offset_x"@)->0) is Some) ==> config_from_entries(e).caret_offset_x == 0,
        (lookup(e, "caret"@, "offset_y"@) is Some && parse_i32_spec(lookup(e, "caret"@, "offset_y"@)->0) is Some) ==> config_from_entries(e).caret_offset_y == parse_i32_spec(lookup(e, "caret"@, "offset_y"@)->0)->0,
        !(lookup(e, "caret"@, "offset_y"@) is Some && parse_i32_spec(lookup(e, "caret"@, "offset_y"@)->0) is Some) ==> config_from_entries(e).caret_offset_y == 0,
        lookup(e, "caret"@, "show_en"@) == Some("true"@) ==> config_from_entries(e).caret_show_en,
        lookup(e, "caret"@, "show_en"@) == Some("false"@) ==> !config_from_entries(e).caret_show_en,
        !(lookup(e, "caret"@, "show_en"@) == Some("true"@) || lookup(e, "caret"@, "show_en"@) == Some("false"@)) ==> config_from_entries(e).caret_show_en == true,
        (lookup(e, "caret"@, "methods"@) is Some && method_items(trim_by(lookup(e, "caret"@, "methods"@)->0, Pat::Bracket)).len() > 0) ==> config_from_entries(e).caret_methods == method_items(trim_by(lookup(e, "caret"@, "methods"@)->0, Pat::Bracket)),
        !(lookup(e, "caret"@, "methods"@) is Some && method_items(trim_by(lookup(e, "caret"@, "methods"@)->0, Pat::Bracket)).len() > 0) ==> config_from_entries(e).caret_methods == seq!["gui_info"@, "uia_selection"@, "msaa"@],
{
    reveal_strlit("true");
    reveal_strlit("false");
    assert("true"@.len() != "false"@.len());
}

/// Each setting is read from its own line and no other: the last
/// assignment to its key in its section, when it holds a valid value, gives
/// the setting; without one the setting keeps its default. (Numbers read as
/// `str::parse` reads them, switches are `true` or `false` exactly, colours
/// read by `color_value`, lists of at least one item.) This holds for the `[mouse]` settings.
pub proof fn lemma_mouse_settings_read_from_their_lines(e: Seq<EntryView>)
    ensures
        lookup(e, "mouse"@, "enable"@) == Some("true"@) ==> config_from_entries(e).mouse_enable,
        lookup(e, "mouse"@, "enable"@) == Some("false"@) ==> !config_from_entries(e).mouse_enable,
        !(lookup(e, "mouse"@, "enable"@) == Some("true"@) || lookup(e, "mouse"@, "enable"@) == Some("false"@)) ==> config_from_entries(e).mouse_enable == true,
        lookup(e, "mouse"@, "color_cn"@) is Some ==> config_from_entries(e).mouse_color_cn == color_value(lookup(e, "mouse"@, "color_cn"@)->0),
        lookup(e, "mouse"@, "color_cn"@) is None ==> config_from_entries(e).mouse_color_cn == 0xA0FF7800,
        lookup(e, "mouse"@, "color_en"@) is Some ==> config_from_entries(e).mouse_color_en == color_value(lookup(e, "mouse"@, "color_en"@)->0),
        lookup(e, "mouse"@, "color_en"@) is None ==> config_from_entries(e).mouse_color_en == 0x300078FF,
        (lookup(e, "mouse"@, "size"@) is Some && parse_i32_spec(lookup(e, "mouse"@, "size"@)->0) is Some) ==> config_from_entries(e).mouse_size == parse_i32_spec(lookup(e, "mouse"@, "size"@)->0)->0,
        !(lookup(e, "mouse"@, "size"@) is Some && parse_i32_spec(lookup(e, "mouse"@, "size"@)->0) is Some) ==> config_from_entries(e).mouse_size == 8,
        (lookup(e, "mouse"@, "offset_x"@) is Some && parse_i32_spec(lookup(e, "mouse"@, "offset_x"@)->0) is Some) ==> config_from_entries(e).mouse_offset_x == parse_i32_spec(lookup(e, "mouse"@, "offset_x"@)->0)->0,
        !(lookup(e, "mouse"@, "offset_x"@) is Some && parse_i32_spec(lookup(e, "mouse"@, "offset_x"@)->0) is Some) ==> config_from_entries(e).mouse_offset_x == 2,
        (lookup(e, "mouse"@, "offset_y"@) is Some && parse_i32_spec(lookup(e, "mouse"@, "offset_y"@)->0) is Some) ==> config_from_entries(e).mouse_offset_y == parse_i32_spec(lookup(e, "mouse"@, "offset_y"@)->0)->0,
        !(lookup(e, "mouse"@, "offset_y"@) is Some && parse_i32_spec(lookup(e, "mouse"@, "offset_y"@)->0) is Some) ==> config_from_entries(e).mouse_offset_y == 18,
        lookup(e, "mouse"@, "show_en"@) == Some("true"@) ==> config_from_entries(e).mouse_show_en,
        lookup(e, "mouse"@, "show_en"@) == Some("false"@) ==> !config_from_entries(e).mouse_show_en,
        !(lookup(e, "mouse"@, "show_en"@) == Some("true"@) || lookup(e, "mouse"@, "show_en"@) == Some("false"@)) ==> config_from_entries(e).mouse_show_en == true,
        lookup(e, "mouse"@, "target_cursors"@) is Some ==> config_from_entries(e).mouse_target_cursors == cursor_items(trim_by(lookup(e, "mouse"@, "target_cursors"@)->0, Pat::Bracket)),
        lookup(e, "mouse"@, "target_cursors"@) is None ==> config_from_entries(e).mouse_target_cursors == seq![32513u32, 32512u32],
{
    reveal_strlit("true");
    reveal_strlit("false");
    assert("true"@.len() != "false"@.len());
}

} // verus!
