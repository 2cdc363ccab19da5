//! How a text made of lines is read, line by line, and what each kind of
//! line gives; and that the template that `generate_toml_template` writes
//! reads back as the default settings.

use vstd::prelude::*;
use vstd::utf8::is_ascii_chars;
use crate::config::{
    color_defined, color_value, default_config, default_methods, hex_byte, is_hex_char, join_lines,
    lemma_color_packs_channels, section_line, setting_line, spaces, template_lines, template_text,
};
use crate::config_text::{
    classify_line_with, color_entry_ok, config_entries, config_from_entries_with, cursor_items, known_entries,
    known_lower, lookup, method_items_with, scan_entries_with, text_loadable, EntryView, LineKind,
};
use crate::number::{digits_value, parse_i32_spec, parse_u32_spec, parse_u64_spec};
use crate::text::{
    ascii_lower, char_pos, is_ws, lemma_char_pos_unique, lemma_comment_pos_unique, lemma_trim_end_concat,
    lemma_trim_start_concat, pat_matches, trim_by, trim_end_by, trim_start_by, trim_ws, Pat,
};

verus! {

/// No character of `s` is a line break.
pub open spec fn one_line(s: Seq<char>) -> bool {
    forall|k: int| 0 <= k < s.len() ==> s[k] != '\n'
}

/// The text that the first `k` lines of `ls` make.
pub open spec fn lines_prefix(ls: Seq<Seq<char>>, k: int) -> Seq<char> {
    join_lines(ls.take(k))
}

/// The assignments of the lines of `ls` from the `k`-th on, appended to
/// `acc`, with `sec` the section in force.
pub open spec fn lines_entries(
    ls: Seq<Seq<char>>,
    k: int,
    sec: Seq<char>,
    acc: Seq<EntryView>,
    low: spec_fn(Seq<char>) -> Seq<char>,
) -> Seq<EntryView>
    decreases ls.len() - k,
{
    if k < 0 || k >= ls.len() {
        acc
    } else {
        match classify_line_with(ls[k], low) {
            LineKind::Skip => lines_entries(ls, k + 1, sec, acc, low),
            LineKind::Section(name) => lines_entries(ls, k + 1, name, acc, low),
            LineKind::Assign(a, b) => lines_entries(ls, k + 1, sec, acc.push((sec, a, b)), low),
        }
    }
}

/// The text of the first `m` lines begins the text of all of them.
pub proof fn lemma_join_prefix(ls: Seq<Seq<char>>, m: int)
    requires
        0 <= m <= ls.len(),
    ensures
        lines_prefix(ls, m).len() <= join_lines(ls).len(),
        join_lines(ls).subrange(0, lines_prefix(ls, m).len() as int) == lines_prefix(ls, m),
    decreases ls.len(),
{
    if m == ls.len() {
        assert(ls.take(m) =~= ls);
    } else {
        let d = ls.drop_last();
        assert(ls.take(m) =~= d.take(m));
        lemma_join_prefix(d, m);
        let p = lines_prefix(ls, m);
        let j = join_lines(ls);
        assert(j == join_lines(d) + ls.last() + seq!['\n']);
        assert(j.subrange(0, p.len() as int) =~= join_lines(d).subrange(0, p.len() as int));
    }
}

/// The first `k + 1` lines are the first `k` and the `k`-th.
proof fn lemma_prefix_step(ls: Seq<Seq<char>>, k: int)
    requires
        0 <= k < ls.len(),
    ensures
        lines_prefix(ls, k + 1) == lines_prefix(ls, k) + ls[k] + seq!['\n'],
{
    assert(ls.take(k + 1).drop_last() =~= ls.take(k));
    assert(ls.take(k + 1).last() == ls[k]);
}

/// An empty line is skipped.
pub proof fn lemma_empty_line(low: spec_fn(Seq<char>) -> Seq<char>)
    ensures
        classify_line_with(Seq::empty(), low) == LineKind::Skip,
{
    assert(trim_start_by(Seq::<char>::empty(), Pat::Space) == Seq::<char>::empty());
    assert(trim_end_by(Seq::<char>::empty(), Pat::Space) == Seq::<char>::empty());
}

/// Scanning one line of the joined text: its kind decides the next state,
/// and the scan goes on after its line break.
proof fn lemma_scan_step(
    ls: Seq<Seq<char>>,
    k: int,
    sec: Seq<char>,
    acc: Seq<EntryView>,
    low: spec_fn(Seq<char>) -> Seq<char>,
)
    requires
        0 <= k < ls.len(),
        one_line(ls[k]),
    ensures
        scan_entries_with(join_lines(ls), lines_prefix(ls, k).len() as int, sec, acc, low) == (
        match classify_line_with(ls[k], low) {
            LineKind::Skip => scan_entries_with(
                join_lines(ls),
                lines_prefix(ls, k + 1).len() as int,
                sec,
                acc,
                low,
            ),
            LineKind::Section(name) => scan_entries_with(
                join_lines(ls),
                lines_prefix(ls, k + 1).len() as int,
                name,
                acc,
                low,
            ),
            LineKind::Assign(a, b) => scan_entries_with(
                join_lines(ls),
                lines_prefix(ls, k + 1).len() as int,
                sec,
                acc.push((sec, a, b)),
                low,
            ),
        }),
{
    let s = join_lines(ls);
    let l = ls[k];
    let i = lines_prefix(ls, k).len() as int;
    lemma_prefix_step(ls, k);
    lemma_join_prefix(ls, k + 1);
    let p1 = lines_prefix(ls, k + 1);
    assert(p1.len() == i + l.len() + 1);
    let rest = s.subrange(i, s.len() as int);
    assert forall|q: int| 0 <= q <= l.len() implies rest[q] == (if q < l.len() {
        l[q]
    } else {
        '\n'
    }) by {
        assert(rest[q] == s[i + q]);
        assert(s[i + q] == p1[i + q]);
    }
    lemma_char_pos_unique(rest, '\n', l.len() as int);
    let j = i + char_pos(rest, '\n');
    assert(j == i + l.len());
    assert(s.subrange(i, j) =~= l);
}

/// Scanning the joined text from the start of the `k`-th line gives the
/// assignments of the lines from the `k`-th on.
pub proof fn lemma_scan_lines(
    ls: Seq<Seq<char>>,
    k: int,
    sec: Seq<char>,
    acc: Seq<EntryView>,
    low: spec_fn(Seq<char>) -> Seq<char>,
)
    requires
        0 <= k <= ls.len(),
        forall|q: int| 0 <= q < ls.len() ==> one_line(#[trigger] ls[q]),
    ensures
        scan_entries_with(join_lines(ls), lines_prefix(ls, k).len() as int, sec, acc, low)
            == lines_entries(ls, k, sec, acc, low),
    decreases ls.len() - k,
{
    let s = join_lines(ls);
    if k == ls.len() {
        assert(ls.take(k) =~= ls);
        let i = s.len() as int;
        let rest = s.subrange(i, i);
        assert(rest =~= Seq::<char>::empty());
        assert(s.subrange(i, i) =~= Seq::<char>::empty());
        lemma_empty_line(low);
        assert(char_pos(rest, '\n') == 0);
        assert(scan_entries_with(s, i + 1, sec, acc, low) == acc);
        assert(scan_entries_with(s, i, sec, acc, low) == acc);
    } else {
        lemma_scan_step(ls, k, sec, acc, low);
        match classify_line_with(ls[k], low) {
            LineKind::Skip => lemma_scan_lines(ls, k + 1, sec, acc, low),
            LineKind::Section(name) => lemma_scan_lines(ls, k + 1, name, acc, low),
            LineKind::Assign(a, b) => lemma_scan_lines(ls, k + 1, sec, acc.push((sec, a, b)), low),
        }
    }
}

/// A text of one line without a line break is read as that line: its
/// kind decides what is added.
pub proof fn lemma_scan_one_line(
    l: Seq<char>,
    sec: Seq<char>,
    acc: Seq<EntryView>,
    low: spec_fn(Seq<char>) -> Seq<char>,
)
    requires
        one_line(l),
    ensures
        scan_entries_with(l, 0, sec, acc, low) == match classify_line_with(l, low) {
            LineKind::Assign(a, b) => acc.push((sec, a, b)),
            _ => acc,
        },
{
    assert(l.subrange(0, l.len() as int) =~= l);
    lemma_char_pos_unique(l, '\n', l.len() as int);
    let n = l.len() as int;
    match classify_line_with(l, low) {
        LineKind::Skip => assert(scan_entries_with(l, n + 1, sec, acc, low) == acc),
        LineKind::Section(name) => assert(scan_entries_with(l, n + 1, name, acc, low) == acc),
        LineKind::Assign(a, b) => assert(scan_entries_with(l, n + 1, sec, acc.push((sec, a, b)), low)
            == acc.push((sec, a, b))),
    }
}

/// A text whose first and last characters are not blank is its own trim.
pub proof fn lemma_trim_ws_fixed(s: Seq<char>)
    requires
        s.len() > 0,
        !is_ws(s[0]),
        !is_ws(s.last()),
    ensures
        trim_ws(s) == s,
{
    assert(!pat_matches(Pat::Space, s[0]));
    assert(trim_start_by(s, Pat::Space) == s);
    assert(!pat_matches(Pat::Space, s.last()));
    assert(trim_end_by(s, Pat::Space) == s);
}

/// A line that starts with `#` and does not end blank is a comment.
pub proof fn lemma_comment_line(line: Seq<char>, low: spec_fn(Seq<char>) -> Seq<char>)
    requires
        line.len() > 0,
        line[0] == '#',
        !is_ws(line.last()),
    ensures
        classify_line_with(line, low) == LineKind::Skip,
{
    lemma_trim_ws_fixed(line);
}

/// A `[name]` line opens the section `name`, lower-cased.
pub proof fn lemma_section_line(name: Seq<char>, low: spec_fn(Seq<char>) -> Seq<char>)
    ensures
        classify_line_with(section_line(name), low) == LineKind::Section(low(name)),
        one_line(name) ==> one_line(section_line(name)),
{
    let t = section_line(name);
    assert(t[0] == '[');
    assert(t.last() == ']');
    lemma_trim_ws_fixed(t);
    assert(t.subrange(1, t.len() - 1) =~= name);
    assert(t =~= seq!['['] + name + seq![']']);
}

/// A `key = value` line, padded and commented as the template writes it, is
/// an assignment of `value` to `key`.
pub proof fn lemma_setting_line(
    key: Seq<char>,
    value: Seq<char>,
    pad: nat,
    comment: Seq<char>,
    low: spec_fn(Seq<char>) -> Seq<char>,
)
    requires
        key.len() > 0,
        !is_ws(key[0]),
        key[0] != '#',
        key[0] != '[',
        !is_ws(key.last()),
        forall|q: int| 0 <= q < key.len() ==> key[q] != '=',
        value.len() > 0,
        !is_ws(value[0]),
        value[0] != '#',
        !is_ws(value.last()),
        forall|q: int| 0 <= q < value.len() - 1 ==> !(#[trigger] value[q] == ' ' && value[q + 1] == '#'),
        (comment.len() == 0 && pad == 0) || (comment.len() > 0 && comment[0] == '#' && pad > 0
            && !is_ws(comment.last())),
    ensures
        classify_line_with(setting_line(key, value, pad, comment), low) == LineKind::Assign(
            low(key),
            value,
        ),
        one_line(key) && one_line(value) && one_line(comment) ==> one_line(
            setting_line(key, value, pad, comment),
        ),
{
    let line = setting_line(key, value, pad, comment);
    let m = value.len() as int;
    let n = key.len() as int;
    assert(line =~= key + (seq![' ', '=', ' '] + value + spaces(pad) + comment));
    assert(line[0] == key[0]);
    if comment.len() > 0 {
        assert(line.last() == comment.last());
    } else {
        assert(spaces(pad) =~= Seq::<char>::empty());
        assert(line =~= key + seq![' ', '=', ' '] + value);
        assert(line.last() == value.last());
    }
    lemma_trim_ws_fixed(line);
    let t = line;
    assert(t[0] != '#' && t[0] != '[');
    assert forall|q: int| 0 <= q < n + 1 implies t[q] != '=' by {
        if q < n {
            assert(t[q] == key[q]);
        } else {
            assert(t[q] == ' ');
        }
    }
    assert(t[n + 1] == '=');
    lemma_char_pos_unique(t, '=', n + 1);
    let e = n + 1;
    // The key.
    let kpart = t.subrange(0, e);
    assert(kpart =~= key + seq![' ']);
    lemma_trim_start_concat(Seq::<char>::empty(), key + seq![' '], Pat::Space);
    assert(Seq::<char>::empty() + (key + seq![' ']) =~= key + seq![' ']);
    assert((key + seq![' '])[0] == key[0]);
    lemma_trim_end_concat(key, seq![' '], Pat::Space);
    assert(trim_ws(kpart) == key);
    // The value.
    let v = t.subrange(e + 1, t.len() as int);
    let sp = spaces(pad);
    assert(v =~= seq![' '] + value + sp + comment);
    let r = if comment.len() > 0 {
        m + pad
    } else {
        v.len() as int
    };
    assert forall|q: int| 0 <= q < r && q + 1 < v.len() implies !(#[trigger] v[q] == ' ' && v[q + 1]
        == '#') by {
        if q == 0 {
            assert(v[1] == value[0]);
        } else if q < m {
            assert(v[q] == value[q - 1]);
            assert(v[q + 1] == value[q]);
        } else if q == m {
            assert(v[q] == value[m - 1]);
        } else {
            assert(v[q + 1] == sp[q - m]);
        }
    }
    if comment.len() > 0 {
        assert(v[r] == ' ');
        assert(v[r + 1] == comment[0]);
    }
    lemma_comment_pos_unique(v, r);
    let kept = v.subrange(0, r);
    let tail = if comment.len() > 0 {
        spaces((pad - 1) as nat)
    } else {
        Seq::<char>::empty()
    };
    assert(kept =~= seq![' '] + (value + tail));
    lemma_trim_start_concat(seq![' '], value + tail, Pat::Space);
    assert((value + tail)[0] == value[0]);
    lemma_trim_end_concat(value, tail, Pat::Space);
    assert(trim_ws(kept) == value);
}

/// Lower-casing leaves a name of lower-case ASCII letters and `_` as it is.
pub proof fn lemma_known_lower_fixed(x: Seq<char>)
    requires
        forall|q: int| 0 <= q < x.len() ==> ('a' <= #[trigger] x[q] && x[q] <= 'z') || x[q] == '_',
    ensures
        known_lower()(x) == x,
{
    assert(is_ascii_chars(x));
    assert(x.map_values(|c: char| ascii_lower(c)) =~= x);
}

/// The assignments of the template, each with its section.
pub open spec fn template_entries() -> Seq<EntryView> {
    seq![
        ("poll"@, "state_interval_ms"@, "100"@),
        ("poll"@, "track_interval_ms"@, "10"@),
        ("tray"@, "enable"@, "true"@),
        ("caret"@, "enable"@, "true"@),
        ("caret"@, "color_cn"@, "\"#FF7800A0\""@),
        ("caret"@, "color_en"@, "\"#0078FF30\""@),
        ("caret"@, "size"@, "8"@),
        ("caret"@, "offset_x"@, "0"@),
        ("caret"@, "offset_y"@, "0"@),
        ("caret"@, "show_en"@, "true"@),
        ("caret"@, "methods"@, "[\"gui_info\", \"uia_selection\", \"msaa\"]"@),
        ("mouse"@, "enable"@, "true"@),
        ("mouse"@, "color_cn"@, "\"#FF7800A0\""@),
        ("mouse"@, "color_en"@, "\"#0078FF30\""@),
        ("mouse"@, "size"@, "8"@),
        ("mouse"@, "offset_x"@, "2"@),
        ("mouse"@, "offset_y"@, "18"@),
        ("mouse"@, "show_en"@, "true"@),
        ("mouse"@, "target_cursors"@, "[32513, 32512]"@),
    ]
}

/// Line 0 of the template: a comment.
proof fn lemma_template_line_0()
    ensures
        one_line(template_lines()[0]),
        classify_line_with(template_lines()[0], known_lower()) == LineKind::Skip,
{
    let low = known_lower();
    reveal_strlit("# 输入指示器 (IME Indicator) 配置文件");
    lemma_comment_line("# 输入指示器 (IME Indicator) 配置文件"@, low);
}

/// Line 1 of the template: the `[poll]` header.
proof fn lemma_template_line_1()
    ensures
        one_line(template_lines()[1]),
        classify_line_with(template_lines()[1], known_lower()) == LineKind::Section("poll"@),
{
    let low = known_lower();
    reveal_strlit("poll");
    lemma_section_line("poll"@, low);
    lemma_known_lower_fixed("poll"@);
}

/// Line 2 of the template: the `state_interval_ms` setting.
proof fn lemma_template_line_2()
    ensures
        one_line(template_lines()[2]),
        classify_line_with(template_lines()[2], known_lower()) == LineKind::Assign("state_interval_ms"@, "100"@),
{
    let low = known_lower();
    reveal_strlit("# 状态检测间隔 (ms)");
    reveal_strlit("100");
    reveal_strlit("state_interval_ms");
    lemma_setting_line("state_interval_ms"@, "100"@, 3, "# 状态检测间隔 (ms)"@, low);
    lemma_known_lower_fixed("state_interval_ms"@);
}

/// Line 3 of the template: the `track_interval_ms` setting.
proof fn lemma_template_line_3()
    ensures
        one_line(template_lines()[3]),
        classify_line_with(template_lines()[3], known_lower()) == LineKind::Assign("track_interval_ms"@, "10"@),
{
    let low = known_lower();
    reveal_strlit("# 位置追踪间隔 (ms)");
    reveal_strlit("10");
    reveal_strlit("track_interval_ms");
    lemma_setting_line("track_interval_ms"@, "10"@, 4, "# 位置追踪间隔 (ms)"@, low);
    lemma_known_lower_fixed("track_interval_ms"@);
}

/// Line 4 of the template: a blank line.
proof fn lemma_template_line_4()
    ensures
        one_line(template_lines()[4]),
        classify_line_with(template_lines()[4], known_lower()) == LineKind::Skip,
{
    let low = known_lower();
    reveal_strlit("");
    lemma_empty_line(low);
    assert(template_lines()[4] =~= Seq::<char>::empty());
}

/// Line 5 of the template: the `[tray]` header.
proof fn lemma_template_line_5()
    ensures
        one_line(template_lines()[5]),
        classify_line_with(template_lines()[5], known_lower()) == LineKind::Section("tray"@),
{
    let low = known_lower();
    reveal_strlit("tray");
    lemma_section_line("tray"@, low);
    lemma_known_lower_fixed("tray"@);
}

/// Line 6 of the template: the `enable` setting.
proof fn lemma_template_line_6()
    ensures
        one_line(template_lines()[6]),
        classify_line_with(template_lines()[6], known_lower()) == LineKind::Assign("enable"@, "true"@),
{
    let low = known_lower();
    reveal_strlit("# 是否显示托盘图标 (false 时完全后台运行，只能通过任务管理器结束)");
    reveal_strlit("enable");
    reveal_strlit("true");
    lemma_setting_line("enable"@, "true"@, 15, "# 是否显示托盘图标 (false 时完全后台运行，只能通过任务管理器结束)"@, low);
    lemma_known_lower_fixed("enable"@);
}

/// Line 7 of the template: a blank line.
proof fn lemma_template_line_7()
    ensures
        one_line(template_lines()[7]),
        classify_line_with(template_lines()[7], known_lower()) == LineKind::Skip,
{
    let low = known_lower();
    reveal_strlit("");
    lemma_empty_line(low);
    assert(template_lines()[7] =~= Seq::<char>::empty());
}

/// Line 8 of the template: the `[caret]` header.
proof fn lemma_template_line_8()
    ensures
        one_line(template_lines()[8]),
        classify_line_with(template_lines()[8], known_lower()) == LineKind::Section("caret"@),
{
    let low = known_lower();
    reveal_strlit("caret");
    lemma_section_line("caret"@, low);
    lemma_known_lower_fixed("caret"@);
}

/// Line 9 of the template: the `enable` setting.
proof fn lemma_template_line_9()
    ensures
        one_line(template_lines()[9]),
        classify_line_with(template_lines()[9], known_lower()) == LineKind::Assign("enable"@, "true"@),
{
    let low = known_lower();
    reveal_strlit("# 是否启用文本光标提示");
    reveal_strlit("enable");
    reveal_strlit("true");
    lemma_setting_line("enable"@, "true"@, 15, "# 是否启用文本光标提示"@, low);
    lemma_known_lower_fixed("enable"@);
}

/// Line 10 of the template: the `color_cn` setting.
proof fn lemma_template_line_10()
    ensures
        one_line(template_lines()[10]),
        classify_line_with(template_lines()[10], known_lower()) == LineKind::Assign("color_cn"@, "\"#FF7800A0\""@),
{
    let low = known_lower();
    reveal_strlit("# 中文状态颜色 (#RRGGBBAA)");
    reveal_strlit("\"#FF7800A0\"");
    reveal_strlit("color_cn");
    lemma_setting_line("color_cn"@, "\"#FF7800A0\""@, 4, "# 中文状态颜色 (#RRGGBBAA)"@, low);
    lemma_known_lower_fixed("color_cn"@);
}

/// Line 11 of the template: the `color_en` setting.
proof fn lemma_template_line_11()
    ensures
        one_line(template_lines()[11]),
        classify_line_with(template_lines()[11], known_lower()) == LineKind::Assign("color_en"@, "\"#0078FF30\""@),
{
    let low = known_lower();
    reveal_strlit("# 英文状态颜色");
    reveal_strlit("\"#0078FF30\"");
    reveal_strlit("color_en");
    lemma_setting_line("color_en"@, "\"#0078FF30\""@, 4, "# 英文状态颜色"@, low);
    lemma_known_lower_fixed("color_en"@);
}

/// Line 12 of the template: the `size` setting.
proof fn lemma_template_line_12()
    ensures
        one_line(template_lines()[12]),
        classify_line_with(template_lines()[12], known_lower()) == LineKind::Assign("size"@, "8"@),
{
    let low = known_lower();
    reveal_strlit("# 提示球大小");
    reveal_strlit("8");
    reveal_strlit("size");
    lemma_setting_line("size"@, "8"@, 20, "# 提示球大小"@, low);
    lemma_known_lower_fixed("size"@);
}

/// Line 13 of the template: the `offset_x` setting.
proof fn lemma_template_line_13()
    ensures
        one_line(template_lines()[13]),
        classify_line_with(template_lines()[13], known_lower()) == LineKind::Assign("offset_x"@, "0"@),
{
    let low = known_lower();
    reveal_strlit("");
    reveal_strlit("0");
    reveal_strlit("offset_x");
    lemma_setting_line("offset_x"@, "0"@, 0, ""@, low);
    lemma_known_lower_fixed("offset_x"@);
}

/// Line 14 of the template: the `offset_y` setting.
proof fn lemma_template_line_14()
    ensures
        one_line(template_lines()[14]),
        classify_line_with(template_lines()[14], known_lower()) == LineKind::Assign("offset_y"@, "0"@),
{
    let low = known_lower();
    reveal_strlit("");
    reveal_strlit("0");
    reveal_strlit("offset_y");
    lemma_setting_line("offset_y"@, "0"@, 0, ""@, low);
    lemma_known_lower_fixed("offset_y"@);
}

/// Line 15 of the template: the `show_en` setting.
proof fn lemma_template_line_15()
    ensures
        one_line(template_lines()[15]),
        classify_line_with(template_lines()[15], known_lower()) == LineKind::Assign("show_en"@, "true"@),
{
    let low = known_lower();
    reveal_strlit("# 英文状态下是否显示");
    reveal_strlit("show_en");
    reveal_strlit("true");
    lemma_setting_line("show_en"@, "true"@, 14, "# 英文状态下是否显示"@, low);
    lemma_known_lower_fixed("show_en"@);
}

/// Line 16 of the template: a comment.
proof fn lemma_template_line_16()
    ensures
        one_line(template_lines()[16]),
        classify_line_with(template_lines()[16], known_lower()) == LineKind::Skip,
{
    let low = known_lower();
    reveal_strlit("# 光标检测方法及落级顺序（可删减、可调序）");
    lemma_comment_line("# 光标检测方法及落级顺序（可删减、可调序）"@, low);
}

/// Line 17 of the template: a comment.
proof fn lemma_template_line_17()
    ensures
        one_line(template_lines()[17]),
        classify_line_with(template_lines()[17], known_lower()) == LineKind::Skip,
{
    let low = known_lower();
    reveal_strlit("# 可选: gui_info(记事本等原生) uia_selection(浏览器/VS Code) msaa(浏览器 caret 对象)");
    lemma_comment_line("# 可选: gui_info(记事本等原生) uia_selection(浏览器/VS Code) msaa(浏览器 caret 对象)"@, low);
}

/// Line 18 of the template: the `methods` setting.
proof fn lemma_template_line_18()
    ensures
        one_line(template_lines()[18]),
        classify_line_with(template_lines()[18], known_lower()) == LineKind::Assign("methods"@, "[\"gui_info\", \"uia_selection\", \"msaa\"]"@),
{
    let low = known_lower();
    reveal_strlit("");
    reveal_strlit("[\"gui_info\", \"uia_selection\", \"msaa\"]");
    reveal_strlit("methods");
    lemma_setting_line("methods"@, "[\"gui_info\", \"uia_selection\", \"msaa\"]"@, 0, ""@, low);
    lemma_known_lower_fixed("methods"@);
}

/// Line 19 of the template: a blank line.
proof fn lemma_template_line_19()
    ensures
        one_line(template_lines()[19]),
        classify_line_with(template_lines()[19], known_lower()) == LineKind::Skip,
{
    let low = known_lower();
    reveal_strlit("");
    lemma_empty_line(low);
    assert(template_lines()[19] =~= Seq::<char>::empty());
}

/// Line 20 of the template: the `[mouse]` header.
proof fn lemma_template_line_20()
    ensures
        one_line(template_lines()[20]),
        classify_line_with(template_lines()[20], known_lower()) == LineKind::Section("mouse"@),
{
    let low = known_lower();
    reveal_strlit("mouse");
    lemma_section_line("mouse"@, low);
    lemma_known_lower_fixed("mouse"@);
}

/// Line 21 of the template: the `enable` setting.
proof fn lemma_template_line_21()
    ensures
        one_line(template_lines()[21]),
        classify_line_with(template_lines()[21], known_lower()) == LineKind::Assign("enable"@, "true"@),
{
    let low = known_lower();
    reveal_strlit("# 是否开启鼠标提示");
    reveal_strlit("enable");
    reveal_strlit("true");
    lemma_setting_line("enable"@, "true"@, 15, "# 是否开启鼠标提示"@, low);
    lemma_known_lower_fixed("enable"@);
}

/// Line 22 of the template: the `color_cn` setting.
proof fn lemma_template_line_22()
    ensures
        one_line(template_lines()[22]),
        classify_line_with(template_lines()[22], known_lower()) == LineKind::Assign("color_cn"@, "\"#FF7800A0\""@),
{
    let low = known_lower();
    reveal_strlit("# 中文状态颜色");
    reveal_strlit("\"#FF7800A0\"");
    reveal_strlit("color_cn");
    lemma_setting_line("color_cn"@, "\"#FF7800A0\""@, 4, "# 中文状态颜色"@, low);
    lemma_known_lower_fixed("color_cn"@);
}

/// Line 23 of the template: the `color_en` setting.
proof fn lemma_template_line_23()
    ensures
        one_line(template_lines()[23]),
        classify_line_with(template_lines()[23], known_lower()) == LineKind::Assign("color_en"@, "\"#0078FF30\""@),
{
    let low = known_lower();
    reveal_strlit("# 英文状态颜色");
    reveal_strlit("\"#0078FF30\"");
    reveal_strlit("color_en");
    lemma_setting_line("color_en"@, "\"#0078FF30\""@, 4, "# 英文状态颜色"@, low);
    lemma_known_lower_fixed("color_en"@);
}

/// Line 24 of the template: the `size` setting.
proof fn lemma_template_line_24()
    ensures
        one_line(template_lines()[24]),
        classify_line_with(template_lines()[24], known_lower()) == LineKind::Assign("size"@, "8"@),
{
    let low = known_lower();
    reveal_strlit("# 提示球大小");
    reveal_strlit("8");
    reveal_strlit("size");
    lemma_setting_line("size"@, "8"@, 20, "# 提示球大小"@, low);
    lemma_known_lower_fixed("size"@);
}

/// Line 25 of the template: the `offset_x` setting.
proof fn lemma_template_line_25()
    ensures
        one_line(template_lines()[25]),
        classify_line_with(template_lines()[25], known_lower()) == LineKind::Assign("offset_x"@, "2"@),
{
    let low = known_lower();
    reveal_strlit("");
    reveal_strlit("2");
    reveal_strlit("offset_x");
    lemma_setting_line("offset_x"@, "2"@, 0, ""@, low);
    lemma_known_lower_fixed("offset_x"@);
}

/// Line 26 of the template: the `offset_y` setting.
proof fn lemma_template_line_26()
    ensures
        one_line(template_lines()[26]),
        classify_line_with(template_lines()[26], known_lower()) == LineKind::Assign("offset_y"@, "18"@),
{
    let low = known_lower();
    reveal_strlit("");
    reveal_strlit("18");
    reveal_strlit("offset_y");
    lemma_setting_line("offset_y"@, "18"@, 0, ""@, low);
    lemma_known_lower_fixed("offset_y"@);
}

/// Line 27 of the template: the `show_en` setting.
proof fn lemma_template_line_27()
    ensures
        one_line(template_lines()[27]),
        classify_line_with(template_lines()[27], known_lower()) == LineKind::Assign("show_en"@, "true"@),
{
    let low = known_lower();
    reveal_strlit("# 英文状态下是否显示");
    reveal_strlit("show_en");
    reveal_strlit("true");
    lemma_setting_line("show_en"@, "true"@, 14, "# 英文状态下是否显示"@, low);
    lemma_known_lower_fixed("show_en"@);
}

/// Line 28 of the template: the `target_cursors` setting.
proof fn lemma_template_line_28()
    ensures
        one_line(template_lines()[28]),
        classify_line_with(template_lines()[28], known_lower()) == LineKind::Assign("target_cursors"@, "[32513, 32512]"@),
{
    let low = known_lower();
    reveal_strlit("# I-Beam, Normal");
    reveal_strlit("[32513, 32512]");
    reveal_strlit("target_cursors");
    lemma_setting_line("target_cursors"@, "[32513, 32512]"@, 2, "# I-Beam, Normal"@, low);
    lemma_known_lower_fixed("target_cursors"@);
}

/// The template's lines are single lines, and they assign what
/// `template_entries` lists.
proof fn lemma_template_lines()
    ensures
        forall|q: int| 0 <= q < template_lines().len() ==> one_line(#[trigger] template_lines()[q]),
        lines_entries(template_lines(), 0, Seq::empty(), Seq::empty(), known_lower()) == template_entries(),
{
    let ls = template_lines();
    let low = known_lower();
    lemma_template_line_0();
    lemma_template_line_1();
    lemma_template_line_2();
    lemma_template_line_3();
    lemma_template_line_4();
    lemma_template_line_5();
    lemma_template_line_6();
    lemma_template_line_7();
    lemma_template_line_8();
    lemma_template_line_9();
    lemma_template_line_10();
    lemma_template_line_11();
    lemma_template_line_12();
    lemma_template_line_13();
    lemma_template_line_14();
    lemma_template_line_15();
    lemma_template_line_16();
    lemma_template_line_17();
    lemma_template_line_18();
    lemma_template_line_19();
    lemma_template_line_20();
    lemma_template_line_21();
    lemma_template_line_22();
    lemma_template_line_23();
    lemma_template_line_24();
    lemma_template_line_25();
    lemma_template_line_26();
    lemma_template_line_27();
    lemma_template_line_28();
    assert forall|q: int| 0 <= q < ls.len() implies one_line(#[trigger] ls[q]) by {
    }
    let a0 = Seq::<EntryView>::empty();
    let a1 = a0.push(("poll"@, "state_interval_ms"@, "100"@));
    let a2 = a1.push(("poll"@, "track_interval_ms"@, "10"@));
    let a3 = a2.push(("tray"@, "enable"@, "true"@));
    let a4 = a3.push(("caret"@, "enable"@, "true"@));
    let a5 = a4.push(("caret"@, "color_cn"@, "\"#FF7800A0\""@));
    let a6 = a5.push(("caret"@, "color_en"@, "\"#0078FF30\""@));
    let a7 = a6.push(("caret"@, "size"@, "8"@));
    let a8 = a7.push(("caret"@, "offset_x"@, "0"@));
    let a9 = a8.push(("caret"@, "offset_y"@, "0"@));
    let a10 = a9.push(("caret"@, "show_en"@, "true"@));
    let a11 = a10.push(("caret"@, "methods"@, "[\"gui_info\", \"uia_selection\", \"msaa\"]"@));
    let a12 = a11.push(("mouse"@, "enable"@, "true"@));
    let a13 = a12.push(("mouse"@, "color_cn"@, "\"#FF7800A0\""@));
    let a14 = a13.push(("mouse"@, "color_en"@, "\"#0078FF30\""@));
    let a15 = a14.push(("mouse"@, "size"@, "8"@));
    let a16 = a15.push(("mouse"@, "offset_x"@, "2"@));
    let a17 = a16.push(("mouse"@, "offset_y"@, "18"@));
    let a18 = a17.push(("mouse"@, "show_en"@, "true"@));
    let a19 = a18.push(("mouse"@, "target_cursors"@, "[32513, 32512]"@));
    assert(lines_entries(ls, 0, Seq::<char>::empty(), a0, low) == lines_entries(ls, 1, Seq::<char>::empty(), a0, low));
    assert(lines_entries(ls, 1, Seq::<char>::empty(), a0, low) == lines_entries(ls, 2, "poll"@, a0, low));
    assert(lines_entries(ls, 2, "poll"@, a0, low) == lines_entries(ls, 3, "poll"@, a1, low));
    assert(lines_entries(ls, 3, "poll"@, a1, low) == lines_entries(ls, 4, "poll"@, a2, low));
    assert(lines_entries(ls, 4, "poll"@, a2, low) == lines_entries(ls, 5, "poll"@, a2, low));
    assert(lines_entries(ls, 5, "poll"@, a2, low) == lines_entries(ls, 6, "tray"@, a2, low));
    assert(lines_entries(ls, 6, "tray"@, a2, low) == lines_entries(ls, 7, "tray"@, a3, low));
    assert(lines_entries(ls, 7, "tray"@, a3, low) == lines_entries(ls, 8, "tray"@, a3, low));
    assert(lines_entries(ls, 8, "tray"@, a3, low) == lines_entries(ls, 9, "caret"@, a3, low));
    assert(lines_entries(ls, 9, "caret"@, a3, low) == lines_entries(ls, 10, "caret"@, a4, low));
    assert(lines_entries(ls, 10, "caret"@, a4, low) == lines_entries(ls, 11, "caret"@, a5, low));
    assert(lines_entries(ls, 11, "caret"@, a5, low) == lines_entries(ls, 12, "caret"@, a6, low));
    assert(lines_entries(ls, 12, "caret"@, a6, low) == lines_entries(ls, 13, "caret"@, a7, low));
    assert(lines_entries(ls, 13, "caret"@, a7, low) == lines_entries(ls, 14, "caret"@, a8, low));
    assert(lines_entries(ls, 14, "caret"@, a8, low) == lines_entries(ls, 15, "caret"@, a9, low));
    assert(lines_entries(ls, 15, "caret"@, a9, low) == lines_entries(ls, 16, "caret"@, a10, low));
    assert(lines_entries(ls, 16, "caret"@, a10, low) == lines_entries(ls, 17, "caret"@, a10, low));
    assert(lines_entries(ls, 17, "caret"@, a10, low) == lines_entries(ls, 18, "caret"@, a10, low));
    assert(lines_entries(ls, 18, "caret"@, a10, low) == lines_entries(ls, 19, "caret"@, a11, low));
    assert(lines_entries(ls, 19, "caret"@, a11, low) == lines_entries(ls, 20, "caret"@, a11, low));
    assert(lines_entries(ls, 20, "caret"@, a11, low) == lines_entries(ls, 21, "mouse"@, a11, low));
    assert(lines_entries(ls, 21, "mouse"@, a11, low) == lines_entries(ls, 22, "mouse"@, a12, low));
    assert(lines_entries(ls, 22, "mouse"@, a12, low) == lines_entries(ls, 23, "mouse"@, a13, low));
    assert(lines_entries(ls, 23, "mouse"@, a13, low) == lines_entries(ls, 24, "mouse"@, a14, low));
    assert(lines_entries(ls, 24, "mouse"@, a14, low) == lines_entries(ls, 25, "mouse"@, a15, low));
    assert(lines_entries(ls, 25, "mouse"@, a15, low) == lines_entries(ls, 26, "mouse"@, a16, low));
    assert(lines_entries(ls, 26, "mouse"@, a16, low) == lines_entries(ls, 27, "mouse"@, a17, low));
    assert(lines_entries(ls, 27, "mouse"@, a17, low) == lines_entries(ls, 28, "mouse"@, a18, low));
    assert(lines_entries(ls, 28, "mouse"@, a18, low) == lines_entries(ls, 29, "mouse"@, a19, low));
    assert(lines_entries(ls, 29, "mouse"@, a19, low) == a19);
    assert(a19 =~= template_entries());
}

/// Looking up in a list with one more assignment at its end.
proof fn lemma_lookup_push(e: Seq<EntryView>, x: EntryView)
    ensures
        forall|sec: Seq<char>, key: Seq<char>|
            #[trigger] lookup(e.push(x), sec, key) == if x.0 == sec && x.1 == key {
                Some(x.2)
            } else {
                lookup(e, sec, key)
            },
{
    assert(e.push(x).drop_last() =~= e);
}

/// Each setting of the template is found with its value.
proof fn lemma_template_lookups()
    ensures
        lookup(template_entries(), "poll"@, "state_interval_ms"@) == Some("100"@),
        lookup(template_entries(), "poll"@, "track_interval_ms"@) == Some("10"@),
        lookup(template_entries(), "tray"@, "enable"@) == Some("true"@),
        lookup(template_entries(), "caret"@, "enable"@) == Some("true"@),
        lookup(template_entries(), "caret"@, "color_cn"@) == Some("\"#FF7800A0\""@),
        lookup(template_entries(), "caret"@, "color_en"@) == Some("\"#0078FF30\""@),
        lookup(template_entries(), "caret"@, "size"@) == Some("8"@),
        lookup(template_entries(), "caret"@, "offset_x"@) == Some("0"@),
        lookup(template_entries(), "caret"@, "offset_y"@) == Some("0"@),
        lookup(template_entries(), "caret"@, "show_en"@) == Some("true"@),
        lookup(template_entries(), "caret"@, "methods"@) == Some("[\"gui_info\", \"uia_selection\", \"msaa\"]"@),
        lookup(template_entries(), "mouse"@, "enable"@) == Some("true"@),
        lookup(template_entries(), "mouse"@, "color_cn"@) == Some("\"#FF7800A0\""@),
        lookup(template_entries(), "mouse"@, "color_en"@) == Some("\"#0078FF30\""@),
        lookup(template_entries(), "mouse"@, "size"@) == Some("8"@),
        lookup(template_entries(), "mouse"@, "offset_x"@) == Some("2"@),
        lookup(template_entries(), "mouse"@, "offset_y"@) == Some("18"@),
        lookup(template_entries(), "mouse"@, "show_en"@) == Some("true"@),
        lookup(template_entries(), "mouse"@, "target_cursors"@) == Some("[32513, 32512]"@),
{
    reveal_strlit("0");
    reveal_strlit("10");
    reveal_strlit("100");
    reveal_strlit("18");
    reveal_strlit("2");
    reveal_strlit("8");
    reveal_strlit("[32513, 32512]");
    reveal_strlit("[\"gui_info\", \"uia_selection\", \"msaa\"]");
    reveal_strlit("\"#0078FF30\"");
    reveal_strlit("\"#FF7800A0\"");
    reveal_strlit("caret");
    reveal_strlit("color_cn");
    reveal_strlit("color_en");
    reveal_strlit("enable");
    reveal_strlit("methods");
    reveal_strlit("mouse");
    reveal_strlit("offset_x");
    reveal_strlit("offset_y");
    reveal_strlit("poll");
    reveal_strlit("show_en");
    reveal_strlit("size");
    reveal_strlit("state_interval_ms");
    reveal_strlit("target_cursors");
    reveal_strlit("track_interval_ms");
    reveal_strlit("tray");
    reveal_strlit("true");
    let a0 = Seq::<EntryView>::empty();
    let a1 = a0.push(("poll"@, "state_interval_ms"@, "100"@));
    let a2 = a1.push(("poll"@, "track_interval_ms"@, "10"@));
    let a3 = a2.push(("tray"@, "enable"@, "true"@));
    let a4 = a3.push(("caret"@, "enable"@, "true"@));
    let a5 = a4.push(("caret"@, "color_cn"@, "\"#FF7800A0\""@));
    let a6 = a5.push(("caret"@, "color_en"@, "\"#0078FF30\""@));
    let a7 = a6.push(("caret"@, "size"@, "8"@));
    let a8 = a7.push(("caret"@, "offset_x"@, "0"@));
    let a9 = a8.push(("caret"@, "offset_y"@, "0"@));
    let a10 = a9.push(("caret"@, "show_en"@, "true"@));
    let a11 = a10.push(("caret"@, "methods"@, "[\"gui_info\", \"uia_selection\", \"msaa\"]"@));
    let a12 = a11.push(("mouse"@, "enable"@, "true"@));
    let a13 = a12.push(("mouse"@, "color_cn"@, "\"#FF7800A0\""@));
    let a14 = a13.push(("mouse"@, "color_en"@, "\"#0078FF30\""@));
    let a15 = a14.push(("mouse"@, "size"@, "8"@));
    let a16 = a15.push(("mouse"@, "offset_x"@, "2"@));
    let a17 = a16.push(("mouse"@, "offset_y"@, "18"@));
    let a18 = a17.push(("mouse"@, "show_en"@, "true"@));
    let a19 = a18.push(("mouse"@, "target_cursors"@, "[32513, 32512]"@));
    lemma_lookup_push(a0, ("poll"@, "state_interval_ms"@, "100"@));
    lemma_lookup_push(a1, ("poll"@, "track_interval_ms"@, "10"@));
    lemma_lookup_push(a2, ("tray"@, "enable"@, "true"@));
    lemma_lookup_push(a3, ("caret"@, "enable"@, "true"@));
    lemma_lookup_push(a4, ("caret"@, "color_cn"@, "\"#FF7800A0\""@));
    lemma_lookup_push(a5, ("caret"@, "color_en"@, "\"#0078FF30\""@));
    lemma_lookup_push(a6, ("caret"@, "size"@, "8"@));
    lemma_lookup_push(a7, ("caret"@, "offset_x"@, "0"@));
    lemma_lookup_push(a8, ("caret"@, "offset_y"@, "0"@));
    lemma_lookup_push(a9, ("caret"@, "show_en"@, "true"@));
    lemma_lookup_push(a10, ("caret"@, "methods"@, "[\"gui_info\", \"uia_selection\", \"msaa\"]"@));
    lemma_lookup_push(a11, ("mouse"@, "enable"@, "true"@));
    lemma_lookup_push(a12, ("mouse"@, "color_cn"@, "\"#FF7800A0\""@));
    lemma_lookup_push(a13, ("mouse"@, "color_en"@, "\"#0078FF30\""@));
    lemma_lookup_push(a14, ("mouse"@, "size"@, "8"@));
    lemma_lookup_push(a15, ("mouse"@, "offset_x"@, "2"@));
    lemma_lookup_push(a16, ("mouse"@, "offset_y"@, "18"@));
    lemma_lookup_push(a17, ("mouse"@, "show_en"@, "true"@));
    lemma_lookup_push(a18, ("mouse"@, "target_cursors"@, "[32513, 32512]"@));
    // Distinct names differ in length or in some character.
    assert("poll"@.len() == 4);
    assert("tray"@.len() == 4);
    assert("caret"@.len() == 5);
    assert("mouse"@.len() == 5);
    assert("state_interval_ms"@.len() == 17);
    assert("track_interval_ms"@.len() == 17);
    assert("enable"@.len() == 6);
    assert("color_cn"@.len() == 8);
    assert("color_en"@.len() == 8);
    assert("size"@.len() == 4);
    assert("offset_x"@.len() == 8);
    assert("offset_y"@.len() == 8);
    assert("show_en"@.len() == 7);
    assert("methods"@.len() == 7);
    assert("target_cursors"@.len() == 14);
    assert("poll"@[0] != "tray"@[0]);
    assert("poll"@[0] != "size"@[0]);
    assert("tray"@[0] != "size"@[0]);
    assert("caret"@[0] != "mouse"@[0]);
    assert("state_interval_ms"@[0] != "track_interval_ms"@[0]);
    assert("color_cn"@[6] != "color_en"@[6]);
    assert("color_cn"@[0] != "offset_x"@[0]);
    assert("color_cn"@[0] != "offset_y"@[0]);
    assert("color_en"@[0] != "offset_x"@[0]);
    assert("color_en"@[0] != "offset_y"@[0]);
    assert("offset_x"@[7] != "offset_y"@[7]);
    assert("show_en"@[0] != "methods"@[0]);
    // The settings early in the list, found on the way down.
    assert(lookup(a3, "poll"@, "state_interval_ms"@) == Some("100"@));
    assert(lookup(a3, "poll"@, "track_interval_ms"@) == Some("10"@));
    assert(lookup(a3, "tray"@, "enable"@) == Some("true"@));
    assert(lookup(a11, "poll"@, "state_interval_ms"@) == Some("100"@));
    assert(lookup(a11, "poll"@, "track_interval_ms"@) == Some("10"@));
    assert(lookup(a11, "tray"@, "enable"@) == Some("true"@));
    assert(lookup(a11, "caret"@, "enable"@) == Some("true"@));
    assert(lookup(a11, "caret"@, "color_cn"@) == Some("\"#FF7800A0\""@));
    assert(lookup(a11, "caret"@, "color_en"@) == Some("\"#0078FF30\""@));
    assert(lookup(a11, "caret"@, "size"@) == Some("8"@));
    assert(lookup(a11, "caret"@, "offset_x"@) == Some("0"@));
    assert(lookup(a11, "caret"@, "offset_y"@) == Some("0"@));
    assert(lookup(a11, "caret"@, "show_en"@) == Some("true"@));
    assert(a19 =~= template_entries());
}

/// `name` in double quotes, after `lead` blanks, is read as a method name.
proof fn lemma_quoted_item(name: Seq<char>, lead: nat)
    requires
        name.len() > 0,
        forall|q: int| 0 <= q < name.len() ==> ('a' <= #[trigger] name[q] && name[q] <= 'z') || name[q] == '_',
    ensures
        known_lower()(trim_by(trim_ws(spaces(lead) + (seq!['"'] + name + seq!['"'])), Pat::Quote)) == name,
{
    let q = seq!['"'];
    let core = q + name + q;
    assert(core[0] == '"');
    assert(core.last() == '"');
    lemma_trim_start_concat(spaces(lead), core, Pat::Space);
    lemma_trim_end_concat(core, Seq::<char>::empty(), Pat::Space);
    assert(core + Seq::<char>::empty() =~= core);
    assert(trim_ws(spaces(lead) + core) == core);
    assert(core =~= q + (name + q));
    assert((name + q)[0] == name[0]);
    lemma_trim_start_concat(q, name + q, Pat::Quote);
    lemma_trim_end_concat(name, q, Pat::Quote);
    assert(trim_by(core, Pat::Quote) == name);
    lemma_known_lower_fixed(name);
}

/// The template's method list reads as the default methods.
proof fn lemma_template_methods()
    ensures
        method_items_with(
            trim_by("[\"gui_info\", \"uia_selection\", \"msaa\"]"@, Pat::Bracket),
            known_lower(),
        ) == default_methods(),
{
    reveal_strlit("[\"gui_info\", \"uia_selection\", \"msaa\"]");
    reveal_strlit("gui_info");
    reveal_strlit("uia_selection");
    reveal_strlit("msaa");
    let low = known_lower();
    let v = "[\"gui_info\", \"uia_selection\", \"msaa\"]"@;
    let q = seq!['"'];
    let g = "gui_info"@;
    let u = "uia_selection"@;
    let m = "msaa"@;
    let p1 = spaces(0) + (q + g + q);
    let p2 = spaces(1) + (q + u + q);
    let p3 = spaces(1) + (q + m + q);
    let inner = p1 + seq![','] + p2 + seq![','] + p3;
    assert(v =~= seq!['['] + (inner + seq![']']));
    lemma_trim_start_concat(seq!['['], inner + seq![']'], Pat::Bracket);
    assert((inner + seq![']'])[0] == '"');
    lemma_trim_end_concat(inner, seq![']'], Pat::Bracket);
    assert(inner.last() == '"');
    assert(trim_by(v, Pat::Bracket) == inner);
    // First item.
    let r1 = p2 + seq![','] + p3;
    assert(inner =~= p1 + seq![','] + r1);
    assert forall|k: int| 0 <= k < p1.len() implies inner[k] != ',' by {
        assert(inner[k] == p1[k]);
    }
    lemma_char_pos_unique(inner, ',', p1.len() as int);
    assert(inner.subrange(0, p1.len() as int) =~= p1);
    assert(inner.subrange(p1.len() as int + 1, inner.len() as int) =~= r1);
    lemma_quoted_item(g, 0);
    // Second item.
    assert forall|k: int| 0 <= k < p2.len() implies r1[k] != ',' by {
        assert(r1[k] == p2[k]);
    }
    lemma_char_pos_unique(r1, ',', p2.len() as int);
    assert(r1.subrange(0, p2.len() as int) =~= p2);
    assert(r1.subrange(p2.len() as int + 1, r1.len() as int) =~= p3);
    lemma_quoted_item(u, 1);
    // Third item.
    lemma_char_pos_unique(p3, ',', p3.len() as int);
    assert(p3.subrange(0, p3.len() as int) =~= p3);
    lemma_quoted_item(m, 1);
    assert(method_items_with(p3, low) == seq![m]);
    assert(method_items_with(r1, low) == seq![u] + seq![m]);
    assert(method_items_with(inner, low) == seq![g] + (seq![u] + seq![m]));
    assert(seq![g] + (seq![u] + seq![m]) =~= default_methods());
}

/// The template's cursor list reads as the I-beam and the arrow.
proof fn lemma_template_cursors()
    ensures
        cursor_items(trim_by("[32513, 32512]"@, Pat::Bracket)) == seq![32513u32, 32512u32],
{
    reveal_strlit("[32513, 32512]");
    reveal_strlit("32513");
    reveal_strlit("32512");
    let v = "[32513, 32512]"@;
    let a = "32513"@;
    let b = "32512"@;
    let r1 = seq![' '] + b;
    let inner = a + seq![','] + r1;
    assert(v =~= seq!['['] + (inner + seq![']']));
    lemma_trim_start_concat(seq!['['], inner + seq![']'], Pat::Bracket);
    assert((inner + seq![']'])[0] == '3');
    lemma_trim_end_concat(inner, seq![']'], Pat::Bracket);
    assert(trim_by(v, Pat::Bracket) == inner);
    lemma_char_pos_unique(inner, ',', 5);
    assert(inner.subrange(0, 5) =~= a);
    assert(inner.subrange(6, inner.len() as int) =~= r1);
    lemma_trim_ws_fixed(a);
    lemma_char_pos_unique(r1, ',', r1.len() as int);
    assert(r1.subrange(0, r1.len() as int) =~= r1);
    lemma_trim_start_concat(seq![' '], b, Pat::Space);
    lemma_trim_end_concat(b, Seq::<char>::empty(), Pat::Space);
    assert(b + Seq::<char>::empty() =~= b);
    assert(trim_ws(r1) == b);
    reveal_with_fuel(digits_value, 6);
    assert(a.drop_last() =~= seq!['3', '2', '5', '1']);
    assert(b.drop_last() =~= seq!['3', '2', '5', '1']);
    assert(seq!['3', '2', '5', '1'].drop_last() =~= seq!['3', '2', '5']);
    assert(seq!['3', '2', '5'].drop_last() =~= seq!['3', '2']);
    assert(seq!['3', '2'].drop_last() =~= seq!['3']);
    assert(seq!['3'].drop_last() =~= Seq::<char>::empty());
    assert(parse_u32_spec(a) == Some(32513u32));
    assert(parse_u32_spec(b) == Some(32512u32));
    assert(cursor_items(r1) == seq![32512u32]);
    assert(cursor_items(inner) == seq![32513u32] + seq![32512u32]);
    assert(seq![32513u32] + seq![32512u32] =~= seq![32513u32, 32512u32]);
}

/// The template's numbers read as the defaults.
proof fn lemma_template_numbers()
    ensures
        parse_u64_spec("100"@) == Some(100u64),
        parse_u64_spec("10"@) == Some(10u64),
        parse_i32_spec("8"@) == Some(8i32),
        parse_i32_spec("0"@) == Some(0i32),
        parse_i32_spec("2"@) == Some(2i32),
        parse_i32_spec("18"@) == Some(18i32),
{
    reveal_strlit("100");
    reveal_strlit("10");
    reveal_strlit("8");
    reveal_strlit("0");
    reveal_strlit("2");
    reveal_strlit("18");
    reveal_with_fuel(digits_value, 4);
    assert("100"@.drop_last() =~= "10"@);
    assert("10"@.drop_last() =~= seq!['1']);
    assert("18"@.drop_last() =~= seq!['1']);
    assert(seq!['1'].drop_last() =~= Seq::<char>::empty());
}

/// The template's colour for the Chinese state reads as `#FF7800A0`.
proof fn lemma_template_color_cn()
    ensures
        color_defined("\"#FF7800A0\""@),
        color_value("\"#FF7800A0\""@) == 0xA0FF7800u32,
{
    reveal_strlit("FF7800A0");
    reveal_strlit("\"#FF7800A0\"");
    let d = "FF7800A0"@;
    assert forall|i: int| 0 <= i < d.len() implies is_hex_char(#[trigger] d[i]) by {}
    lemma_color_packs_channels(Seq::empty(), d, Seq::empty(), true);
    let q = seq!['"'];
    assert(Seq::<char>::empty() + (q + (seq!['#'] + d) + q) + Seq::<char>::empty() =~= "\"#FF7800A0\""@);
    assert(hex_byte(d[6], d[7]) == 0xA0);
    assert(hex_byte(d[0], d[1]) == 0xFF);
    assert(hex_byte(d[2], d[3]) == 0x78);
    assert(hex_byte(d[4], d[5]) == 0);
    assert((0xA0u32 << 24u32) | (0xFFu32 << 16u32) | (0x78u32 << 8u32) | 0u32 == 0xA0FF7800u32)
        by (bit_vector);
}

/// The template's colour for the English state reads as `#0078FF30`.
proof fn lemma_template_color_en()
    ensures
        color_defined("\"#0078FF30\""@),
        color_value("\"#0078FF30\""@) == 0x300078FFu32,
{
    reveal_strlit("0078FF30");
    reveal_strlit("\"#0078FF30\"");
    let d = "0078FF30"@;
    assert forall|i: int| 0 <= i < d.len() implies is_hex_char(#[trigger] d[i]) by {}
    lemma_color_packs_channels(Seq::empty(), d, Seq::empty(), true);
    let q = seq!['"'];
    assert(Seq::<char>::empty() + (q + (seq!['#'] + d) + q) + Seq::<char>::empty() =~= "\"#0078FF30\""@);
    assert(hex_byte(d[6], d[7]) == 0x30);
    assert(hex_byte(d[0], d[1]) == 0);
    assert(hex_byte(d[2], d[3]) == 0x78);
    assert(hex_byte(d[4], d[5]) == 0xFF);
    assert((0x30u32 << 24u32) | (0u32 << 16u32) | (0x78u32 << 8u32) | 0xFFu32 == 0x300078FFu32)
        by (bit_vector);
}

/// The template that `generate_toml_template` writes reads back as the
/// default settings: each of its colours can be read, and each setting it
/// assigns has its default value. Stated over `known_entries`, which
/// `load_config_text` ensures are the entries it reads from any text, so
/// `load_config_text` on the template returns `Some(c)` with
/// `c@ == default_config()`.
pub proof fn lemma_template_reads_as_defaults()
    ensures
        color_entry_ok(known_entries(template_text()), "caret"@, "color_cn"@),
        color_entry_ok(known_entries(template_text()), "caret"@, "color_en"@),
        color_entry_ok(known_entries(template_text()), "mouse"@, "color_cn"@),
        color_entry_ok(known_entries(template_text()), "mouse"@, "color_en"@),
        config_from_entries_with(known_entries(template_text()), known_lower()) == default_config(),
        config_entries(template_text()) == known_entries(template_text()) ==> text_loadable(
            template_text(),
        ),
{
    let ls = template_lines();
    let low = known_lower();
    lemma_template_lines();
    lemma_scan_lines(ls, 0, Seq::empty(), Seq::empty(), low);
    assert(ls.take(0) =~= Seq::<Seq<char>>::empty());
    assert(lines_prefix(ls, 0).len() == 0);
    let e = known_entries(template_text());
    assert(e == template_entries());
    lemma_template_lookups();
    lemma_template_numbers();
    lemma_template_color_cn();
    lemma_template_color_en();
    lemma_template_methods();
    lemma_template_cursors();
    reveal_strlit("true");
    assert(config_from_entries_with(e, low) =~= default_config());
}

} // verus!
