//! The indicator's configuration: its defaults, the colour notation and the
//! small TOML dialect of `config.toml`.

use vstd::prelude::*;
use vstd::utf8::{encode_utf8, is_char_boundary};
use crate::text::{
    is_ws, lemma_trim_end_concat, lemma_trim_start_concat, pat_matches, skip_start, to_chars, trim_by,
    trim_end_by, trim_span, trim_start_by, trim_ws, Pat,
};
use vstd::utf8::{encode_utf8_valid_utf8, is_ascii_chars, is_ascii_chars_encode_utf8, is_char_boundary_iff_not_is_continuation_byte};

verus! {

// ============================================================================
// Colours
// ============================================================================

/// The value of one hexadecimal digit byte, as `u32::from_str_radix(_, 16)`
/// reads it.
pub open spec fn hex_digit(b: u8) -> Option<u32> {
    if 0x30 <= b && b <= 0x39 {
        Some((b - 0x30) as u32)
    } else if 0x41 <= b && b <= 0x46 {
        Some((b - 0x41 + 10) as u32)
    } else if 0x61 <= b && b <= 0x66 {
        Some((b - 0x61 + 10) as u32)
    } else {
        None
    }
}

/// `u32::from_str_radix(s, 16).ok()` for a string `s` of the two bytes
/// `b0 b1`: both hex digits, or a `+` and one hex digit.
pub open spec fn hex_pair(b0: u8, b1: u8) -> Option<u32> {
    if b0 == 0x2b {
        hex_digit(b1)
    } else {
        match (hex_digit(b0), hex_digit(b1)) {
            (Some(h), Some(l)) => Some((h * 16 + l) as u32),
            _ => None,
        }
    }
}

/// The colour text once cleaned: trimmed, stripped of double quotes at either
/// end, then of leading `#`.
pub open spec fn color_chars(s: Seq<char>) -> Seq<char> {
    trim_start_by(trim_by(trim_ws(s), Pat::Quote), Pat::Hash)
}

/// The UTF-8 bytes of the cleaned colour text; the channels are read from
/// them by byte position.
pub open spec fn color_bytes(s: Seq<char>) -> Seq<u8> {
    encode_utf8(color_chars(s))
}

/// The colour text can be read: when it is six bytes or longer, its byte
/// positions 2, 4 and 6 fall between characters (else slicing it panics).
pub open spec fn color_defined(s: Seq<char>) -> bool {
    let b = color_bytes(s);
    b.len() >= 6 ==> {
        &&& is_char_boundary(b, 2)
        &&& is_char_boundary(b, 4)
        &&& is_char_boundary(b, 6)
    }
}

/// A colour channel: the two bytes at `i` read as hex, or the fallback.
pub open spec fn channel_or(b: Seq<u8>, i: int, fallback: u32) -> u32 {
    match hex_pair(b[i], b[i + 1]) {
        Some(v) => v,
        None => fallback,
    }
}

/// The packed colour `0xAARRGGBB` that `#RRGGBB` or `#RRGGBBAA` denotes.
/// A channel that does not read as hex is 0; alpha is `0xA0` unless the text
/// is exactly eight bytes and its last two read as hex. Text shorter than
/// six bytes gives `0xA0FF7800`. (The sum below equals
/// `(a << 24) | (r << 16) | (g << 8) | b`, each channel being below 256.)
pub open spec fn color_value(s: Seq<char>) -> u32 {
    let b = color_bytes(s);
    if b.len() >= 6 {
        let a = if b.len() == 8 {
            channel_or(b, 6, 0xA0)
        } else {
            0xA0
        };
        (a * 0x100_0000 + channel_or(b, 0, 0) * 0x1_0000 + channel_or(b, 2, 0) * 0x100
            + channel_or(b, 4, 0)) as u32
    } else {
        0xA0FF7800
    }
}

fn hex_digit_of(b: u8) -> (r: Option<u32>)
    ensures
        r == hex_digit(b),
{
    if 0x30 <= b && b <= 0x39 {
        Some((b - 0x30) as u32)
    } else if 0x41 <= b && b <= 0x46 {
        Some((b - 0x41 + 10) as u32)
    } else if 0x61 <= b && b <= 0x66 {
        Some((b - 0x61 + 10) as u32)
    } else {
        None
    }
}

fn hex_pair_of(b0: u8, b1: u8) -> (r: Option<u32>)
    ensures
        r == hex_pair(b0, b1),
        r matches Some(v) ==> v < 256,
{
    if b0 == 0x2b {
        hex_digit_of(b1)
    } else {
        match (hex_digit_of(b0), hex_digit_of(b1)) {
            (Some(h), Some(l)) => Some(h * 16 + l),
            _ => None,
        }
    }
}

fn channel_of(b: &[u8], i: usize, fallback: u32) -> (r: u32)
    requires
        i + 1 < b@.len(),
        fallback < 256,
    ensures
        r == channel_or(b@, i as int, fallback),
        r < 256,
{
    match hex_pair_of(b[i], b[i + 1]) {
        Some(v) => v,
        None => fallback,
    }
}

/// The span of `chars` that `color_chars` keeps.
fn color_span(chars: &Vec<char>) -> (r: (usize, usize))
    ensures
        r.0 <= r.1 <= chars@.len(),
        chars@.subrange(r.0 as int, r.1 as int) == color_chars(chars@),
{
    let n = chars.len();
    assert(chars@.subrange(0, n as int) =~= chars@);
    let (a, b) = trim_span(chars, 0, n, Pat::Space);
    let (a2, b2) = trim_span(chars, a, b, Pat::Quote);
    let a3 = skip_start(chars, a2, b2, Pat::Hash);
    (a3, b2)
}

/// Whether `color_defined(s@)` holds, that is whether the colour parser
/// reads `s` without slicing inside a character.
pub fn color_is_defined(s: &str) -> (r: bool)
    ensures
        r == color_defined(s@),
{
    let chars = to_chars(s);
    let (a, b) = color_span(&chars);
    let clean = s.substring_char(a, b);
    if clean.as_bytes().len() >= 6 {
        clean.is_char_boundary(2) && clean.is_char_boundary(4) && clean.is_char_boundary(6)
    } else {
        true
    }
}

fn color_of(s: &str) -> (r: u32)
    ensures
        r == color_value(s@),
{
    let chars = to_chars(s);
    let (a, b) = color_span(&chars);
    let clean = s.substring_char(a, b);
    let bytes = clean.as_bytes();
    let n = bytes.len();
    if n >= 6 {
        let a = if n == 8 {
            channel_of(bytes, 6, 0xA0)
        } else {
            0xA0
        };
        let r = channel_of(bytes, 0, 0);
        let g = channel_of(bytes, 2, 0);
        let bl = channel_of(bytes, 4, 0);
        a * 0x100_0000 + r * 0x1_0000 + g * 0x100 + bl
    } else {
        0xA0FF7800
    }
}

/// A hexadecimal digit, either case.
pub open spec fn is_hex_char(c: char) -> bool {
    ('0' <= c && c <= '9') || ('a' <= c && c <= 'f') || ('A' <= c && c <= 'F')
}

/// The value of a hexadecimal digit.
pub open spec fn hex_char_value(c: char) -> u32 {
    if '0' <= c && c <= '9' {
        (c as int - '0' as int) as u32
    } else if 'a' <= c && c <= 'f' {
        (c as int - 'a' as int + 10) as u32
    } else {
        (c as int - 'A' as int + 10) as u32
    }
}

/// The byte that two hexadecimal digits write.
pub open spec fn hex_byte(hi: char, lo: char) -> u32 {
    (hex_char_value(hi) * 16 + hex_char_value(lo)) as u32
}

/// `#RRGGBBAA` written with hexadecimal digits of either case, quoted or
/// not, with any blanks around it, is read without a panic as
/// `(AA << 24) | (RR << 16) | (GG << 8) | BB`.
pub proof fn lemma_color_packs_channels(lead: Seq<char>, d: Seq<char>, trail: Seq<char>, quoted: bool)
    requires
        forall|i: int| 0 <= i < lead.len() ==> is_ws(#[trigger] lead[i]),
        forall|i: int| 0 <= i < trail.len() ==> is_ws(#[trigger] trail[i]),
        d.len() == 8,
        forall|i: int| 0 <= i < d.len() ==> is_hex_char(#[trigger] d[i]),
    ensures
        ({
            let body = seq!['#'] + d;
            let core = if quoted {
                seq!['"'] + body + seq!['"']
            } else {
                body
            };
            let s = lead + core + trail;
            &&& color_defined(s)
            &&& color_value(s) == (hex_byte(d[6], d[7]) << 24u32) | (hex_byte(d[0], d[1]) << 16u32) | (
            hex_byte(d[2], d[3]) << 8u32) | hex_byte(d[4], d[5])
        }),
{
    let body = seq!['#'] + d;
    let core = if quoted {
        seq!['"'] + body + seq!['"']
    } else {
        body
    };
    let s = lead + core + trail;
    assert(forall|i: int| 0 <= i < lead.len() ==> pat_matches(Pat::Space, #[trigger] lead[i]));
    assert(forall|i: int| 0 <= i < trail.len() ==> pat_matches(Pat::Space, #[trigger] trail[i]));
    assert(core[0] == '#' || core[0] == '"');
    assert(core.last() == '"' || core.last() == d[7]);
    assert(s =~= lead + (core + trail));
    lemma_trim_start_concat(lead, core + trail, Pat::Space);
    lemma_trim_end_concat(core, trail, Pat::Space);
    assert(trim_ws(s) == core);
    if quoted {
        let q = seq!['"'];
        assert(core =~= q + (body + q));
        lemma_trim_start_concat(q, body + q, Pat::Quote);
        lemma_trim_end_concat(body, q, Pat::Quote);
    } else {
        lemma_trim_start_concat(Seq::<char>::empty(), body, Pat::Quote);
        assert(Seq::<char>::empty() + body =~= body);
        lemma_trim_end_concat(body, Seq::<char>::empty(), Pat::Quote);
        assert(body + Seq::<char>::empty() =~= body);
    }
    assert(trim_by(core, Pat::Quote) == body);
    lemma_trim_start_concat(seq!['#'], d, Pat::Hash);
    assert(color_chars(s) == d);
    assert(is_ascii_chars(d));
    is_ascii_chars_encode_utf8(d);
    let b = encode_utf8(d);
    assert(b.len() == 8);
    encode_utf8_valid_utf8(d);
    is_char_boundary_iff_not_is_continuation_byte(b, 2);
    is_char_boundary_iff_not_is_continuation_byte(b, 4);
    is_char_boundary_iff_not_is_continuation_byte(b, 6);
    assert forall|i: int| 0 <= i < 8 implies hex_digit(#[trigger] b[i]) == Some(hex_char_value(d[i]))
        && b[i] != 0x2b by {
        assert(b[i] == d[i] as u8);
    }
    let a = hex_byte(d[6], d[7]);
    let r = hex_byte(d[0], d[1]);
    let g = hex_byte(d[2], d[3]);
    let bl = hex_byte(d[4], d[5]);
    assert(channel_or(b, 6, 0xA0) == a);
    assert(channel_or(b, 0, 0) == r);
    assert(channel_or(b, 2, 0) == g);
    assert(channel_or(b, 4, 0) == bl);
    assert(a < 256 && r < 256 && g < 256 && bl < 256);
    assert((a * 0x100_0000 + r * 0x1_0000 + g * 0x100 + bl) as u32 == (a << 24u32) | (r << 16u32) | (
    g << 8u32) | bl) by (bit_vector)
        requires
            a < 256 && r < 256 && g < 256 && bl < 256,
    ;
}

/// `#RRGGBB` written with hexadecimal digits of either case, quoted or not,
/// with any blanks around it, is read without a panic as
/// `(0xA0 << 24) | (RR << 16) | (GG << 8) | BB`: the alpha is `0xA0`.
pub proof fn lemma_color_packs_rgb(lead: Seq<char>, d: Seq<char>, trail: Seq<char>, quoted: bool)
    requires
        forall|i: int| 0 <= i < lead.len() ==> is_ws(#[trigger] lead[i]),
        forall|i: int| 0 <= i < trail.len() ==> is_ws(#[trigger] trail[i]),
        d.len() == 6,
        forall|i: int| 0 <= i < d.len() ==> is_hex_char(#[trigger] d[i]),
    ensures
        ({
            let body = seq!['#'] + d;
            let core = if quoted {
                seq!['"'] + body + seq!['"']
            } else {
                body
            };
            let s = lead + core + trail;
            &&& color_defined(s)
            &&& color_value(s) == (0xA0u32 << 24u32) | (hex_byte(d[0], d[1]) << 16u32) | (hex_byte(d[2], d[3])
                << 8u32) | hex_byte(d[4], d[5])
        }),
{
    let body = seq!['#'] + d;
    let core = if quoted {
        seq!['"'] + body + seq!['"']
    } else {
        body
    };
    let s = lead + core + trail;
    assert(forall|i: int| 0 <= i < lead.len() ==> pat_matches(Pat::Space, #[trigger] lead[i]));
    assert(forall|i: int| 0 <= i < trail.len() ==> pat_matches(Pat::Space, #[trigger] trail[i]));
    assert(core[0] == '#' || core[0] == '"');
    assert(core.last() == '"' || core.last() == d[5]);
    assert(s =~= lead + (core + trail));
    lemma_trim_start_concat(lead, core + trail, Pat::Space);
    lemma_trim_end_concat(core, trail, Pat::Space);
    assert(trim_ws(s) == core);
    if quoted {
        let q = seq!['"'];
        assert(core =~= q + (body + q));
        lemma_trim_start_concat(q, body + q, Pat::Quote);
        lemma_trim_end_concat(body, q, Pat::Quote);
    } else {
        lemma_trim_start_concat(Seq::<char>::empty(), body, Pat::Quote);
        assert(Seq::<char>::empty() + body =~= body);
        lemma_trim_end_concat(body, Seq::<char>::empty(), Pat::Quote);
        assert(body + Seq::<char>::empty() =~= body);
    }
    assert(trim_by(core, Pat::Quote) == body);
    lemma_trim_start_concat(seq!['#'], d, Pat::Hash);
    assert(color_chars(s) == d);
    assert(is_ascii_chars(d));
    is_ascii_chars_encode_utf8(d);
    let b = encode_utf8(d);
    assert(b.len() == 6);
    encode_utf8_valid_utf8(d);
    is_char_boundary_iff_not_is_continuation_byte(b, 2);
    is_char_boundary_iff_not_is_continuation_byte(b, 4);
    vstd::utf8::is_char_boundary_start_end_of_seq(b);
    assert(is_char_boundary(b, 6));
    assert forall|i: int| 0 <= i < 6 implies hex_digit(#[trigger] b[i]) == Some(hex_char_value(d[i]))
        && b[i] != 0x2b by {
        assert(b[i] == d[i] as u8);
    }
    let a: u32 = 0xA0;
    let r = hex_byte(d[0], d[1]);
    let g = hex_byte(d[2], d[3]);
    let bl = hex_byte(d[4], d[5]);
    assert(channel_or(b, 0, 0) == r);
    assert(channel_or(b, 2, 0) == g);
    assert(channel_or(b, 4, 0) == bl);
    assert(a < 256 && r < 256 && g < 256 && bl < 256);
    assert((a * 0x100_0000 + r * 0x1_0000 + g * 0x100 + bl) as u32 == (a << 24u32) | (r << 16u32) | (
    g << 8u32) | bl) by (bit_vector)
        requires
            a < 256 && r < 256 && g < 256 && bl < 256,
    ;
}

/// Colour text shorter than six digits, quoted or not, with any blanks
/// around it, is read without a panic as the default orange `0xA0FF7800`.
pub proof fn lemma_short_color_is_orange(lead: Seq<char>, d: Seq<char>, trail: Seq<char>, quoted: bool)
    requires
        forall|i: int| 0 <= i < lead.len() ==> is_ws(#[trigger] lead[i]),
        forall|i: int| 0 <= i < trail.len() ==> is_ws(#[trigger] trail[i]),
        0 < d.len() < 6,
        forall|i: int| 0 <= i < d.len() ==> is_hex_char(#[trigger] d[i]),
    ensures
        ({
            let body = seq!['#'] + d;
            let core = if quoted {
                seq!['"'] + body + seq!['"']
            } else {
                body
            };
            let s = lead + core + trail;
            &&& color_defined(s)
            &&& color_value(s) == 0xA0FF7800u32
        }),
{
    let body = seq!['#'] + d;
    let core = if quoted {
        seq!['"'] + body + seq!['"']
    } else {
        body
    };
    let s = lead + core + trail;
    assert(forall|i: int| 0 <= i < lead.len() ==> pat_matches(Pat::Space, #[trigger] lead[i]));
    assert(forall|i: int| 0 <= i < trail.len() ==> pat_matches(Pat::Space, #[trigger] trail[i]));
    assert(core[0] == '#' || core[0] == '"');
    assert(core.last() == '"' || core.last() == d[d.len() - 1]);
    assert(s =~= lead + (core + trail));
    lemma_trim_start_concat(lead, core + trail, Pat::Space);
    lemma_trim_end_concat(core, trail, Pat::Space);
    if quoted {
        let q = seq!['"'];
        assert(core =~= q + (body + q));
        lemma_trim_start_concat(q, body + q, Pat::Quote);
        lemma_trim_end_concat(body, q, Pat::Quote);
    } else {
        lemma_trim_start_concat(Seq::<char>::empty(), body, Pat::Quote);
        assert(Seq::<char>::empty() + body =~= body);
        lemma_trim_end_concat(body, Seq::<char>::empty(), Pat::Quote);
        assert(body + Seq::<char>::empty() =~= body);
    }
    lemma_trim_start_concat(seq!['#'], d, Pat::Hash);
    assert(color_chars(s) == d);
    assert(is_ascii_chars(d));
    is_ascii_chars_encode_utf8(d);
}

/// Two hexadecimal digits (either case) read as the byte they write; a `+`
/// and one digit read as that digit; a pair with a byte that is neither a
/// hexadecimal digit nor a leading `+` reads as nothing.
pub proof fn lemma_hex_pairs(c0: char, c1: char, b: u8)
    requires
        is_hex_char(c0),
        is_hex_char(c1),
        !(0x30 <= b <= 0x39 || 0x41 <= b <= 0x46 || 0x61 <= b <= 0x66),
    ensures
        hex_pair(c0 as u8, c1 as u8) == Some(hex_byte(c0, c1)),
        hex_pair(0x2b, c1 as u8) == Some(hex_char_value(c1)),
        hex_pair(c0 as u8, b) is None,
        b != 0x2b ==> hex_pair(b, c1 as u8) is None,
{
}

/// Reading a colour from text.
pub trait ConfigParseExt {
    /// The text can be read without a panic.
    spec fn color_parse_defined(&self) -> bool;

    /// The colour that the text denotes.
    spec fn color_parse_value(&self) -> u32;

    /// Reads `#RRGGBB` or `#RRGGBBAA` (quotes, spaces and `#` optional) as a
    /// packed `0xAARRGGBB`.
    fn parse_color(&self) -> (r: u32)
        requires
            self.color_parse_defined(),
        ensures
            r == self.color_parse_value(),
    ;
}

impl ConfigParseExt for str {
    open spec fn color_parse_defined(&self) -> bool {
        color_defined(self@)
    }

    open spec fn color_parse_value(&self) -> u32 {
        color_value(self@)
    }

    fn parse_color(&self) -> (r: u32) {
        color_of(self)
    }
}

/// Reads a colour: see `color_value`.
pub fn parse_color(s: &str) -> (r: u32)
    requires
        color_defined(s@),
    ensures
        r == color_value(s@),
{
    s.parse_color()
}

// ============================================================================
// Settings
// ============================================================================

/// The check that the `uia_selection` caret level makes of the focused
/// element: it takes text input only when its control type is `Edit` (a web
/// page body is a `Document` with a text selection but takes no input). The
/// check is fixed; no setting chooses it.
#[derive(Debug, Clone, Copy, PartialEq, Eq, Structural)]
pub enum EditableCheck {
    /// Only an `Edit` element is accepted.
    EditOnly,
}

/// All settings of the indicator.
pub struct Config {
    pub poll_state_interval_ms: u64,
    pub poll_track_interval_ms: u64,
    pub tray_enable: bool,
    pub caret_enable: bool,
    pub caret_color_cn: u32,
    pub caret_color_en: u32,
    pub caret_size: i32,
    pub caret_offset_x: i32,
    pub caret_offset_y: i32,
    pub caret_show_en: bool,
    pub caret_methods: Vec<String>,
    pub mouse_enable: bool,
    pub mouse_color_cn: u32,
    pub mouse_color_en: u32,
    pub mouse_size: i32,
    pub mouse_offset_x: i32,
    pub mouse_offset_y: i32,
    pub mouse_show_en: bool,
    pub mouse_target_cursors: Vec<u32>,
}

/// The settings as values: strings as character sequences.
#[verifier::ext_equal]
pub struct ConfigView {
    pub poll_state_interval_ms: u64,
    pub poll_track_interval_ms: u64,
    pub tray_enable: bool,
    pub caret_enable: bool,
    pub caret_color_cn: u32,
    pub caret_color_en: u32,
    pub caret_size: i32,
    pub caret_offset_x: i32,
    pub caret_offset_y: i32,
    pub caret_show_en: bool,
    pub caret_methods: Seq<Seq<char>>,
    pub mouse_enable: bool,
    pub mouse_color_cn: u32,
    pub mouse_color_en: u32,
    pub mouse_size: i32,
    pub mouse_offset_x: i32,
    pub mouse_offset_y: i32,
    pub mouse_show_en: bool,
    pub mouse_target_cursors: Seq<u32>,
}

pub open spec fn strings_view(v: Seq<String>) -> Seq<Seq<char>> {
    v.map_values(|s: String| s@)
}

impl View for Config {
    type V = ConfigView;

    open spec fn view(&self) -> ConfigView {
        ConfigView {
            poll_state_interval_ms: self.poll_state_interval_ms,
            poll_track_interval_ms: self.poll_track_interval_ms,
            tray_enable: self.tray_enable,
            caret_enable: self.caret_enable,
            caret_color_cn: self.caret_color_cn,
            caret_color_en: self.caret_color_en,
            caret_size: self.caret_size,
            caret_offset_x: self.caret_offset_x,
            caret_offset_y: self.caret_offset_y,
            caret_show_en: self.caret_show_en,
            caret_methods: strings_view(self.caret_methods@),
            mouse_enable: self.mouse_enable,
            mouse_color_cn: self.mouse_color_cn,
            mouse_color_en: self.mouse_color_en,
            mouse_size: self.mouse_size,
            mouse_offset_x: self.mouse_offset_x,
            mouse_offset_y: self.mouse_offset_y,
            mouse_show_en: self.mouse_show_en,
            mouse_target_cursors: self.mouse_target_cursors@,
        }
    }
}

/// The caret detection levels tried when the file names none.
pub open spec fn default_methods() -> Seq<Seq<char>> {
    seq!["gui_info"@, "uia_selection"@, "msaa"@]
}

/// The defaults: `0xA0FF7800` is the colour `#FF7800A0`, `0x300078FF` is
/// `#0078FF30`; cursors 32513 and 32512 are the I-beam and the arrow.
pub open spec fn default_config() -> ConfigView {
    ConfigView {
        poll_state_interval_ms: 100,
        poll_track_interval_ms: 10,
        tray_enable: true,
        caret_enable: true,
        caret_color_cn: 0xA0FF7800,
        caret_color_en: 0x300078FF,
        caret_size: 8,
        caret_offset_x: 0,
        caret_offset_y: 0,
        caret_show_en: true,
        caret_methods: default_methods(),
        mouse_enable: true,
        mouse_color_cn: 0xA0FF7800,
        mouse_color_en: 0x300078FF,
        mouse_size: 8,
        mouse_offset_x: 2,
        mouse_offset_y: 18,
        mouse_show_en: true,
        mouse_target_cursors: seq![32513u32, 32512u32],
    }
}

fn default_method_list() -> (r: Vec<String>)
    ensures
        strings_view(r@) == default_methods(),
{
    let r = vec![String::from_str("gui_info"), String::from_str("uia_selection"), String::from_str("msaa")];
    assert(strings_view(r@) =~= default_methods());
    r
}

impl Default for Config {
    fn default() -> (c: Self)
        ensures
            c@ == default_config(),
    {
        let c = Config {
            poll_state_interval_ms: 100,
            poll_track_interval_ms: 10,
            tray_enable: true,
            caret_enable: true,
            caret_color_cn: 0xA0FF7800,
            caret_color_en: 0x300078FF,
            caret_size: 8,
            caret_offset_x: 0,
            caret_offset_y: 0,
            caret_show_en: true,
            caret_methods: default_method_list(),
                mouse_enable: true,
            mouse_color_cn: 0xA0FF7800,
            mouse_color_en: 0x300078FF,
            mouse_size: 8,
            mouse_offset_x: 2,
            mouse_offset_y: 18,
            mouse_show_en: true,
            mouse_target_cursors: vec![32513, 32512],
        };
        assert(c@.mouse_target_cursors =~= seq![32513u32, 32512u32]);
        c
    }
}

/// `' '` repeated `n` times.
pub open spec fn spaces(n: nat) -> Seq<char> {
    Seq::new(n, |i: int| ' ')
}

/// A `key = value` line, the value padded with `pad` spaces before the
/// comment (which may be empty).
pub open spec fn setting_line(key: Seq<char>, value: Seq<char>, pad: nat, comment: Seq<char>) -> Seq<char> {
    key + seq![' ', '=', ' '] + value + spaces(pad) + comment
}

/// A `[name]` line.
pub open spec fn section_line(name: Seq<char>) -> Seq<char> {
    seq!['['] + name + seq![']']
}

/// Lines, each ended by `'\n'`.
pub open spec fn join_lines(ls: Seq<Seq<char>>) -> Seq<char>
    decreases ls.len(),
{
    if ls.len() == 0 {
        Seq::empty()
    } else {
        join_lines(ls.drop_last()) + ls.last() + seq!['\n']
    }
}

/// The lines of the commented `config.toml` written when none exists; they
/// spell out the defaults (`template::lemma_template_reads_as_defaults`).
pub open spec fn template_lines() -> Seq<Seq<char>> {
    seq![
        "# 输入指示器 (IME Indicator) 配置文件"@,
        section_line("poll"@),
        setting_line("state_interval_ms"@, "100"@, 3, "# 状态检测间隔 (ms)"@),
        setting_line("track_interval_ms"@, "10"@, 4, "# 位置追踪间隔 (ms)"@),
        ""@,
        section_line("tray"@),
        setting_line("enable"@, "true"@, 15, "# 是否显示托盘图标 (false 时完全后台运行，只能通过任务管理器结束)"@),
        ""@,
        section_line("caret"@),
        setting_line("enable"@, "true"@, 15, "# 是否启用文本光标提示"@),
        setting_line("color_cn"@, "\"#FF7800A0\""@, 4, "# 中文状态颜色 (#RRGGBBAA)"@),
        setting_line("color_en"@, "\"#0078FF30\""@, 4, "# 英文状态颜色"@),
        setting_line("size"@, "8"@, 20, "# 提示球大小"@),
        setting_line("offset_x"@, "0"@, 0, ""@),
        setting_line("offset_y"@, "0"@, 0, ""@),
        setting_line("show_en"@, "true"@, 14, "# 英文状态下是否显示"@),
        "# 光标检测方法及落级顺序（可删减、可调序）"@,
        "# 可选: gui_info(记事本等原生) uia_selection(浏览器/VS Code) msaa(浏览器 caret 对象)"@,
        setting_line("methods"@, "[\"gui_info\", \"uia_selection\", \"msaa\"]"@, 0, ""@),
        ""@,
        section_line("mouse"@),
        setting_line("enable"@, "true"@, 15, "# 是否开启鼠标提示"@),
        setting_line("color_cn"@, "\"#FF7800A0\""@, 4, "# 中文状态颜色"@),
        setting_line("color_en"@, "\"#0078FF30\""@, 4, "# 英文状态颜色"@),
        setting_line("size"@, "8"@, 20, "# 提示球大小"@),
        setting_line("offset_x"@, "2"@, 0, ""@),
        setting_line("offset_y"@, "18"@, 0, ""@),
        setting_line("show_en"@, "true"@, 14, "# 英文状态下是否显示"@),
        setting_line("target_cursors"@, "[32513, 32512]"@, 2, "# I-Beam, Normal"@),
    ]
}

/// The text of the template.
pub open spec fn template_text() -> Seq<char> {
    join_lines(template_lines())
}

fn push_line(t: &mut String, line: &str)
    ensures
        final(t)@ == old(t)@ + line@ + seq!['\n'],
{
    proof {
        reveal_strlit("\n");
    }
    t.append(line);
    t.append("\n");
}

fn push_section(t: &mut String, name: &str)
    ensures
        final(t)@ == old(t)@ + section_line(name@) + seq!['\n'],
{
    proof {
        reveal_strlit("[");
        reveal_strlit("]");
        reveal_strlit("\n");
    }
    let ghost start = t@;
    t.append("[");
    t.append(name);
    t.append("]");
    t.append("\n");
    assert(t@ =~= start + section_line(name@) + seq!['\n']);
}

fn push_setting(t: &mut String, key: &str, value: &str, pad: usize, comment: &str)
    ensures
        final(t)@ == old(t)@ + setting_line(key@, value@, pad as nat, comment@) + seq!['\n'],
{
    proof {
        reveal_strlit(" = ");
        reveal_strlit(" ");
        reveal_strlit("\n");
    }
    let ghost start = t@;
    t.append(key);
    t.append(" = ");
    t.append(value);
    let ghost mid = t@;
    let mut i: usize = 0;
    while i < pad
        invariant
            i <= pad,
            t@ == mid + spaces(i as nat),
        decreases pad - i,
    {
        proof {
            reveal_strlit(" ");
        }
        t.append(" ");
        assert(spaces((i + 1) as nat) =~= spaces(i as nat).push(' '));
        i = i + 1;
        assert(t@ =~= mid + spaces(i as nat));
    }
    t.append(comment);
    t.append("\n");
    assert(t@ =~= start + setting_line(key@, value@, pad as nat, comment@) + seq!['\n']);
}

/// The template's text as a `String`.
pub fn generate_toml_template() -> (r: String)
    ensures
        r@ == template_text(),
{
    let ghost ls = template_lines();
    let mut t = String::new();
    assert(t@ =~= join_lines(ls.take(0)));
    push_line(&mut t, "# 输入指示器 (IME Indicator) 配置文件");
    assert(ls.take(1).drop_last() =~= ls.take(0));
    assert(t@ =~= join_lines(ls.take(1)));
    push_section(&mut t, "poll");
    assert(ls.take(2).drop_last() =~= ls.take(1));
    assert(t@ =~= join_lines(ls.take(2)));
    push_setting(&mut t, "state_interval_ms", "100", 3, "# 状态检测间隔 (ms)");
    assert(ls.take(3).drop_last() =~= ls.take(2));
    assert(t@ =~= join_lines(ls.take(3)));
    push_setting(&mut t, "track_interval_ms", "10", 4, "# 位置追踪间隔 (ms)");
    assert(ls.take(4).drop_last() =~= ls.take(3));
    assert(t@ =~= join_lines(ls.take(4)));
    push_line(&mut t, "");
    assert(ls.take(5).drop_last() =~= ls.take(4));
    assert(t@ =~= join_lines(ls.take(5)));
    push_section(&mut t, "tray");
    assert(ls.take(6).drop_last() =~= ls.take(5));
    assert(t@ =~= join_lines(ls.take(6)));
    push_setting(&mut t, "enable", "true", 15, "# 是否显示托盘图标 (false 时完全后台运行，只能通过任务管理器结束)");
    assert(ls.take(7).drop_last() =~= ls.take(6));
    assert(t@ =~= join_lines(ls.take(7)));
    push_line(&mut t, "");
    assert(ls.take(8).drop_last() =~= ls.take(7));
    assert(t@ =~= join_lines(ls.take(8)));
    push_section(&mut t, "caret");
    assert(ls.take(9).drop_last() =~= ls.take(8));
    assert(t@ =~= join_lines(ls.take(9)));
    push_setting(&mut t, "enable", "true", 15, "# 是否启用文本光标提示");
    assert(ls.take(10).drop_last() =~= ls.take(9));
    assert(t@ =~= join_lines(ls.take(10)));
    push_setting(&mut t, "color_cn", "\"#FF7800A0\"", 4, "# 中文状态颜色 (#RRGGBBAA)");
    assert(ls.take(11).drop_last() =~= ls.take(10));
    assert(t@ =~= join_lines(ls.take(11)));
    push_setting(&mut t, "color_en", "\"#0078FF30\"", 4, "# 英文状态颜色");
    assert(ls.take(12).drop_last() =~= ls.take(11));
    assert(t@ =~= join_lines(ls.take(12)));
    push_setting(&mut t, "size", "8", 20, "# 提示球大小");
    assert(ls.take(13).drop_last() =~= ls.take(12));
    assert(t@ =~= join_lines(ls.take(13)));
    push_setting(&mut t, "offset_x", "0", 0, "");
    assert(ls.take(14).drop_last() =~= ls.take(13));
    assert(t@ =~= join_lines(ls.take(14)));
    push_setting(&mut t, "offset_y", "0", 0, "");
    assert(ls.take(15).drop_last() =~= ls.take(14));
    assert(t@ =~= join_lines(ls.take(15)));
    push_setting(&mut t, "show_en", "true", 14, "# 英文状态下是否显示");
    assert(ls.take(16).drop_last() =~= ls.take(15));
    assert(t@ =~= join_lines(ls.take(16)));
    push_line(&mut t, "# 光标检测方法及落级顺序（可删减、可调序）");
    assert(ls.take(17).drop_last() =~= ls.take(16));
    assert(t@ =~= join_lines(ls.take(17)));
    push_line(&mut t, "# 可选: gui_info(记事本等原生) uia_selection(浏览器/VS Code) msaa(浏览器 caret 对象)");
    assert(ls.take(18).drop_last() =~= ls.take(17));
    assert(t@ =~= join_lines(ls.take(18)));
    push_setting(&mut t, "methods", "[\"gui_info\", \"uia_selection\", \"msaa\"]", 0, "");
    assert(ls.take(19).drop_last() =~= ls.take(18));
    assert(t@ =~= join_lines(ls.take(19)));
    push_line(&mut t, "");
    assert(ls.take(20).drop_last() =~= ls.take(19));
    assert(t@ =~= join_lines(ls.take(20)));
    push_section(&mut t, "mouse");
    assert(ls.take(21).drop_last() =~= ls.take(20));
    assert(t@ =~= join_lines(ls.take(21)));
    push_setting(&mut t, "enable", "true", 15, "# 是否开启鼠标提示");
    assert(ls.take(22).drop_last() =~= ls.take(21));
    assert(t@ =~= join_lines(ls.take(22)));
    push_setting(&mut t, "color_cn", "\"#FF7800A0\"", 4, "# 中文状态颜色");
    assert(ls.take(23).drop_last() =~= ls.take(22));
    assert(t@ =~= join_lines(ls.take(23)));
    push_setting(&mut t, "color_en", "\"#0078FF30\"", 4, "# 英文状态颜色");
    assert(ls.take(24).drop_last() =~= ls.take(23));
    assert(t@ =~= join_lines(ls.take(24)));
    push_setting(&mut t, "size", "8", 20, "# 提示球大小");
    assert(ls.take(25).drop_last() =~= ls.take(24));
    assert(t@ =~= join_lines(ls.take(25)));
    push_setting(&mut t, "offset_x", "2", 0, "");
    assert(ls.take(26).drop_last() =~= ls.take(25));
    assert(t@ =~= join_lines(ls.take(26)));
    push_setting(&mut t, "offset_y", "18", 0, "");
    assert(ls.take(27).drop_last() =~= ls.take(26));
    assert(t@ =~= join_lines(ls.take(27)));
    push_setting(&mut t, "show_en", "true", 14, "# 英文状态下是否显示");
    assert(ls.take(28).drop_last() =~= ls.take(27));
    assert(t@ =~= join_lines(ls.take(28)));
    push_setting(&mut t, "target_cursors", "[32513, 32512]", 2, "# I-Beam, Normal");
    assert(ls.take(29).drop_last() =~= ls.take(28));
    assert(t@ =~= join_lines(ls.take(29)));
    assert(ls.take(29) =~= ls);
    t
}

// ============================================================================
// Accessors
// ============================================================================

pub fn state_poll_interval_ms(config: &Config) -> (r: u64)
    ensures
        r == config.poll_state_interval_ms,
{
    config.poll_state_interval_ms
}

pub fn track_poll_interval_ms(config: &Config) -> (r: u64)
    ensures
        r == config.poll_track_interval_ms,
{
    config.poll_track_interval_ms
}

pub fn tray_enable(config: &Config) -> (r: bool)
    ensures
        r == config.tray_enable,
{
    config.tray_enable
}

pub fn caret_enable(config: &Config) -> (r: bool)
    ensures
        r == config.caret_enable,
{
    config.caret_enable
}

pub fn caret_color_cn(config: &Config) -> (r: u32)
    ensures
        r == config.caret_color_cn,
{
    config.caret_color_cn
}

pub fn caret_color_en(config: &Config) -> (r: u32)
    ensures
        r == config.caret_color_en,
{
    config.caret_color_en
}

pub fn caret_size(config: &Config) -> (r: i32)
    ensures
        r == config.caret_size,
{
    config.caret_size
}

pub fn caret_offset_x(config: &Config) -> (r: i32)
    ensures
        r == config.caret_offset_x,
{
    config.caret_offset_x
}

pub fn caret_offset_y(config: &Config) -> (r: i32)
    ensures
        r == config.caret_offset_y,
{
    config.caret_offset_y
}

pub fn caret_show_en(config: &Config) -> (r: bool)
    ensures
        r == config.caret_show_en,
{
    config.caret_show_en
}

/// The editability check of the caret level, which is always `EditOnly`.
pub fn caret_editable_check(config: &Config) -> (r: EditableCheck)
    ensures
        r == EditableCheck::EditOnly,
{
    EditableCheck::EditOnly
}

pub fn mouse_enable(config: &Config) -> (r: bool)
    ensures
        r == config.mouse_enable,
{
    config.mouse_enable
}

pub fn mouse_color_cn(config: &Config) -> (r: u32)
    ensures
        r == config.mouse_color_cn,
{
    config.mouse_color_cn
}

pub fn mouse_color_en(config: &Config) -> (r: u32)
    ensures
        r == config.mouse_color_en,
{
    config.mouse_color_en
}

pub fn mouse_size(config: &Config) -> (r: i32)
    ensures
        r == config.mouse_size,
{
    config.mouse_size
}

pub fn mouse_offset_x(config: &Config) -> (r: i32)
    ensures
        r == config.mouse_offset_x,
{
    config.mouse_offset_x
}

pub fn mouse_offset_y(config: &Config) -> (r: i32)
    ensures
        r == config.mouse_offset_y,
{
    config.mouse_offset_y
}

pub fn mouse_show_en(config: &Config) -> (r: bool)
    ensures
        r == config.mouse_show_en,
{
    config.mouse_show_en
}

pub fn caret_methods(config: &Config) -> (r: &[String])
    ensures
        r@ == config.caret_methods@,
{
    config.caret_methods.as_slice()
}

pub fn mouse_target_cursors(config: &Config) -> (r: &[u32])
    ensures
        r@ == config.mouse_target_cursors@,
{
    config.mouse_target_cursors.as_slice()
}

} // verus!
