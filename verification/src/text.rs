//! Character-level helpers shared by the configuration reader: whitespace,
//! trimming, searching and comparing, all over `Seq<char>` views.

use vstd::prelude::*;

verus! {

/// The Unicode `White_Space` property, which `char::is_whitespace` tests.
pub open spec fn is_ws(c: char) -> bool {
    ||| ('\u{9}' <= c && c <= '\u{d}')
    ||| c == ' '
    ||| c == '\u{85}'
    ||| c == '\u{a0}'
    ||| c == '\u{1680}'
    ||| ('\u{2000}' <= c && c <= '\u{200a}')
    ||| c == '\u{2028}'
    ||| c == '\u{2029}'
    ||| c == '\u{202f}'
    ||| c == '\u{205f}'
    ||| c == '\u{3000}'
}

/// What a trim removes from the ends of a string.
#[derive(Clone, Copy, PartialEq, Eq, Structural)]
pub enum Pat {
    /// Unicode whitespace (`str::trim`).
    Space,
    /// The double quote (`trim_matches('"')`).
    Quote,
    /// The number sign (`trim_start_matches('#')`).
    Hash,
    /// Either square bracket (`trim_matches(|c| c == '[' || c == ']')`).
    Bracket,
}

pub open spec fn pat_matches(p: Pat, c: char) -> bool {
    match p {
        Pat::Space => is_ws(c),
        Pat::Quote => c == '"',
        Pat::Hash => c == '#',
        Pat::Bracket => c == '[' || c == ']',
    }
}

/// Tests `pat_matches`.
pub fn pat_test(p: Pat, c: char) -> (r: bool)
    ensures
        r == pat_matches(p, c),
{
    match p {
        Pat::Space => {
            ('\u{9}' <= c && c <= '\u{d}') || c == ' ' || c == '\u{85}' || c == '\u{a0}' || c
                == '\u{1680}' || ('\u{2000}' <= c && c <= '\u{200a}') || c == '\u{2028}' || c
                == '\u{2029}' || c == '\u{202f}' || c == '\u{205f}' || c == '\u{3000}'
        },
        Pat::Quote => c == '"',
        Pat::Hash => c == '#',
        Pat::Bracket => c == '[' || c == ']',
    }
}

/// `s` without the leading characters that match `p`.
pub open spec fn trim_start_by(s: Seq<char>, p: Pat) -> Seq<char>
    decreases s.len(),
{
    if s.len() > 0 && pat_matches(p, s[0]) {
        trim_start_by(s.drop_first(), p)
    } else {
        s
    }
}

/// `s` without the trailing characters that match `p`.
pub open spec fn trim_end_by(s: Seq<char>, p: Pat) -> Seq<char>
    decreases s.len(),
{
    if s.len() > 0 && pat_matches(p, s.last()) {
        trim_end_by(s.drop_last(), p)
    } else {
        s
    }
}

/// `s` without the characters that match `p` at either end.
pub open spec fn trim_by(s: Seq<char>, p: Pat) -> Seq<char> {
    trim_end_by(trim_start_by(s, p), p)
}

/// `str::trim`.
pub open spec fn trim_ws(s: Seq<char>) -> Seq<char> {
    trim_by(s, Pat::Space)
}

/// Position of the first `c` in `s`, or `s.len()` when there is none.
pub open spec fn char_pos(s: Seq<char>, c: char) -> int
    decreases s.len(),
{
    if s.len() == 0 {
        0
    } else if s[0] == c {
        0
    } else {
        1 + char_pos(s.drop_first(), c)
    }
}

/// Position of the first `" #"` in `s`, or `s.len()` when there is none.
pub open spec fn comment_pos(s: Seq<char>) -> int
    decreases s.len(),
{
    if s.len() < 2 {
        s.len() as int
    } else if s[0] == ' ' && s[1] == '#' {
        0
    } else {
        1 + comment_pos(s.drop_first())
    }
}

/// What `str::to_lowercase` returns: the string under the Unicode
/// `Lowercase` mapping. Most characters map alone; a final `Σ` maps by its
/// context.
pub uninterp spec fn lowercase(s: Seq<char>) -> Seq<char>;

/// `char::to_ascii_lowercase`: `A`..`Z` to `a`..`z`, every other character
/// unchanged.
pub open spec fn ascii_lower(c: char) -> char {
    if 'A' <= c && c <= 'Z' {
        ((c as int) + 32) as char
    } else {
        c
    }
}

/// Calls `str::to_lowercase`. Its result is named `lowercase` (the Unicode
/// tables are not stated). The one fact stated is for ASCII text: among
/// ASCII characters only `A`..`Z` have a lowercase mapping (to `a`..`z`);
/// `char::to_lowercase` documents that a character without one maps to
/// itself, and the only context rule concerns `Σ`.
#[verifier::external_body]
pub(crate) fn to_lowercase(s: &str) -> (r: String)
    ensures
        r@ == lowercase(s@),
        vstd::utf8::is_ascii_chars(s@) ==> r@ == s@.map_values(|c: char| ascii_lower(c)),
{
    s.to_lowercase()
}

/// Trimming `p` off the front of `x + y` leaves `y` when every character of
/// `x` matches and the first of `y` does not.
pub proof fn lemma_trim_start_concat(x: Seq<char>, y: Seq<char>, p: Pat)
    requires
        forall|i: int| 0 <= i < x.len() ==> pat_matches(p, #[trigger] x[i]),
        y.len() > 0 ==> !pat_matches(p, y[0]),
    ensures
        trim_start_by(x + y, p) == y,
    decreases x.len(),
{
    if x.len() == 0 {
        assert(x + y =~= y);
    } else {
        assert((x + y)[0] == x[0]);
        assert((x + y).drop_first() =~= x.drop_first() + y);
        assert forall|i: int| 0 <= i < x.drop_first().len() implies pat_matches(
            p,
            #[trigger] x.drop_first()[i],
        ) by {
            assert(x.drop_first()[i] == x[i + 1]);
        }
        lemma_trim_start_concat(x.drop_first(), y, p);
    }
}

/// Trimming `p` off the back of `y + z` leaves `y` when every character of
/// `z` matches and the last of `y` does not.
pub proof fn lemma_trim_end_concat(y: Seq<char>, z: Seq<char>, p: Pat)
    requires
        forall|i: int| 0 <= i < z.len() ==> pat_matches(p, #[trigger] z[i]),
        y.len() > 0 ==> !pat_matches(p, y.last()),
    ensures
        trim_end_by(y + z, p) == y,
    decreases z.len(),
{
    if z.len() == 0 {
        assert(y + z =~= y);
    } else {
        assert((y + z).last() == z.last());
        assert((y + z).drop_last() =~= y + z.drop_last());
        assert forall|i: int| 0 <= i < z.drop_last().len() implies pat_matches(
            p,
            #[trigger] z.drop_last()[i],
        ) by {
            assert(z.drop_last()[i] == z[i]);
        }
        lemma_trim_end_concat(y, z.drop_last(), p);
    }
}

/// Every character that a trim leaves was in the trimmed text.
pub proof fn lemma_trim_keeps_chars(x: Seq<char>, p: Pat, q: spec_fn(char) -> bool)
    requires
        forall|i: int| 0 <= i < x.len() ==> q(#[trigger] x[i]),
    ensures
        forall|i: int| 0 <= i < trim_start_by(x, p).len() ==> q(#[trigger] trim_start_by(x, p)[i]),
        forall|i: int| 0 <= i < trim_end_by(x, p).len() ==> q(#[trigger] trim_end_by(x, p)[i]),
    decreases x.len(),
{
    if x.len() > 0 {
        let a = x.drop_first();
        let b = x.drop_last();
        assert forall|i: int| 0 <= i < a.len() implies q(#[trigger] a[i]) by {
            assert(a[i] == x[i + 1]);
        }
        assert forall|i: int| 0 <= i < b.len() implies q(#[trigger] b[i]) by {
            assert(b[i] == x[i]);
        }
        lemma_trim_keeps_chars(a, p, q);
        lemma_trim_keeps_chars(b, p, q);
        if pat_matches(p, x[0]) {
            assert(trim_start_by(x, p) == trim_start_by(a, p));
        } else {
            assert(trim_start_by(x, p) == x);
        }
        if pat_matches(p, x.last()) {
            assert(trim_end_by(x, p) == trim_end_by(b, p));
        } else {
            assert(trim_end_by(x, p) == x);
        }
    }
}

pub proof fn lemma_char_pos(s: Seq<char>, c: char)
    ensures
        0 <= char_pos(s, c) <= s.len(),
        forall|k: int| 0 <= k < char_pos(s, c) ==> s[k] != c,
        char_pos(s, c) < s.len() ==> s[char_pos(s, c)] == c,
    decreases s.len(),
{
    if s.len() > 0 && s[0] != c {
        lemma_char_pos(s.drop_first(), c);
        assert forall|k: int| 0 <= k < char_pos(s, c) implies s[k] != c by {
            if k > 0 {
                assert(s[k] == s.drop_first()[k - 1]);
            }
        }
    }
}

/// The properties of `lemma_char_pos` determine `char_pos`.
pub proof fn lemma_char_pos_unique(s: Seq<char>, c: char, r: int)
    requires
        0 <= r <= s.len(),
        forall|k: int| 0 <= k < r ==> s[k] != c,
        r < s.len() ==> s[r] == c,
    ensures
        char_pos(s, c) == r,
    decreases s.len(),
{
    if s.len() > 0 && s[0] != c {
        lemma_char_pos_unique(s.drop_first(), c, r - 1);
    }
}

pub proof fn lemma_comment_pos_unique(s: Seq<char>, r: int)
    requires
        0 <= r <= s.len(),
        forall|k: int| 0 <= k < r && k + 1 < s.len() ==> !(#[trigger] s[k] == ' ' && s[k + 1] == '#'),
        r < s.len() ==> (r + 1 < s.len() && s[r] == ' ' && s[r + 1] == '#'),
    ensures
        comment_pos(s) == r,
    decreases s.len(),
{
    if s.len() >= 2 && !(s[0] == ' ' && s[1] == '#') {
        let t = s.drop_first();
        assert forall|k: int| 0 <= k < r - 1 && k + 1 < t.len() implies !(#[trigger] t[k] == ' ' && t[k
            + 1] == '#') by {
            assert(t[k] == s[k + 1]);
            assert(t[k + 1] == s[k + 2]);
        }
        lemma_comment_pos_unique(t, r - 1);
    }
}

/// The characters of `s`, one per element.
pub fn to_chars(s: &str) -> (v: Vec<char>)
    ensures
        v@ == s@,
{
    let n = s.unicode_len();
    let mut v: Vec<char> = Vec::new();
    let mut i: usize = 0;
    while i < n
        invariant
            n == s@.len(),
            i <= n,
            v@ == s@.take(i as int),
        decreases n - i,
    {
        v.push(s.get_char(i));
        i = i + 1;
        assert(v@ =~= s@.take(i as int));
    }
    assert(v@ =~= s@);
    v
}

/// Whether `a` and `b` hold the same characters.
pub fn str_eq(a: &str, b: &str) -> (r: bool)
    ensures
        r == (a@ == b@),
{
    let n = a.unicode_len();
    let m = b.unicode_len();
    if n != m {
        return false;
    }
    let mut i: usize = 0;
    while i < n
        invariant
            n == a@.len(),
            m == b@.len(),
            n == m,
            i <= n,
            forall|k: int| 0 <= k < i ==> a@[k] == b@[k],
        decreases n - i,
    {
        if a.get_char(i) != b.get_char(i) {
            return false;
        }
        i = i + 1;
    }
    assert(a@ =~= b@);
    true
}

/// First position in `lo..hi` whose character does not match `p`, or `hi`.
pub fn skip_start(chars: &Vec<char>, lo: usize, hi: usize, p: Pat) -> (r: usize)
    requires
        lo <= hi <= chars.len(),
    ensures
        lo <= r <= hi,
        chars@.subrange(r as int, hi as int) == trim_start_by(chars@.subrange(lo as int, hi as int), p),
{
    let mut i = lo;
    while i < hi && pat_test(p, chars[i])
        invariant
            lo <= i <= hi <= chars.len(),
            trim_start_by(chars@.subrange(i as int, hi as int), p) == trim_start_by(
                chars@.subrange(lo as int, hi as int),
                p,
            ),
        decreases hi - i,
    {
        let ghost s = chars@.subrange(i as int, hi as int);
        assert(s.drop_first() =~= chars@.subrange(i + 1, hi as int));
        i = i + 1;
    }
    i
}

/// One past the last position in `lo..hi` whose character does not match
/// `p`, or `lo`.
pub fn skip_end(chars: &Vec<char>, lo: usize, hi: usize, p: Pat) -> (r: usize)
    requires
        lo <= hi <= chars.len(),
    ensures
        lo <= r <= hi,
        chars@.subrange(lo as int, r as int) == trim_end_by(chars@.subrange(lo as int, hi as int), p),
{
    let mut j = hi;
    while j > lo && pat_test(p, chars[j - 1])
        invariant
            lo <= j <= hi <= chars.len(),
            trim_end_by(chars@.subrange(lo as int, j as int), p) == trim_end_by(
                chars@.subrange(lo as int, hi as int),
                p,
            ),
        decreases j - lo,
    {
        let ghost s = chars@.subrange(lo as int, j as int);
        assert(s.drop_last() =~= chars@.subrange(lo as int, j - 1));
        j = j - 1;
    }
    j
}

/// The span of `chars[lo..hi]` that `trim_by(.., p)` leaves.
pub fn trim_span(chars: &Vec<char>, lo: usize, hi: usize, p: Pat) -> (r: (usize, usize))
    requires
        lo <= hi <= chars.len(),
    ensures
        lo <= r.0 <= r.1 <= hi,
        chars@.subrange(r.0 as int, r.1 as int) == trim_by(chars@.subrange(lo as int, hi as int), p),
{
    let a = skip_start(chars, lo, hi, p);
    let b = skip_end(chars, a, hi, p);
    (a, b)
}

/// First position in `lo..hi` that holds `c`, or `hi`.
pub fn find_char(chars: &Vec<char>, lo: usize, hi: usize, c: char) -> (r: usize)
    requires
        lo <= hi <= chars.len(),
    ensures
        lo <= r <= hi,
        r - lo == char_pos(chars@.subrange(lo as int, hi as int), c),
{
    let mut i = lo;
    while i < hi && chars[i] != c
        invariant
            lo <= i <= hi <= chars.len(),
            forall|k: int| lo <= k < i ==> chars@[k] != c,
        decreases hi - i,
    {
        i = i + 1;
    }
    proof {
        let s = chars@.subrange(lo as int, hi as int);
        lemma_char_pos_unique(s, c, i - lo);
    }
    i
}

/// First position `k` in `lo..hi` with `chars[k..k + 2] == " #"`, or `hi`.
pub fn find_comment(chars: &Vec<char>, lo: usize, hi: usize) -> (r: usize)
    requires
        lo <= hi <= chars.len(),
    ensures
        lo <= r <= hi,
        r - lo == comment_pos(chars@.subrange(lo as int, hi as int)),
{
    let mut i = lo;
    while hi - i >= 2 && !(chars[i] == ' ' && chars[i + 1] == '#')
        invariant
            lo <= i <= hi <= chars.len(),
            forall|k: int| lo <= k < i && k + 1 < hi ==> !(#[trigger] chars@[k] == ' ' && chars@[k + 1] == '#'),
        decreases hi - i,
    {
        i = i + 1;
    }
    let r = if hi - i >= 2 { i } else { hi };
    proof {
        let s = chars@.subrange(lo as int, hi as int);
        lemma_comment_pos_unique(s, r - lo);
    }
    r
}

// ============================================================================
// Laws
// ============================================================================

/// Among ASCII characters the blanks are the space and the controls from tab
/// to carriage return; the no-break space and the ideographic space are
/// blanks too. Each other trim removes its own characters only: `"`, `#`,
/// or `[` and `]`.
pub proof fn lemma_blank_and_trim_chars(c: char)
    ensures
        c <= '\u{7f}' ==> (pat_matches(Pat::Space, c) <==> (c == ' ' || ('\t' <= c && c <= '\r'))),
        pat_matches(Pat::Space, '\u{a0}'),
        pat_matches(Pat::Space, '\u{3000}'),
        pat_matches(Pat::Quote, c) <==> c == '"',
        pat_matches(Pat::Hash, c) <==> c == '#',
        pat_matches(Pat::Bracket, c) <==> (c == '[' || c == ']'),
{
}

/// ASCII lower-casing maps `A`..`Z` to `a`..`z` and leaves every other
/// character as it is; no upper-case ASCII letter is left.
pub proof fn lemma_ascii_lower(c: char)
    ensures
        ('A' <= c && c <= 'Z') ==> ascii_lower(c) as int == c as int + 32,
        !('A' <= c && c <= 'Z') ==> ascii_lower(c) == c,
        !('A' <= ascii_lower(c) && ascii_lower(c) <= 'Z'),
{
}

} // verus!
