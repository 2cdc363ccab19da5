//! Decimal integers as `str::parse` reads them for `u64`, `u32` and `i32`:
//! an optional sign (`-` only for `i32`), then one or more ASCII digits,
//! with a value that fits the type.

use vstd::prelude::*;

verus! {

pub open spec fn is_digit(c: char) -> bool {
    '0' <= c && c <= '9'
}

pub open spec fn digit_value(c: char) -> int {
    c as int - '0' as int
}

pub open spec fn all_digits(s: Seq<char>) -> bool {
    forall|i: int| 0 <= i < s.len() ==> is_digit(#[trigger] s[i])
}

/// The number that a string of decimal digits writes.
pub open spec fn digits_value(s: Seq<char>) -> int
    decreases s.len(),
{
    if s.len() == 0 {
        0
    } else {
        digits_value(s.drop_last()) * 10 + digit_value(s.last())
    }
}

/// The digits of an unsigned number: `s` without one leading `+`.
pub open spec fn unsigned_body(s: Seq<char>) -> Seq<char> {
    if s.len() > 0 && s[0] == '+' {
        s.drop_first()
    } else {
        s
    }
}

/// The magnitude that `body` writes, when it is one or more digits and at
/// most `max`.
pub open spec fn magnitude(body: Seq<char>, max: int) -> Option<int> {
    if body.len() > 0 && all_digits(body) && digits_value(body) <= max {
        Some(digits_value(body))
    } else {
        None
    }
}

/// `s.parse::<u64>().ok()`.
pub open spec fn parse_u64_spec(s: Seq<char>) -> Option<u64> {
    match magnitude(unsigned_body(s), u64::MAX as int) {
        Some(v) => Some(v as u64),
        None => None,
    }
}

/// `s.parse::<u32>().ok()`.
pub open spec fn parse_u32_spec(s: Seq<char>) -> Option<u32> {
    match magnitude(unsigned_body(s), u32::MAX as int) {
        Some(v) => Some(v as u32),
        None => None,
    }
}

/// `s.parse::<i32>().ok()`.
pub open spec fn parse_i32_spec(s: Seq<char>) -> Option<i32> {
    if s.len() > 0 && s[0] == '-' {
        match magnitude(s.drop_first(), 0x8000_0000) {
            Some(v) => Some((-v) as i32),
            None => None,
        }
    } else {
        match magnitude(unsigned_body(s), i32::MAX as int) {
            Some(v) => Some(v as i32),
            None => None,
        }
    }
}

proof fn lemma_digits_prefix(s: Seq<char>, k: int)
    requires
        all_digits(s),
        0 <= k <= s.len(),
    ensures
        0 <= digits_value(s.take(k)) <= digits_value(s),
    decreases s.len(),
{
    if s.len() > 0 {
        let t = s.drop_last();
        assert forall|i: int| 0 <= i < t.len() implies is_digit(#[trigger] t[i]) by {
            assert(t[i] == s[i]);
        }
        if k == s.len() {
            assert(s.take(k) =~= s);
            lemma_digits_prefix(t, t.len() as int);
            assert(t.take(t.len() as int) =~= t);
        } else {
            lemma_digits_prefix(t, k);
            assert(t.take(k) =~= s.take(k));
        }
    }
}

proof fn lemma_step_bound(acc: int, d: int, max: int)
    requires
        0 <= d <= 9,
        9 <= max,
        0 <= acc,
    ensures
        (acc > (max - d) / 10) <==> (acc * 10 + d > max),
{
    assert((acc > (max - d) / 10) <==> (acc * 10 + d > max)) by (nonlinear_arith)
        requires
            0 <= d <= 9,
            9 <= max,
            0 <= acc,
    ;
}

/// The number that `chars[lo..hi]` writes, when it is one or more digits
/// and at most `max`.
pub fn parse_magnitude(chars: &Vec<char>, lo: usize, hi: usize, max: u64) -> (r: Option<u64>)
    requires
        lo <= hi <= chars.len(),
        9 <= max,
    ensures
        r is Some <==> magnitude(chars@.subrange(lo as int, hi as int), max as int) is Some,
        r matches Some(v) ==> v <= max && magnitude(
            chars@.subrange(lo as int, hi as int),
            max as int,
        ) == Some(v as int),
{
    let ghost s = chars@.subrange(lo as int, hi as int);
    if lo == hi {
        return None;
    }
    let mut acc: u64 = 0;
    let mut i = lo;
    while i < hi
        invariant
            lo <= i <= hi <= chars.len(),
            s == chars@.subrange(lo as int, hi as int),
            9 <= max,
            all_digits(s.take(i - lo)),
            acc as int == digits_value(s.take(i - lo)),
            acc <= max,
        decreases hi - i,
    {
        let c = chars[i];
        if !('0' <= c && c <= '9') {
            assert(s[i - lo] == c);
            return None;
        }
        let d = (c as u32 - '0' as u32) as u64;
        let ghost t = s.take(i - lo + 1);
        assert(t.drop_last() =~= s.take(i - lo));
        assert(t.last() == c);
        assert forall|k: int| 0 <= k < t.len() implies is_digit(#[trigger] t[k]) by {
            if k < t.len() - 1 {
                assert(t[k] == s.take(i - lo)[k]);
            }
        }
        proof {
            lemma_step_bound(acc as int, d as int, max as int);
        }
        if acc > (max - d) / 10 {
            proof {
                if all_digits(s) {
                    lemma_digits_prefix(s, i - lo + 1);
                }
            }
            return None;
        }
        acc = acc * 10 + d;
        i = i + 1;
    }
    assert(s.take(hi - lo) =~= s);
    Some(acc)
}

/// `s.parse::<u64>().ok()` for `s == chars[lo..hi]`.
pub fn parse_u64(chars: &Vec<char>, lo: usize, hi: usize) -> (r: Option<u64>)
    requires
        lo <= hi <= chars.len(),
    ensures
        r == parse_u64_spec(chars@.subrange(lo as int, hi as int)),
{
    let ghost s = chars@.subrange(lo as int, hi as int);
    if lo < hi && chars[lo] == '+' {
        assert(s.drop_first() =~= chars@.subrange(lo + 1, hi as int));
        parse_magnitude(chars, lo + 1, hi, u64::MAX)
    } else {
        parse_magnitude(chars, lo, hi, u64::MAX)
    }
}

/// `s.parse::<u32>().ok()` for `s == chars[lo..hi]`.
pub fn parse_u32(chars: &Vec<char>, lo: usize, hi: usize) -> (r: Option<u32>)
    requires
        lo <= hi <= chars.len(),
    ensures
        r == parse_u32_spec(chars@.subrange(lo as int, hi as int)),
{
    let ghost s = chars@.subrange(lo as int, hi as int);
    let m = if lo < hi && chars[lo] == '+' {
        assert(s.drop_first() =~= chars@.subrange(lo + 1, hi as int));
        parse_magnitude(chars, lo + 1, hi, 0xffff_ffff)
    } else {
        parse_magnitude(chars, lo, hi, 0xffff_ffff)
    };
    match m {
        Some(v) => Some(v as u32),
        None => None,
    }
}

/// `s.parse::<i32>().ok()` for `s == chars[lo..hi]`.
pub fn parse_i32(chars: &Vec<char>, lo: usize, hi: usize) -> (r: Option<i32>)
    requires
        lo <= hi <= chars.len(),
    ensures
        r == parse_i32_spec(chars@.subrange(lo as int, hi as int)),
{
    let ghost s = chars@.subrange(lo as int, hi as int);
    if lo < hi && chars[lo] == '-' {
        assert(s.drop_first() =~= chars@.subrange(lo + 1, hi as int));
        match parse_magnitude(chars, lo + 1, hi, 0x8000_0000) {
            Some(v) => {
                if v == 0x8000_0000 {
                    Some(i32::MIN)
                } else {
                    Some(-(v as i32))
                }
            },
            None => None,
        }
    } else {
        let m = if lo < hi && chars[lo] == '+' {
            assert(s.drop_first() =~= chars@.subrange(lo + 1, hi as int));
            parse_magnitude(chars, lo + 1, hi, 0x7fff_ffff)
        } else {
            parse_magnitude(chars, lo, hi, 0x7fff_ffff)
        };
        match m {
            Some(v) => Some(v as i32),
            None => None,
        }
    }
}

// ============================================================================
// Laws
// ============================================================================

/// Decimal notation: no digits write 0, and a digit appended to digits
/// multiplies their number by ten and adds its own value.
pub proof fn lemma_decimal_digits(s: Seq<char>, c: char)
    requires
        all_digits(s),
        '0' <= c <= '9',
    ensures
        digits_value(Seq::<char>::empty()) == 0,
        digits_value(s.push(c)) == digits_value(s) * 10 + (c as int - 48),
        0 <= digits_value(s),
{
    assert(s.push(c).drop_last() =~= s);
    lemma_digits_prefix(s, s.len() as int);
    assert(s.take(s.len() as int) =~= s);
}

/// Digits read as their number when it fits the type, else as nothing; a
/// leading `+` changes nothing; a leading `-` is refused by the unsigned
/// types and negates for `i32`, down to `-2147483648`.
pub proof fn lemma_parse_digits(s: Seq<char>)
    requires
        s.len() > 0,
        all_digits(s),
    ensures
        parse_u64_spec(s) == if digits_value(s) <= 0xFFFF_FFFF_FFFF_FFFF {
            Some(digits_value(s) as u64)
        } else {
            None
        },
        parse_u32_spec(s) == if digits_value(s) <= 0xFFFF_FFFF {
            Some(digits_value(s) as u32)
        } else {
            None
        },
        parse_i32_spec(s) == if digits_value(s) <= 0x7FFF_FFFF {
            Some(digits_value(s) as i32)
        } else {
            None
        },
        parse_i32_spec(seq!['-'] + s) == if digits_value(s) <= 0x8000_0000 {
            Some((-digits_value(s)) as i32)
        } else {
            None
        },
        parse_u64_spec(seq!['+'] + s) == parse_u64_spec(s),
        parse_u32_spec(seq!['+'] + s) == parse_u32_spec(s),
        parse_i32_spec(seq!['+'] + s) == parse_i32_spec(s),
        parse_u64_spec(seq!['-'] + s) is None,
        parse_u32_spec(seq!['-'] + s) is None,
{
    assert(!is_digit('+') && !is_digit('-'));
    assert(s[0] != '+' && s[0] != '-');
    assert((seq!['+'] + s).drop_first() =~= s);
    assert((seq!['-'] + s).drop_first() =~= s);
    assert((seq!['-'] + s)[0] == '-');
    assert((seq!['+'] + s)[0] == '+');
    assert(!is_digit((seq!['-'] + s)[0]));
}

/// Text with a character other than a digit, beyond one leading sign, reads
/// as nothing; so does empty text or a sign alone.
pub proof fn lemma_parse_rejects(s: Seq<char>, k: int)
    requires
        0 <= k < s.len(),
        !is_digit(s[k]),
        !(k == 0 && (s[0] == '+' || s[0] == '-')),
    ensures
        parse_u64_spec(s) is None,
        parse_u32_spec(s) is None,
        parse_i32_spec(s) is None,
        parse_u64_spec(Seq::empty()) is None,
        parse_i32_spec(seq!['+']) is None,
        parse_i32_spec(seq!['-']) is None,
        parse_u64_spec(seq!['+']) is None,
{
    assert(seq!['+'].drop_first() =~= Seq::<char>::empty());
    assert(seq!['-'].drop_first() =~= Seq::<char>::empty());
    if s[0] == '+' || s[0] == '-' {
        assert(s.drop_first()[k - 1] == s[k]);
    }
}

} // verus!
