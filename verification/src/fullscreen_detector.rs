//! Decisions of the fullscreen detector: the indicator hides while the
//! foreground window covers the screen (videos, games), unless that window
//! is the desktop.

use vstd::prelude::*;

verus! {

/// Pixels a window may fall short of each screen edge and still cover it.
pub const SCREEN_TOLERANCE: i32 = 2;

/// The window rectangle covers the screen, within `SCREEN_TOLERANCE`.
pub fn covers_screen(left: i32, top: i32, right: i32, bottom: i32, screen_width: i32, screen_height: i32) -> (r: bool)
    requires
        screen_width >= i32::MIN + SCREEN_TOLERANCE,
        screen_height >= i32::MIN + SCREEN_TOLERANCE,
    ensures
        r == (left <= 2 && top <= 2 && right >= screen_width - 2 && bottom >= screen_height - 2),
{
    left <= SCREEN_TOLERANCE && top <= SCREEN_TOLERANCE && right >= screen_width - SCREEN_TOLERANCE
        && bottom >= screen_height - SCREEN_TOLERANCE
}

/// The length of the class name in a buffer: up to the first NUL; a buffer
/// without one reads as empty.
pub fn class_name_len(units: &[u16]) -> (r: usize)
    ensures
        r <= units@.len(),
        forall|k: int| 0 <= k < r ==> units@[k] != 0,
        (r < units@.len() && units@[r as int] == 0) || (r == 0 && forall|k: int|
            0 <= k < units@.len() ==> units@[k] != 0),
{
    let mut i: usize = 0;
    while i < units.len()
        invariant
            i <= units@.len(),
            forall|k: int| 0 <= k < i ==> units@[k] != 0,
        decreases units@.len() - i,
    {
        if units[i] == 0 {
            return i;
        }
        i = i + 1;
    }
    0
}

/// `needle` occurs in `hay`.
pub open spec fn contains(hay: Seq<char>, needle: Seq<char>) -> bool {
    exists|i: int| 0 <= i && i + needle.len() <= hay.len() && #[trigger] hay.subrange(i, i + needle.len()) == needle
}

fn occurs_at(hay: &Vec<char>, needle: &Vec<char>, i: usize) -> (r: bool)
    requires
        i + needle@.len() <= hay@.len(),
    ensures
        r == (hay@.subrange(i as int, i + needle@.len()) == needle@),
{
    let hl = hay.len();
    let mut k: usize = 0;
    while k < needle.len()
        invariant
            hl == hay@.len(),
            i + needle@.len() <= hay@.len(),
            k <= needle@.len(),
            forall|j: int| 0 <= j < k ==> hay@[i + j] == needle@[j],
        decreases needle@.len() - k,
    {
        if hay[i + k] != needle[k] {
            assert(hay@.subrange(i as int, i + needle@.len())[k as int] != needle@[k as int]);
            return false;
        }
        k = k + 1;
    }
    assert(hay@.subrange(i as int, i + needle@.len()) =~= needle@);
    true
}

/// Whether `needle` occurs in `hay`.
pub fn str_contains(hay: &str, needle: &str) -> (r: bool)
    ensures
        r == contains(hay@, needle@),
{
    let h = crate::text::to_chars(hay);
    let n = crate::text::to_chars(needle);
    if n.len() > h.len() {
        return false;
    }
    let last = h.len() - n.len();
    let mut i: usize = 0;
    loop
        invariant
            h@ == hay@,
            n@ == needle@,
            last == h@.len() - n@.len(),
            i <= last,
            forall|j: int| 0 <= j < i ==> #[trigger] h@.subrange(j, j + n@.len()) != n@,
        decreases last - i,
    {
        if occurs_at(&h, &n, i) {
            return true;
        }
        if i == last {
            return false;
        }
        i = i + 1;
    }
}

/// The desktop's own windows: class names with `Progman` or `WorkerW` in
/// them.
pub open spec fn is_desktop_class_spec(class_name: Seq<char>) -> bool {
    contains(class_name, "Progman"@) || contains(class_name, "WorkerW"@)
}

/// Whether the class name is one of the desktop's (`is_desktop_class_spec`).
pub fn is_desktop_class(class_name: &str) -> (r: bool)
    ensures
        r == is_desktop_class_spec(class_name@),
{
    str_contains(class_name, "Progman") || str_contains(class_name, "WorkerW")
}

/// A foreground window is a fullscreen application when it covers the
/// screen and is not the desktop.
pub fn is_fullscreen_window(covers: bool, class_name: &str) -> (r: bool)
    ensures
        r == (covers && !is_desktop_class_spec(class_name@)),
{
    covers && !is_desktop_class(class_name)
}

// ============================================================================
// Laws
// ============================================================================

/// A class name is the desktop's exactly when `Progman` or `WorkerW` occurs
/// in it: any other window that covers the screen (a browser or a player in
/// fullscreen) is a fullscreen application.
pub proof fn lemma_desktop_classes(class_name: Seq<char>, covers: bool)
    ensures
        is_desktop_class_spec(class_name) <==> (exists|i: int|
            0 <= i && i + 7 <= class_name.len() && (#[trigger] class_name.subrange(i, i + 7) == "Progman"@
                || class_name.subrange(i, i + 7) == "WorkerW"@)),
        (covers && !is_desktop_class_spec(class_name)) <==> (covers && forall|i: int|
            0 <= i && i + 7 <= class_name.len() ==> #[trigger] class_name.subrange(i, i + 7) != "Progman"@
                && class_name.subrange(i, i + 7) != "WorkerW"@),
{
    reveal_strlit("Progman");
    reveal_strlit("WorkerW");
    let p = "Progman"@;
    let w = "WorkerW"@;
    assert(p.len() == 7 && w.len() == 7);
    if is_desktop_class_spec(class_name) {
        if contains(class_name, p) {
            let i = choose|i: int|
                0 <= i && i + p.len() <= class_name.len() && #[trigger] class_name.subrange(i, i + p.len()) == p;
            assert(class_name.subrange(i, i + 7) == class_name.subrange(i, i + 7));
        } else {
            let i = choose|i: int|
                0 <= i && i + w.len() <= class_name.len() && #[trigger] class_name.subrange(i, i + w.len()) == w;
            assert(class_name.subrange(i, i + 7) == class_name.subrange(i, i + 7));
        }
    }
    if exists|i: int|
        0 <= i && i + 7 <= class_name.len() && (#[trigger] class_name.subrange(i, i + 7) == p
            || class_name.subrange(i, i + 7) == w) {
        let i = choose|i: int|
            0 <= i && i + 7 <= class_name.len() && (#[trigger] class_name.subrange(i, i + 7) == p
                || class_name.subrange(i, i + 7) == w);
        if class_name.subrange(i, i + 7) == p {
            assert(class_name.subrange(i, i + p.len()) == p);
        } else {
            assert(class_name.subrange(i, i + w.len()) == w);
        }
    }
}

} // verus!
