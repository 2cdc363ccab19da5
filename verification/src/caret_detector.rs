//! Decisions of the caret detector. The detector tries the levels named in
//! `[caret] methods`, in order, until one reports a caret position; the
//! operating-system queries of each level are made by the caller, and the
//! functions here decide what their answers mean.

use vstd::prelude::*;
use crate::config::strings_view;

verus! {

/// A caret position: x, y and height, in screen pixels.
pub type CaretPos = (i32, i32, i32);

/// A caret detection level.
#[derive(Debug, Clone, Copy, PartialEq, Eq, Structural)]
pub enum DetectionSource {
    /// `GetGUIThreadInfo`: the system caret of native controls.
    GuiInfo,
    /// UI Automation text selection (browsers, VS Code).
    UiAutomation,
    /// The MSAA caret object, then the thread's caret rectangle.
    MsaaFallback,
    /// No level found a caret.
    NoCaret,
}

impl DetectionSource {
    /// The level that a configuration name selects.
    pub open spec fn named(s: Seq<char>) -> Option<DetectionSource> {
        if s == "gui_info"@ {
            Some(DetectionSource::GuiInfo)
        } else if s == "uia_selection"@ {
            Some(DetectionSource::UiAutomation)
        } else if s == "msaa"@ {
            Some(DetectionSource::MsaaFallback)
        } else {
            None
        }
    }

    /// Reads a level's configuration name (`gui_info`, `uia_selection`,
    /// `msaa`); other names select nothing.
    pub fn from_name(s: &str) -> (r: Option<Self>)
        ensures
            r == Self::named(s@),
    {
        if crate::text::str_eq(s, "gui_info") {
            Some(DetectionSource::GuiInfo)
        } else if crate::text::str_eq(s, "uia_selection") {
            Some(DetectionSource::UiAutomation)
        } else if crate::text::str_eq(s, "msaa") {
            Some(DetectionSource::MsaaFallback)
        } else {
            None
        }
    }
}

/// What one level reports.
#[derive(Debug, Clone, Copy)]
pub enum LevelResult {
    /// A caret position.
    Found(CaretPos),
    /// Nothing usable; the next level is tried.
    Missed,
    /// The focused element does not take text input. This answer is final:
    /// later levels could report a stale caret left behind by another
    /// control, so none is tried.
    Refused,
}

// ============================================================================
// The pipeline
// ============================================================================

/// Position `i` of the list names a level and its result decides the
/// search.
pub open spec fn decisive(names: Seq<Seq<char>>, results: spec_fn(int) -> LevelResult, i: int) -> bool {
    &&& DetectionSource::named(names[i]) is Some
    &&& !(results(i) is Missed)
}

/// The first decisive position from `from` on.
pub open spec fn first_decisive(
    names: Seq<Seq<char>>,
    results: spec_fn(int) -> LevelResult,
    from: int,
    i: int,
) -> bool {
    &&& from <= i < names.len()
    &&& decisive(names, results, i)
    &&& forall|j: int| from <= j < i ==> !decisive(names, results, j)
}

/// The outcome of detection over the configured `names` from position
/// `from` on, when the level at position `i` would report `results(i)`: the
/// first level whose result is not `Missed` decides; a `Found` gives its
/// position and level, a `Refused` gives no position; unknown names are
/// passed over; when no level decides there is no position.
pub open spec fn detect_outcome(
    names: Seq<Seq<char>>,
    results: spec_fn(int) -> LevelResult,
    from: int,
) -> (Option<CaretPos>, DetectionSource) {
    if exists|i: int| first_decisive(names, results, from, i) {
        let i = choose|i: int| first_decisive(names, results, from, i);
        match results(i) {
            LevelResult::Found(p) => (Some(p), DetectionSource::named(names[i])->0),
            _ => (None, DetectionSource::NoCaret),
        }
    } else {
        (None, DetectionSource::NoCaret)
    }
}

/// The first position from `from` on whose name selects a level.
pub open spec fn next_level_spec(names: Seq<Seq<char>>, from: int) -> Option<(int, DetectionSource)> {
    if exists|i: int|
        from <= i < names.len() && DetectionSource::named(names[i]) is Some && forall|j: int|
            from <= j < i ==> DetectionSource::named(#[trigger] names[j]) is None {
        let i = choose|i: int|
            from <= i < names.len() && DetectionSource::named(names[i]) is Some && forall|j: int|
                from <= j < i ==> DetectionSource::named(#[trigger] names[j]) is None;
        Some((i, DetectionSource::named(names[i])->0))
    } else {
        None
    }
}

/// What a level's result settles: the outcome, or `None` to go on.
pub open spec fn settle_spec(source: DetectionSource, result: LevelResult) -> Option<
    (Option<CaretPos>, DetectionSource),
> {
    match result {
        LevelResult::Found(p) => Some((Some(p), source)),
        LevelResult::Refused => Some((None, DetectionSource::NoCaret)),
        LevelResult::Missed => None,
    }
}

proof fn lemma_next_level_at(names: Seq<Seq<char>>, from: int, i: int)
    requires
        from <= i < names.len(),
        DetectionSource::named(names[i]) is Some,
        forall|j: int| from <= j < i ==> DetectionSource::named(#[trigger] names[j]) is None,
    ensures
        next_level_spec(names, from) == Some((i, DetectionSource::named(names[i])->0)),
{
    let k = choose|k: int|
        from <= k < names.len() && DetectionSource::named(names[k]) is Some && forall|j: int|
            from <= j < k ==> DetectionSource::named(#[trigger] names[j]) is None;
    if k < i {
        assert(DetectionSource::named(names[k]) is None);
    }
    if k > i {
        assert(DetectionSource::named(names[i]) is None);
    }
}

/// The next level to try: the first position from `from` on whose name
/// selects a level, with that level.
pub fn next_level(methods: &[String], from: usize) -> (r: Option<(usize, DetectionSource)>)
    ensures
        match r {
            Some((i, s)) => next_level_spec(strings_view(methods@), from as int) == Some((i as int, s)),
            None => next_level_spec(strings_view(methods@), from as int) is None,
        },
        r matches Some((i, s)) ==> from <= i < methods@.len(),
{
    let ghost names = strings_view(methods@);
    let mut i = from;
    while i < methods.len()
        invariant
            names == strings_view(methods@),
            from <= i,
            forall|j: int| from <= j < i ==> DetectionSource::named(#[trigger] names[j]) is None,
        decreases methods@.len() - i,
    {
        let s = DetectionSource::from_name(methods[i].as_str());
        assert(names[i as int] == methods@[i as int]@);
        if let Some(src) = s {
            proof {
                lemma_next_level_at(names, from as int, i as int);
            }
            return Some((i, src));
        }
        i = i + 1;
    }
    None
}

/// What a level's result settles (see `settle_spec`).
pub fn settle(source: DetectionSource, result: LevelResult) -> (r: Option<
    (Option<CaretPos>, DetectionSource),
>)
    ensures
        r == settle_spec(source, result),
{
    match result {
        LevelResult::Found(p) => Some((Some(p), source)),
        LevelResult::Refused => Some((None, DetectionSource::NoCaret)),
        LevelResult::Missed => None,
    }
}

proof fn lemma_first_decisive_unique(
    names: Seq<Seq<char>>,
    results: spec_fn(int) -> LevelResult,
    from: int,
    a: int,
    b: int,
)
    requires
        first_decisive(names, results, from, a),
        first_decisive(names, results, from, b),
    ensures
        a == b,
{
    if a < b {
        assert(!decisive(names, results, a));
    }
    if b < a {
        assert(!decisive(names, results, b));
    }
}

proof fn lemma_first_named(names: Seq<Seq<char>>, from: int, k: int)
    requires
        from <= k < names.len(),
        DetectionSource::named(names[k]) is Some,
    ensures
        exists|i: int|
            from <= i < names.len() && DetectionSource::named(names[i]) is Some && forall|j: int|
                from <= j < i ==> DetectionSource::named(#[trigger] names[j]) is None,
    decreases k - from,
{
    if exists|j: int| from <= j < k && DetectionSource::named(#[trigger] names[j]) is Some {
        let j = choose|j: int| from <= j < k && DetectionSource::named(#[trigger] names[j]) is Some;
        lemma_first_named(names, from, j);
    } else {
        assert(forall|j: int| from <= j < k ==> DetectionSource::named(#[trigger] names[j]) is None);
    }
}

/// Trying the levels one by one with `next_level` and `settle`, going on
/// from the next position after a `Missed`, gives `detect_outcome`.
pub proof fn lemma_pipeline_step(names: Seq<Seq<char>>, results: spec_fn(int) -> LevelResult, from: int)
    requires
        0 <= from,
    ensures
        detect_outcome(names, results, from) == match next_level_spec(names, from) {
            None => (None, DetectionSource::NoCaret),
            Some((i, src)) => match settle_spec(src, results(i)) {
                Some(done) => done,
                None => detect_outcome(names, results, i + 1),
            },
        },
{
    match next_level_spec(names, from) {
        None => {
            if exists|i: int| first_decisive(names, results, from, i) {
                let i = choose|i: int| first_decisive(names, results, from, i);
                lemma_first_named(names, from, i);
                assert(false);
            }
        },
        Some((i, src)) => {
            assert(from <= i < names.len());
            assert(DetectionSource::named(names[i]) == Some(src));
            assert(forall|j: int| from <= j < i ==> DetectionSource::named(#[trigger] names[j]) is None);
            let next = i + 1;
            match results(i) {
                LevelResult::Missed => {
                    assert(!decisive(names, results, i));
                    if exists|k: int| first_decisive(names, results, from, k) {
                        let k = choose|k: int| first_decisive(names, results, from, k);
                        if k < i {
                            assert(DetectionSource::named(names[k]) is None);
                        }
                        assert(first_decisive(names, results, next, k));
                        let k2 = choose|k: int| first_decisive(names, results, next, k);
                        lemma_first_decisive_unique(names, results, next, k, k2);
                    }
                    if exists|k: int| first_decisive(names, results, next, k) {
                        let k = choose|k: int| first_decisive(names, results, next, k);
                        assert forall|j: int| from <= j < k implies !decisive(names, results, j) by {
                            if j < i {
                                assert(DetectionSource::named(names[j]) is None);
                            }
                        }
                        assert(first_decisive(names, results, from, k));
                    }
                },
                _ => {
                    assert forall|j: int| from <= j < i implies !decisive(names, results, j) by {
                        assert(DetectionSource::named(names[j]) is None);
                    }
                    assert(first_decisive(names, results, from, i));
                    let k = choose|k: int| first_decisive(names, results, from, k);
                    lemma_first_decisive_unique(names, results, from, k, i);
                },
            }
        },
    }
}

/// Once a level decides (a position, or a refusal of the focused element),
/// the levels after it are never consulted: whatever they would report, the
/// outcome is the same.
pub proof fn lemma_later_levels_ignored(
    names: Seq<Seq<char>>,
    results: spec_fn(int) -> LevelResult,
    other: spec_fn(int) -> LevelResult,
    from: int,
    i: int,
)
    requires
        first_decisive(names, results, from, i),
        forall|j: int| from <= j <= i ==> #[trigger] other(j) == results(j),
    ensures
        detect_outcome(names, other, from) == detect_outcome(names, results, from),
{
    assert forall|j: int| from <= j < i implies !decisive(names, other, j) by {
        assert(other(j) == results(j));
        assert(!decisive(names, results, j));
    }
    assert(other(i) == results(i));
    assert(first_decisive(names, other, from, i));
    let a = choose|k: int| first_decisive(names, results, from, k);
    let b = choose|k: int| first_decisive(names, other, from, k);
    lemma_first_decisive_unique(names, results, from, a, i);
    lemma_first_decisive_unique(names, other, from, b, i);
}

// ============================================================================
// Laws of the levels and the search
// ============================================================================

/// The configuration names of the levels: `gui_info`, `uia_selection` and
/// `msaa` select their levels, and every other name selects none.
pub proof fn lemma_level_names(s: Seq<char>)
    ensures
        DetectionSource::named(s) == Some(DetectionSource::GuiInfo) <==> s == "gui_info"@,
        DetectionSource::named(s) == Some(DetectionSource::UiAutomation) <==> s == "uia_selection"@,
        DetectionSource::named(s) == Some(DetectionSource::MsaaFallback) <==> s == "msaa"@,
        DetectionSource::named(s) != Some(DetectionSource::NoCaret),
        DetectionSource::named(s) is None <==> (s != "gui_info"@ && s != "uia_selection"@ && s != "msaa"@),
{
    reveal_strlit("gui_info");
    reveal_strlit("uia_selection");
    reveal_strlit("msaa");
    assert("gui_info"@.len() == 8 && "uia_selection"@.len() == 13 && "msaa"@.len() == 4);
}

/// A level that finds a caret ends the search with that caret and level; a
/// refusal ends it with no caret; a miss goes on.
pub proof fn lemma_settle_results(source: DetectionSource, result: LevelResult)
    ensures
        result is Missed <==> settle_spec(source, result) is None,
        result matches LevelResult::Found(p) ==> settle_spec(source, result) == Some((Some(p), source)),
        result is Refused ==> settle_spec(source, result) == Some((None::<CaretPos>, DetectionSource::NoCaret)),
{
}

/// The next level is at a position from `from` on whose name selects it,
/// and every name between selects nothing; when there is none, no name from
/// `from` on selects a level.
pub proof fn lemma_next_level_is_first_named(names: Seq<Seq<char>>, from: int)
    ensures
        next_level_spec(names, from) matches Some((i, src)) ==> {
            &&& from <= i < names.len()
            &&& DetectionSource::named(names[i]) == Some(src)
            &&& forall|j: int| from <= j < i ==> DetectionSource::named(#[trigger] names[j]) is None
        },
        next_level_spec(names, from) is None ==> forall|j: int|
            from <= j < names.len() ==> DetectionSource::named(#[trigger] names[j]) is None,
{
    if next_level_spec(names, from) is None {
        assert forall|j: int| from <= j < names.len() implies DetectionSource::named(
            #[trigger] names[j],
        ) is None by {
            if DetectionSource::named(names[j]) is Some {
                lemma_first_named(names, from, j);
            }
        }
    }
}

/// The first configured level that does not miss decides: if it finds a
/// caret, that caret and level are the outcome, whatever the later levels
/// would report.
pub proof fn lemma_first_finder_wins(
    names: Seq<Seq<char>>,
    results: spec_fn(int) -> LevelResult,
    from: int,
    i: int,
    src: DetectionSource,
    p: CaretPos,
)
    requires
        from <= i < names.len(),
        DetectionSource::named(names[i]) == Some(src),
        results(i) == LevelResult::Found(p),
        forall|j: int|
            from <= j < i ==> DetectionSource::named(#[trigger] names[j]) is None || results(j) is Missed,
    ensures
        detect_outcome(names, results, from) == (Some(p), src),
{
    assert(first_decisive(names, results, from, i));
    let k = choose|k: int| first_decisive(names, results, from, k);
    lemma_first_decisive_unique(names, results, from, k, i);
}

/// If the first configured level that does not miss refuses the focused
/// element, there is no caret, whatever the later levels would report.
pub proof fn lemma_refusal_gives_no_caret(
    names: Seq<Seq<char>>,
    results: spec_fn(int) -> LevelResult,
    from: int,
    i: int,
)
    requires
        from <= i < names.len(),
        DetectionSource::named(names[i]) is Some,
        results(i) is Refused,
        forall|j: int|
            from <= j < i ==> DetectionSource::named(#[trigger] names[j]) is None || results(j) is Missed,
    ensures
        detect_outcome(names, results, from) == (None::<CaretPos>, DetectionSource::NoCaret),
{
    assert(first_decisive(names, results, from, i));
    let k = choose|k: int| first_decisive(names, results, from, k);
    lemma_first_decisive_unique(names, results, from, k, i);
}

/// When every configured level misses (or names nothing), there is no
/// caret.
pub proof fn lemma_all_missed_gives_no_caret(names: Seq<Seq<char>>, results: spec_fn(int) -> LevelResult, from: int)
    requires
        forall|j: int|
            from <= j < names.len() ==> DetectionSource::named(#[trigger] names[j]) is None || results(j) is Missed,
    ensures
        detect_outcome(names, results, from) == (None::<CaretPos>, DetectionSource::NoCaret),
{
    if exists|i: int| first_decisive(names, results, from, i) {
        let i = choose|i: int| first_decisive(names, results, from, i);
        assert(DetectionSource::named(names[i]) is None || results(i) is Missed);
    }
}

// ============================================================================
// The levels
// ============================================================================

/// Appends `entry` to the diagnostic log, after `" | "` unless the log is
/// empty.
pub fn append_error(log: &mut String, entry: &str)
    ensures
        final(log)@ == if old(log)@.len() == 0 {
            entry@
        } else {
            old(log)@ + " | "@ + entry@
        },
{
    if !log.as_str().is_empty() {
        log.append(" | ");
    }
    log.append(entry);
}

/// The caret height that a caret rectangle gives.
pub fn caret_height(top: i32, bottom: i32) -> (r: i32)
    requires
        i32::MIN <= bottom - top <= i32::MAX,
    ensures
        r == bottom - top,
{
    bottom - top
}

/// UI Automation's control type of an `Edit` element.
pub const UIA_EDIT_CONTROL_TYPE_ID: i32 = 50004;

/// Whether the focused element takes text input: only when its control type
/// (`None` when the query failed) is `Edit`. Anything else, a `Document`
/// included, or a failed query, is refused.
pub fn is_editable(control_type: Option<i32>) -> (r: bool)
    ensures
        r == (control_type == Some(UIA_EDIT_CONTROL_TYPE_ID)),
{
    match control_type {
        Some(t) => t == UIA_EDIT_CONTROL_TYPE_ID,
        None => false,
    }
}

/// The text pattern reports a selection: its range count is not 0.
pub fn has_selection(range_count: i32) -> (r: bool)
    ensures
        r == (range_count != 0),
{
    range_count != 0
}

/// The number of values in the rectangle array whose bounds are `lower` and
/// `upper`, as `Ok` when it holds at least one rectangle (four values: left,
/// top, width, height), else as `Err`.
pub fn rect_value_count(lower: i32, upper: i32) -> (r: Result<usize, usize>)
    requires
        i32::MIN <= upper - lower < i32::MAX,
    ensures
        ({
            let n = ((upper - lower + 1) as i32) as usize;
            r == if n >= 4 {
                Ok::<usize, usize>(n)
            } else {
                Err::<usize, usize>(n)
            }
        }),
{
    let n = (upper - lower + 1) as usize;
    if n >= 4 {
        Ok(n)
    } else {
        Err(n)
    }
}

/// What the UI Automation level makes of the selection rectangle.
#[derive(Debug, Clone, Copy, PartialEq, Eq, Structural)]
pub enum SelectionVerdict {
    /// The rectangle is the whole element: an empty field, not a caret.
    EmptyField,
    /// The caret is past the start of the text, yet its rectangle is where the
    /// text starts: the element maps offsets to pixels wrongly.
    BrokenPixelMap,
    /// The rectangle's top-left corner and height are the caret.
    Accept,
}

/// Judges the collapsed selection rectangle: `covers_element` when it
/// equals the focused element's rectangle (within two pixels),
/// `caret_offset` the caret's offset into the text, `at_document_start`
/// when it equals the rectangle of the text's start (within two pixels).
pub fn selection_verdict(covers_element: bool, caret_offset: i32, at_document_start: bool) -> (r:
    SelectionVerdict)
    ensures
        r == if covers_element {
            SelectionVerdict::EmptyField
        } else if caret_offset > 0 && at_document_start {
            SelectionVerdict::BrokenPixelMap
        } else {
            SelectionVerdict::Accept
        },
{
    if covers_element {
        SelectionVerdict::EmptyField
    } else if caret_offset > 0 && at_document_start {
        SelectionVerdict::BrokenPixelMap
    } else {
        SelectionVerdict::Accept
    }
}

/// The MSAA caret object's location gives a caret unless it is at the
/// origin.
pub fn msaa_caret(x: i32, y: i32, height: i32) -> (r: Option<CaretPos>)
    ensures
        r == if x != 0 || y != 0 {
            Some((x, y, height))
        } else {
            None::<CaretPos>
        },
{
    if x != 0 || y != 0 {
        Some((x, y, height))
    } else {
        None
    }
}

/// The window whose client area the fallback caret rectangle is in.
#[derive(Debug, Clone, Copy, PartialEq, Eq, Structural)]
pub enum FallbackWindow {
    Caret,
    Focus,
    Active,
}

/// The caret window if there is one, else the focus window, else the active
/// window, else none (the level then reports nothing).
pub fn fallback_window(has_caret: bool, has_focus: bool, has_active: bool) -> (r: Option<
    FallbackWindow,
>)
    ensures
        r == if has_caret {
            Some(FallbackWindow::Caret)
        } else if has_focus {
            Some(FallbackWindow::Focus)
        } else if has_active {
            Some(FallbackWindow::Active)
        } else {
            None::<FallbackWindow>
        },
{
    if has_caret {
        Some(FallbackWindow::Caret)
    } else if has_focus {
        Some(FallbackWindow::Focus)
    } else if has_active {
        Some(FallbackWindow::Active)
    } else {
        None
    }
}

/// The fallback caret rectangle is used only when its corner is not the
/// client origin.
pub fn fallback_has_rect(left: i32, top: i32) -> (r: bool)
    ensures
        r == (left != 0 || top != 0),
{
    left != 0 || top != 0
}

/// The fallback caret, its corner mapped to the screen as `(x, y)`:
/// accepted when both coordinates are above -1000.
pub fn fallback_caret(x: i32, y: i32, top: i32, bottom: i32) -> (r: Option<CaretPos>)
    requires
        i32::MIN <= bottom - top <= i32::MAX,
    ensures
        r == if x > -1000 && y > -1000 {
            Some((x, y, (bottom - top) as i32))
        } else {
            None::<CaretPos>
        },
{
    if x > -1000 && y > -1000 {
        Some((x, y, caret_height(top, bottom)))
    } else {
        None
    }
}

} // verus!
