use rust_indicator::caret_detector::{
    append_error, fallback_caret, fallback_has_rect, fallback_window, has_selection, is_editable,
    msaa_caret, next_level, rect_value_count, selection_verdict, settle, DetectionSource,
    FallbackWindow, LevelResult, SelectionVerdict, UIA_EDIT_CONTROL_TYPE_ID,
};
use rust_indicator::fullscreen_detector::{
    class_name_len, covers_screen, is_desktop_class, is_fullscreen_window, str_contains,
};
use rust_indicator::ime_detector::{
    caps_lock_from_key_state, chinese_mode, focus_window, has_native_mode, layout_id_from_hkl,
    FocusWindow,
};

fn names(v: &[&str]) -> Vec<String> {
    v.iter().map(|s| s.to_string()).collect()
}

/// Runs the pipeline with a fixed answer per level.
fn run(methods: &[String], answer: impl Fn(DetectionSource) -> LevelResult) -> (Option<(i32, i32, i32)>, DetectionSource) {
    let mut from = 0;
    loop {
        match next_level(methods, from) {
            None => return (None, DetectionSource::NoCaret),
            Some((i, src)) => match settle(src, answer(src)) {
                Some(done) => return done,
                None => from = i + 1,
            },
        }
    }
}

#[test]
fn from_name_levels() {
    assert_eq!(DetectionSource::from_name("gui_info"), Some(DetectionSource::GuiInfo));
    assert_eq!(DetectionSource::from_name("uia_selection"), Some(DetectionSource::UiAutomation));
    assert_eq!(DetectionSource::from_name("msaa"), Some(DetectionSource::MsaaFallback));
    assert_eq!(DetectionSource::from_name("ime"), None);
    assert_eq!(DetectionSource::from_name("GUI_INFO"), None);
}

#[test]
fn pipeline_first_found_wins() {
    let m = names(&["gui_info", "uia_selection", "msaa"]);
    let r = run(&m, |s| match s {
        DetectionSource::GuiInfo => LevelResult::Missed,
        _ => LevelResult::Found((10, 20, 16)),
    });
    assert_eq!(r, (Some((10, 20, 16)), DetectionSource::UiAutomation));
}

#[test]
fn pipeline_skips_unknown_names() {
    let m = names(&["ime", "uia_caret_range", "msaa"]);
    assert_eq!(next_level(&m, 0), Some((2, DetectionSource::MsaaFallback)));
    let r = run(&m, |_| LevelResult::Found((1, 2, 3)));
    assert_eq!(r, (Some((1, 2, 3)), DetectionSource::MsaaFallback));
}

#[test]
fn pipeline_refusal_ends_search() {
    let m = names(&["uia_selection", "msaa"]);
    let r = run(&m, |s| match s {
        DetectionSource::UiAutomation => LevelResult::Refused,
        _ => LevelResult::Found((5, 5, 5)),
    });
    assert_eq!(r, (None, DetectionSource::NoCaret));
}

#[test]
fn pipeline_nothing_found() {
    let m = names(&["gui_info", "msaa"]);
    assert_eq!(run(&m, |_| LevelResult::Missed), (None, DetectionSource::NoCaret));
    assert_eq!(run(&[], |_| LevelResult::Found((1, 1, 1))), (None, DetectionSource::NoCaret));
    assert_eq!(next_level(&m, 5), None);
}

#[test]
fn error_log() {
    let mut log = String::new();
    append_error(&mut log, "Sel:NoSel");
    assert_eq!(log, "Sel:NoSel");
    append_error(&mut log, "MSAA:Zero");
    assert_eq!(log, "Sel:NoSel | MSAA:Zero");
}

#[test]
fn editable_focus() {
    // Edit is accepted; a Document (50030), any other type, or a failed query is not
    assert!(is_editable(Some(UIA_EDIT_CONTROL_TYPE_ID)));
    assert!(!is_editable(Some(50030)));
    assert!(!is_editable(Some(50020)));
    assert!(!is_editable(None));
}

#[test]
fn selection_counts() {
    assert!(has_selection(1));
    assert!(!has_selection(0));
    assert_eq!(rect_value_count(0, 3), Ok(4));
    assert_eq!(rect_value_count(1, 8), Ok(8));
    assert_eq!(rect_value_count(0, 2), Err(3));
    assert_eq!(rect_value_count(0, -1), Err(0));
}

#[test]
fn selection_rectangles() {
    assert_eq!(selection_verdict(true, 3, true), SelectionVerdict::EmptyField);
    assert_eq!(selection_verdict(false, 3, true), SelectionVerdict::BrokenPixelMap);
    assert_eq!(selection_verdict(false, 0, true), SelectionVerdict::Accept);
    assert_eq!(selection_verdict(false, 3, false), SelectionVerdict::Accept);
}

#[test]
fn msaa_and_fallback() {
    assert_eq!(msaa_caret(0, 0, 18), None);
    assert_eq!(msaa_caret(0, 7, 18), Some((0, 7, 18)));
    assert_eq!(fallback_window(false, true, true), Some(FallbackWindow::Focus));
    assert_eq!(fallback_window(true, true, true), Some(FallbackWindow::Caret));
    assert_eq!(fallback_window(false, false, true), Some(FallbackWindow::Active));
    assert_eq!(fallback_window(false, false, false), None);
    assert!(!fallback_has_rect(0, 0));
    assert!(fallback_has_rect(0, 4));
    assert_eq!(fallback_caret(100, 200, 10, 26), Some((100, 200, 16)));
    assert_eq!(fallback_caret(-1000, 200, 10, 26), None);
}

#[test]
fn ime_decisions() {
    assert_eq!(layout_id_from_hkl(0x0409_0409), 0x0409);
    assert_eq!(layout_id_from_hkl(0xF0A8_0804), 0x0804);
    assert!(has_native_mode(0x409));
    assert!(!has_native_mode(0x408));
    assert!(chinese_mode(Some(1), None, 0x0804));
    assert!(chinese_mode(Some(0), Some(1), 0x0404));
    assert!(!chinese_mode(Some(0), Some(0), 0x0804));
    assert!(!chinese_mode(Some(1), Some(1), 0x0409));
    assert!(!chinese_mode(None, None, 0x0804));
    assert!(chinese_mode(None, Some(1), 0x0804));
}

#[test]
fn caps_lock_bit() {
    assert!(caps_lock_from_key_state(1));
    assert!(caps_lock_from_key_state(-127));
    assert!(!caps_lock_from_key_state(-128));
    assert!(!caps_lock_from_key_state(0));
}

#[test]
fn focus_window_choice() {
    assert_eq!(focus_window(true, true, true), FocusWindow::Focus);
    assert_eq!(focus_window(true, false, true), FocusWindow::Active);
    assert_eq!(focus_window(true, false, false), FocusWindow::Foreground);
    assert_eq!(focus_window(false, true, true), FocusWindow::Foreground);
}

#[test]
fn fullscreen_decisions() {
    assert!(covers_screen(0, 0, 1920, 1080, 1920, 1080));
    assert!(covers_screen(2, -5, 1918, 1080, 1920, 1080));
    assert!(!covers_screen(3, 0, 1920, 1080, 1920, 1080));
    assert!(!covers_screen(0, 0, 1917, 1080, 1920, 1080));
    assert_eq!(class_name_len(&[65, 66, 0, 67]), 2);
    assert_eq!(class_name_len(&[65, 66]), 0);
    assert!(is_desktop_class("Progman"));
    assert!(is_desktop_class("xWorkerWy"));
    assert!(!is_desktop_class("Chrome_WidgetWin_1"));
    assert!(is_fullscreen_window(true, "MediaPlayerClassicW"));
    assert!(!is_fullscreen_window(true, "WorkerW"));
    assert!(!is_fullscreen_window(false, "MediaPlayerClassicW"));
    assert!(str_contains("abc", ""));
    assert!(!str_contains("ab", "abc"));
}
