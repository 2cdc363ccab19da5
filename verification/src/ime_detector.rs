//! Decisions of the IME detector: whether the focused window is in Chinese
//! input mode, from the answers the operating system gives.

use vstd::prelude::*;

verus! {

/// Keyboard layout (language) of Chinese (PRC).
pub const LAYOUT_ZH_CN: u32 = 0x0804;

/// Keyboard layout (language) of Chinese (Taiwan).
pub const LAYOUT_ZH_TW: u32 = 0x0404;

/// The conversion-mode bit of native (non-ASCII) input.
pub const IME_CMODE_NATIVE: u32 = 0x0001;

/// The layout's language: the low word of the keyboard layout handle.
pub fn layout_id_from_hkl(hkl: usize) -> (r: u32)
    ensures
        r == hkl % 0x10000,
{
    let low = hkl & 0xFFFF;
    assert(low == hkl % 0x10000) by (bit_vector)
        requires
            low == hkl & 0xFFFF,
    ;
    low as u32
}

/// A Chinese keyboard layout: zh-CN or zh-TW.
pub open spec fn is_chinese_layout(layout_id: u32) -> bool {
    layout_id == LAYOUT_ZH_CN || layout_id == LAYOUT_ZH_TW
}

/// The IME's conversion mode has the native bit set (the mode is read as a
/// `u32`, whose lowest bit is the native flag).
pub fn has_native_mode(conversion_mode: usize) -> (r: bool)
    ensures
        r == (conversion_mode % 2 == 1),
{
    let m = conversion_mode as u32;
    let bit = m & IME_CMODE_NATIVE;
    assert(bit != 0 <==> conversion_mode % 2 == 1) by (bit_vector)
        requires
            m == conversion_mode as u32,
            bit == m & 1,
    ;
    bit != 0
}

/// Whether the input is in Chinese mode: the IME window answers that its
/// conversion mode is native, or (otherwise) that it is open (status 1), and
/// the keyboard layout is Chinese. `conversion_mode` and `open_status` are
/// `None` when there is no IME window or it did not answer.
pub open spec fn chinese_mode_spec(conversion_mode: Option<usize>, open_status: Option<usize>, layout_id: u32) -> bool {
    let native = match conversion_mode {
        Some(m) => m % 2 == 1,
        None => false,
    };
    if native {
        is_chinese_layout(layout_id)
    } else if open_status == Some(1usize) {
        is_chinese_layout(layout_id)
    } else {
        false
    }
}

/// Decides `chinese_mode_spec`. It is never Chinese mode on a non-Chinese
/// layout.
pub fn chinese_mode(conversion_mode: Option<usize>, open_status: Option<usize>, layout_id: u32) -> (r: bool)
    ensures
        r == chinese_mode_spec(conversion_mode, open_status, layout_id),
        r ==> is_chinese_layout(layout_id),
{
    let native = match conversion_mode {
        Some(m) => has_native_mode(m),
        None => false,
    };
    let open = match open_status {
        Some(o) => o,
        None => 0,
    };
    if native {
        layout_id == LAYOUT_ZH_CN || layout_id == LAYOUT_ZH_TW
    } else if open == 1 {
        layout_id == LAYOUT_ZH_CN || layout_id == LAYOUT_ZH_TW
    } else {
        false
    }
}

/// Caps Lock is on when the low (toggle) bit of its key state is set.
pub fn caps_lock_from_key_state(state: i16) -> (r: bool)
    ensures
        r == (state % 2 != 0),
{
    let bit = state & 0x0001;
    assert(bit != 0 <==> state % 2 != 0) by (bit_vector)
        requires
            bit == state & 1,
    ;
    bit != 0
}

/// The window whose input state is read.
#[derive(Debug, Clone, Copy, PartialEq, Eq, Structural)]
pub enum FocusWindow {
    /// The focus window of the foreground thread.
    Focus,
    /// Its active window.
    Active,
    /// The foreground window itself.
    Foreground,
}

/// The focus window when the thread reports one, else its active window,
/// else the foreground window (also when the thread cannot be asked).
pub fn focus_window(thread_info: bool, has_focus: bool, has_active: bool) -> (r: FocusWindow)
    ensures
        r == if thread_info && has_focus {
            FocusWindow::Focus
        } else if thread_info && has_active {
            FocusWindow::Active
        } else {
            FocusWindow::Foreground
        },
{
    if thread_info {
        if has_focus {
            return FocusWindow::Focus;
        }
        if has_active {
            return FocusWindow::Active;
        }
    }
    FocusWindow::Foreground
}

// ============================================================================
// Laws
// ============================================================================

/// An IME in native conversion mode, or an open IME, on the zh-CN layout
/// (`0x0804`) or the zh-TW layout (`0x0404`, e.g. Bopomofo) is Chinese mode.
pub proof fn lemma_chinese_layouts_give_chinese_mode(conversion_mode: Option<usize>, open_status: Option<usize>)
    requires
        (conversion_mode matches Some(m) && m % 2 == 1) || open_status == Some(1usize),
    ensures
        chinese_mode_spec(conversion_mode, open_status, 0x0804),
        chinese_mode_spec(conversion_mode, open_status, 0x0404),
{
}

/// On any other layout it is never Chinese mode, whatever the IME answers.
pub proof fn lemma_other_layouts_give_english(
    conversion_mode: Option<usize>,
    open_status: Option<usize>,
    layout_id: u32,
)
    requires
        layout_id != 0x0804,
        layout_id != 0x0404,
    ensures
        !chinese_mode_spec(conversion_mode, open_status, layout_id),
{
}

/// An IME neither in native mode nor open (or no IME answer at all) is
/// never Chinese mode, whatever the layout.
pub proof fn lemma_closed_ime_gives_english(conversion_mode: Option<usize>, open_status: Option<usize>, layout_id: u32)
    requires
        !(conversion_mode matches Some(m) && m % 2 == 1),
        open_status != Some(1usize),
    ensures
        !chinese_mode_spec(conversion_mode, open_status, layout_id),
{
}

} // verus!
