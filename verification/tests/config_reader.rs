use rust_indicator::config::{
    caret_color_cn, caret_editable_check, caret_methods, caret_size, color_is_defined,
    generate_toml_template, mouse_target_cursors, parse_color, state_poll_interval_ms, Config,
    ConfigParseExt, EditableCheck,
};
use rust_indicator::config_text::load_config_text;

fn load(text: &str) -> Config {
    load_config_text(text).expect("loadable")
}

fn methods(c: &Config) -> Vec<&str> {
    c.caret_methods.iter().map(|s| s.as_str()).collect()
}

fn assert_defaults(c: &Config) {
    assert_eq!(c.poll_state_interval_ms, 100);
    assert_eq!(c.poll_track_interval_ms, 10);
    assert!(c.tray_enable);
    assert!(c.caret_enable);
    assert_eq!(c.caret_color_cn, 0xA0FF7800);
    assert_eq!(c.caret_color_en, 0x300078FF);
    assert_eq!(c.caret_size, 8);
    assert_eq!(c.caret_offset_x, 0);
    assert_eq!(c.caret_offset_y, 0);
    assert!(c.caret_show_en);
    assert_eq!(methods(c), vec!["gui_info", "uia_selection", "msaa"]);
    assert!(c.mouse_enable);
    assert_eq!(c.mouse_color_cn, 0xA0FF7800);
    assert_eq!(c.mouse_color_en, 0x300078FF);
    assert_eq!(c.mouse_size, 8);
    assert_eq!(c.mouse_offset_x, 2);
    assert_eq!(c.mouse_offset_y, 18);
    assert!(c.mouse_show_en);
    assert_eq!(c.mouse_target_cursors, vec![32513, 32512]);
}

#[test]
fn default_config_values() {
    assert_defaults(&Config::default());
}

#[test]
fn default_colors_are_the_template_colors() {
    assert_eq!(parse_color("#FF7800A0"), Config::default().caret_color_cn);
    assert_eq!(parse_color("#0078FF30"), Config::default().caret_color_en);
}

#[test]
fn parse_color_full_and_short_forms() {
    assert_eq!(parse_color("#FF7800A0"), 0xA0FF7800);
    assert_eq!(parse_color("#0078FF30"), 0x300078FF);
    assert_eq!(parse_color("FF7800"), 0xA0FF7800);
    assert_eq!(parse_color("  \"#12345678\"  "), 0x78123456);
    assert_eq!(parse_color("##abcdef"), 0xA0ABCDEF);
    assert_eq!("#11223344".parse_color(), 0x44112233);
}

#[test]
fn parse_color_fallbacks() {
    // too short: the built-in orange
    assert_eq!(parse_color("#12"), 0xA0FF7800);
    assert_eq!(parse_color(""), 0xA0FF7800);
    // a channel that is not hex reads as 0
    assert_eq!(parse_color("#GG3344"), 0xA0003344);
    // alpha that is not hex, or a length other than 8: 0xA0
    assert_eq!(parse_color("#112233ZZ"), 0xA0112233);
    assert_eq!(parse_color("#1122334"), 0xA0112233);
    assert_eq!(parse_color("#1122334455"), 0xA0112233);
    // a leading plus is accepted by the radix parser
    assert_eq!(parse_color("+F0000"), 0xA00F0000);
}

#[test]
fn parse_color_non_ascii() {
    // 'é' takes two bytes: it is a whole channel, which is not hex
    assert!(color_is_defined("\u{e9}1234"));
    assert_eq!(parse_color("\u{e9}1234"), 0xA0001234);
    // here byte 2 falls inside 'é'
    assert!(!color_is_defined("a\u{e9}1234"));
    assert!(color_is_defined("#12"));
}

#[test]
fn empty_text_gives_defaults() {
    assert_defaults(&load(""));
    assert_defaults(&load("# only a comment\n\n[caret]\n"));
}

#[test]
fn template_gives_defaults() {
    let t = generate_toml_template();
    assert!(t.contains("[poll]"));
    assert_defaults(&load(&t));
}

#[test]
fn template_text_is_exact() {
    let expected = "# 输入指示器 (IME Indicator) 配置文件\n\
[poll]\n\
state_interval_ms = 100   # 状态检测间隔 (ms)\n\
track_interval_ms = 10    # 位置追踪间隔 (ms)\n\
\n\
[tray]\n\
enable = true               # 是否显示托盘图标 (false 时完全后台运行，只能通过任务管理器结束)\n\
\n\
[caret]\n\
enable = true               # 是否启用文本光标提示\n\
color_cn = \"#FF7800A0\"    # 中文状态颜色 (#RRGGBBAA)\n\
color_en = \"#0078FF30\"    # 英文状态颜色\n\
size = 8                    # 提示球大小\n\
offset_x = 0\n\
offset_y = 0\n\
show_en = true              # 英文状态下是否显示\n\
# 光标检测方法及落级顺序（可删减、可调序）\n\
# 可选: gui_info(记事本等原生) uia_selection(浏览器/VS Code) msaa(浏览器 caret 对象)\n\
methods = [\"gui_info\", \"uia_selection\", \"msaa\"]\n\
\n\
[mouse]\n\
enable = true               # 是否开启鼠标提示\n\
color_cn = \"#FF7800A0\"    # 中文状态颜色\n\
color_en = \"#0078FF30\"    # 英文状态颜色\n\
size = 8                    # 提示球大小\n\
offset_x = 2\n\
offset_y = 18\n\
show_en = true              # 英文状态下是否显示\n\
target_cursors = [32513, 32512]  # I-Beam, Normal\n\
";
    assert_eq!(generate_toml_template(), expected);
}

#[test]
fn numbers_and_comments() {
    let c = load("[poll]\nstate_interval_ms = 250   # faster\ntrack_interval_ms = +7\n");
    assert_eq!(c.poll_state_interval_ms, 250);
    assert_eq!(c.poll_track_interval_ms, 7);
    let c = load("[caret]\nsize = 12\noffset_x = -3\noffset_y = -2147483648\n");
    assert_eq!(c.caret_size, 12);
    assert_eq!(c.caret_offset_x, -3);
    assert_eq!(c.caret_offset_y, i32::MIN);
}

#[test]
fn invalid_values_keep_defaults() {
    let c = load("[caret]\nsize = abc\noffset_x = 2147483648\nenable = False\n[poll]\nstate_interval_ms = -1\n");
    assert_eq!(c.caret_size, 8);
    assert_eq!(c.caret_offset_x, 0);
    assert!(c.caret_enable);
    assert_eq!(c.poll_state_interval_ms, 100);
}

#[test]
fn sections_and_keys_ignore_case() {
    let c = load("[POLL]\nSTATE_INTERVAL_MS = 250\n[Mouse]\nEnable = false\n");
    assert_eq!(c.poll_state_interval_ms, 250);
    assert!(!c.mouse_enable);
}

#[test]
fn last_assignment_wins() {
    let c = load("[caret]\nsize = 5\nsize = 6\n");
    assert_eq!(c.caret_size, 6);
    // the last value counts even when it does not read
    let c = load("[caret]\nsize = 5\nsize = x\n");
    assert_eq!(c.caret_size, 8);
}

#[test]
fn keys_outside_their_section_are_ignored() {
    let c = load("size = 30\n[mouse]\nsize = 20\n");
    assert_eq!(c.caret_size, 8);
    assert_eq!(c.mouse_size, 20);
}

#[test]
fn switches() {
    let c = load("[tray]\nenable = false\n[caret]\nshow_en = false\n[mouse]\nshow_en = true\n");
    assert!(!c.tray_enable);
    assert!(!c.caret_show_en);
    assert!(c.mouse_show_en);
}

#[test]
fn method_lists() {
    let c = load("[caret]\nmethods = [\"MSAA\", \"gui_info\", \"\"]\n");
    assert_eq!(methods(&c), vec!["msaa", "gui_info"]);
    let c = load("[caret]\nmethods = []\n");
    assert_eq!(methods(&c), vec!["gui_info", "uia_selection", "msaa"]);
}

#[test]
fn cursor_lists() {
    let c = load("[mouse]\ntarget_cursors = [1, x, 3]\n");
    assert_eq!(c.mouse_target_cursors, vec![1, 3]);
    let c = load("[mouse]\ntarget_cursors =\n");
    assert_eq!(c.mouse_target_cursors, Vec::<u32>::new());
}

#[test]
fn editable_check_is_not_a_setting() {
    for text in [
        "[caret]\neditable_check = off\n",
        "[caret]\neditable_check = \"edit_or_document\"\n",
        "[caret]\neditable_check = edit_only\n",
    ] {
        let c = load(text);
        assert_eq!(caret_editable_check(&c), EditableCheck::EditOnly);
        assert_defaults(&c);
    }
}

#[test]
fn method_names_are_lower_case() {
    let c = load("[caret]\nmethods = [\"GUI_Info\",  MSAA ]\n");
    assert_eq!(methods(&c), vec!["gui_info", "msaa"]);
    // blanks inside the quotes stay
    let c = load("[caret]\nmethods = [\" Msaa \"]\n");
    assert_eq!(methods(&c), vec![" msaa "]);
}

#[test]
fn color_channels_pack() {
    for &(r, g, b, a) in &[(0x12u32, 0xabu32, 0x00u32, 0xffu32), (0xff, 0x00, 0x7f, 0x01)] {
        let packed = (a << 24) | (r << 16) | (g << 8) | b;
        assert_eq!(parse_color(&format!("#{:02X}{:02X}{:02X}{:02X}", r, g, b, a)), packed);
        assert_eq!(parse_color(&format!(" \"#{:02x}{:02x}{:02x}{:02x}\"\t", r, g, b, a)), packed);
    }
}

#[test]
fn colors_in_file() {
    let c = load("[caret]\ncolor_cn = \"#11223344\"    # cn\n[mouse]\ncolor_en = 00FF00\n");
    assert_eq!(c.caret_color_cn, 0x44112233);
    assert_eq!(c.mouse_color_en, 0xA000FF00);
    // an unquoted value starting with '#' is cut as a comment
    let c = load("[caret]\ncolor_en = #11223344\n");
    assert_eq!(c.caret_color_en, 0xA0FF7800);
}

#[test]
fn unreadable_color_refuses_the_file() {
    assert!(load_config_text("[caret]\ncolor_cn = a\u{e9}1234\n").is_none());
    // only the last assignment is read
    assert!(load_config_text("[caret]\ncolor_cn = a\u{e9}1234\ncolor_cn = #112233\n").is_some());
}

#[test]
fn crlf_lines() {
    let c = load("[caret]\r\nsize = 9\r\n");
    assert_eq!(c.caret_size, 9);
}

#[test]
fn accessors() {
    let c = load("[caret]\nsize = 3\n");
    assert_eq!(state_poll_interval_ms(&c), 100);
    assert_eq!(caret_size(&c), 3);
    assert_eq!(caret_color_cn(&c), 0xA0FF7800);
    assert_eq!(caret_editable_check(&c), EditableCheck::EditOnly);
    assert_eq!(caret_methods(&c).len(), 3);
    assert_eq!(mouse_target_cursors(&c), &[32513, 32512]);
}
