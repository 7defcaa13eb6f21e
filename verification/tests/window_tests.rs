use mediachat_native::config_window::{
    config_window_label, config_window_page, config_window_plan, config_window_size,
    config_window_title, ConfigWindowPlan,
};
use mediachat_native::livechat::{
    livechat_window, livechat_window_from_parsed, livechat_window_label, livechat_window_title,
    overlay_ex_style, LivechatError,
};

#[test]
fn valid_url_is_trimmed_and_normalized() {
    let w = livechat_window("  https://example.com  \n", 1920).ok().unwrap();
    assert_eq!(w.url, "https://example.com/");
    assert_eq!(w.pos_x, 1920);
}

#[test]
fn url_with_path_is_kept() {
    let w = livechat_window("http://localhost:3000/overlay?room=me", -1280).ok().unwrap();
    assert_eq!(w.url, "http://localhost:3000/overlay?room=me");
    assert_eq!(w.pos_x, -1280);
}

#[test]
fn invalid_url_is_refused() {
    assert!(matches!(livechat_window("not a url", 0), Err(LivechatError::InvalidUrl)));
    assert!(matches!(livechat_window("   ", 0), Err(LivechatError::InvalidUrl)));
}

#[test]
fn parsed_result_decides() {
    let w = livechat_window_from_parsed(Some("https://a.b/".to_string()), 7).ok().unwrap();
    assert_eq!(w.url, "https://a.b/");
    assert_eq!(w.pos_x, 7);
    assert!(matches!(livechat_window_from_parsed(None, 7), Err(LivechatError::InvalidUrl)));
}

#[test]
fn error_texts() {
    let e = LivechatError::InvalidUrl;
    assert_eq!(e.message(), "Error parsing URL");
    assert_eq!(e.warning_message(), "Invalid URL to parse");
    assert_eq!(e.warning_title(), "Error parsing URL");
}

#[test]
fn ex_style_bits() {
    assert_eq!(overlay_ex_style(), 0x0004_0000 | 0x0200_0000 | 0x0008_0000 | 0x20 | 0x8);
}

#[test]
fn livechat_window_names() {
    assert_eq!(livechat_window_label(), "livechat");
    assert_eq!(livechat_window_title(), "Transparent Overlay");
}

#[test]
fn config_window_plans() {
    assert_eq!(config_window_plan(false, false), ConfigWindowPlan::Build);
    assert_eq!(config_window_plan(false, true), ConfigWindowPlan::Build);
    assert_eq!(config_window_plan(true, false), ConfigWindowPlan::Focus);
    assert_eq!(config_window_plan(true, true), ConfigWindowPlan::FocusAndRestore);
}

#[test]
fn config_window_description() {
    assert_eq!(config_window_label(), "config");
    assert_eq!(config_window_page(), "config.html");
    assert_eq!(config_window_title(), "Transparent Overlay - Config");
    assert_eq!(config_window_size(), (350, 275));
}
