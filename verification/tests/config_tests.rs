use mediachat_native::config::{config_path_parts, icon_path_parts, Config};

#[test]
fn default_config_is_empty() {
    let c = Config::default();
    assert_eq!(c.room, "");
    assert_eq!(c.server, "");
}

#[test]
fn default_trait_matches_inherent_default() {
    let c: Config = Default::default();
    assert_eq!(c.room, "");
    assert_eq!(c.server, "");
}

#[test]
fn loaded_config_is_kept() {
    let loaded = Config { room: "alice".to_string(), server: "http://host:3000".to_string() };
    let c = Config::or_default(Some(loaded));
    assert_eq!(c.room, "alice");
    assert_eq!(c.server, "http://host:3000");
}

#[test]
fn missing_config_falls_back_to_default() {
    let c = Config::or_default(None);
    assert_eq!(c.room, "");
    assert_eq!(c.server, "");
}

#[test]
fn config_path_under_appdata() {
    let parts = config_path_parts(Some("C:\\Users\\me\\AppData\\Roaming".to_string()), "D:\\work".to_string());
    assert_eq!(parts, vec!["C:\\Users\\me\\AppData\\Roaming", "Transparent-Overlay", "config.json"]);
}

#[test]
fn config_path_in_current_dir() {
    let parts = config_path_parts(None, "/home/me/overlay".to_string());
    assert_eq!(parts, vec!["/home/me/overlay", "config.json"]);
}

#[test]
fn icon_path_in_temp_dir() {
    let parts = icon_path_parts("/tmp".to_string());
    assert_eq!(parts, vec!["/tmp", "transparent-overlay.png"]);
}
