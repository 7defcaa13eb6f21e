use mediachat_native::socket::{join_event, media_event, socket_command, socket_commands, SocketCommand};
use mediachat_native::tray::{tray_action, tray_menu, tray_tooltip, MenuEntry, TrayAction};

#[test]
fn socket_messages() {
    assert_eq!(socket_command("flush"), SocketCommand::Flush);
    assert_eq!(socket_command("skip"), SocketCommand::Skip);
    assert_eq!(socket_command("Skip"), SocketCommand::Unknown);
    assert_eq!(socket_command(""), SocketCommand::Unknown);
}

#[test]
fn socket_batches() {
    let texts = vec!["skip".to_string(), "hello".to_string(), "flush".to_string()];
    assert_eq!(
        socket_commands(&texts),
        vec![SocketCommand::Skip, SocketCommand::Unknown, SocketCommand::Flush]
    );
}

#[test]
fn socket_event_names() {
    assert_eq!(join_event(), "join");
    assert_eq!(media_event(), "mediachat");
}

#[test]
fn tray_actions() {
    assert_eq!(tray_action("quit", false), TrayAction::Quit);
    assert_eq!(tray_action("reload", true), TrayAction::ReloadLivechat);
    assert_eq!(tray_action("config", true), TrayAction::OpenConfig);
    assert_eq!(tray_action("nope", true), TrayAction::Unhandled);
}

#[test]
fn autostart_toggles() {
    assert_eq!(tray_action("autostart", true), TrayAction::SetAutostart(false));
    assert_eq!(tray_action("autostart", false), TrayAction::SetAutostart(true));
}

#[test]
fn tray_menu_layout() {
    let menu = tray_menu(true);
    assert_eq!(menu.len(), 5);
    match &menu[0] {
        MenuEntry::Check { id, label, checked } => {
            assert_eq!(id, "autostart");
            assert_eq!(label, "Launch on Start Up");
            assert!(*checked);
        }
        _ => panic!("first entry must be the start-up check box"),
    }
    let expect = [("config", "Open Config"), ("reload", "Reload")];
    for (k, (eid, elabel)) in expect.iter().enumerate() {
        match &menu[k + 1] {
            MenuEntry::Item { id, label } => {
                assert_eq!(id, eid);
                assert_eq!(label, elabel);
            }
            _ => panic!("plain entry expected"),
        }
    }
    assert!(matches!(menu[3], MenuEntry::Separator));
    match &menu[4] {
        MenuEntry::Item { id, label } => {
            assert_eq!(id, "quit");
            assert_eq!(label, "Quit");
        }
        _ => panic!("quit entry expected"),
    }
    match &tray_menu(false)[0] {
        MenuEntry::Check { checked, .. } => assert!(!*checked),
        _ => panic!("first entry must be the start-up check box"),
    }
}

#[test]
fn tray_tooltip_text() {
    assert_eq!(tray_tooltip(), "Transparent Overlay");
}
