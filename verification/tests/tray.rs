use lindiction::tray::{
    about_summary, command_for, ControlCmd, LindictionTray, MenuAction, MenuItem, TrayEvent,
};

const ALL: [TrayEvent; 4] = [
    TrayEvent::Idle,
    TrayEvent::Recording,
    TrayEvent::Processing,
    TrayEvent::Paused,
];

#[test]
fn icon_name_is_distinct_per_state() {
    let names: Vec<&str> = ALL.iter().map(|e| e.icon_name()).collect();
    assert_eq!(
        names,
        [
            "audio-input-microphone",
            "media-record",
            "view-refresh",
            "media-playback-pause",
        ]
    );
    let mut sorted = names.clone();
    sorted.sort();
    sorted.dedup();
    assert_eq!(sorted.len(), names.len(), "icon names must all be unique");
}

#[test]
fn tooltip_is_distinct_per_state() {
    let mut tips: Vec<&str> = ALL.iter().map(|e| e.tooltip()).collect();
    tips.sort();
    tips.dedup();
    assert_eq!(tips.len(), ALL.len(), "tooltips must all be unique");
    assert!(TrayEvent::Idle.tooltip().contains("idle"));
    assert!(TrayEvent::Recording.tooltip().contains("recording"));
    assert!(TrayEvent::Paused.tooltip().contains("paused"));
}

#[test]
fn tray_event_is_copy_and_eq() {
    let e = TrayEvent::Recording;
    let f = e;
    assert_eq!(e, f);
    assert_ne!(TrayEvent::Idle, TrayEvent::Recording);
}

fn labels(tray: &LindictionTray) -> Vec<String> {
    tray.menu()
        .into_iter()
        .map(|item| match item {
            MenuItem::Standard { label, .. } => label,
            MenuItem::Checkmark { label, checked, .. } => {
                format!("[{}] {label}", if checked { "x" } else { " " })
            }
            MenuItem::Separator => "-".to_string(),
        })
        .collect()
}

#[test]
fn the_menu_shows_what_applies() {
    let mut tray = LindictionTray::new(true, true, true);
    tray.update_available = Some("1.2.3".to_string());
    assert_eq!(
        labels(&tray),
        vec![
            "Update to v1.2.3…",
            "[ ] Pause",
            "Open config…",
            "[x] Auto-start on login",
            "Check for updates…",
            "-",
            "About Lindiction",
            "Help",
            "-",
            "Restart",
            "Quit",
        ]
    );
    let bare = LindictionTray::new(false, false, true);
    assert!(!bare.autostart_enabled);
    assert_eq!(
        labels(&bare),
        vec![
            "[ ] Pause",
            "Open config…",
            "-",
            "About Lindiction",
            "Help",
            "-",
            "Restart",
            "Quit",
        ]
    );
}

#[test]
fn the_update_badge_waits_for_idle() {
    let mut tray = LindictionTray::new(true, true, false);
    assert_eq!(tray.icon_name(), "audio-input-microphone");
    tray.update_available = Some("1.0.0".to_string());
    assert_eq!(tray.icon_name(), "software-update-available");
    tray.state = TrayEvent::Recording;
    assert_eq!(tray.icon_name(), "media-record");
    tray.state = TrayEvent::Paused;
    assert_eq!(tray.icon_name(), "media-playback-pause");
}

#[test]
fn the_pause_checkbox_never_lies() {
    let mut tray = LindictionTray::new(true, true, false);
    tray.toggle_pause(false);
    assert!(!tray.paused);
    tray.toggle_pause(true);
    assert!(tray.paused);
    assert!(labels(&tray).contains(&"[x] Pause".to_string()));
    tray.toggle_pause(true);
    assert!(!tray.paused);
}

#[test]
fn autostart_follows_success_and_reports_failure() {
    let mut tray = LindictionTray::new(true, true, false);
    assert!(tray.autostart_wanted());
    assert_eq!(
        tray.toggle_autostart(true, Err("no bus".to_string())),
        Some("Could not enable auto-start: no bus".to_string())
    );
    assert!(!tray.autostart_enabled);
    assert_eq!(tray.toggle_autostart(true, Ok(())), None);
    assert!(tray.autostart_enabled);
    assert!(!tray.autostart_wanted());
    assert_eq!(
        tray.toggle_autostart(false, Err("x".to_string())),
        Some("Could not disable auto-start: x".to_string())
    );
}

#[test]
fn actions_map_to_commands() {
    assert_eq!(command_for(MenuAction::Quit), Some(ControlCmd::Quit));
    assert_eq!(command_for(MenuAction::Restart), Some(ControlCmd::Restart));
    assert_eq!(
        command_for(MenuAction::TogglePause),
        Some(ControlCmd::TogglePause)
    );
    assert_eq!(
        command_for(MenuAction::CheckForUpdates),
        Some(ControlCmd::CheckForUpdates)
    );
    assert_eq!(
        command_for(MenuAction::InstallUpdate),
        Some(ControlCmd::InstallUpdate)
    );
    assert_eq!(command_for(MenuAction::Help), None);
    assert_eq!(about_summary("0.9.0"), "Lindiction v0.9.0");
}
