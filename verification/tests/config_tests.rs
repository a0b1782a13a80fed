use asbar::autostart::{shortcut_step, ShortcutStep};
use asbar::autostart::{shortcut_path, startup_dir};
use asbar::config::{config_path, icons_dir, join_path, root_dir, Anchor, Settings};

#[test]
fn asbar_directories() {
    assert_eq!(root_dir(), "C:/AsBar");
    assert_eq!(icons_dir(), "C:/AsBar/Assets/Icons");
    assert_eq!(config_path(), "C:/AsBar/config.json");
}

#[test]
fn joining_paths() {
    assert_eq!(join_path("a", "b"), "a/b");
    assert_eq!(join_path("a/", "b"), "a/b");
    assert_eq!(join_path("a\\", "b"), "a\\b");
    assert_eq!(join_path("", "b"), "b");
}

#[test]
fn anchor_defaults_to_center() {
    assert_eq!(Anchor::default(), Anchor::Center);
}

#[test]
fn startup_shortcut_location() {
    let appdata = "C:\\Users\\me\\AppData\\Roaming";
    assert_eq!(
        startup_dir(appdata),
        "C:\\Users\\me\\AppData\\Roaming/Microsoft/Windows/Start Menu/Programs/Startup"
    );
    assert_eq!(
        shortcut_path(appdata),
        "C:\\Users\\me\\AppData\\Roaming/Microsoft/Windows/Start Menu/Programs/Startup/AsBar.lnk"
    );
}

#[test]
fn shortcut_steps() {
    assert_eq!(
        shortcut_step(None, true),
        Err("could not locate the Startup folder".to_string())
    );
    assert_eq!(
        shortcut_step(Some("D:".to_string()), true),
        Ok(ShortcutStep::Create("D:/Microsoft/Windows/Start Menu/Programs/Startup/AsBar.lnk".to_string()))
    );
    assert_eq!(
        shortcut_step(Some("D:/".to_string()), false),
        Ok(ShortcutStep::Remove("D:/Microsoft/Windows/Start Menu/Programs/Startup/AsBar.lnk".to_string()))
    );
}

#[test]
fn fresh_settings() {
    let s = Settings::default();
    assert_eq!((s.width, s.height, s.margin_top, s.offset_x, s.corner_radius), (510, 100, 0, 0, 30));
    assert_eq!(s.anchor, Anchor::Center);
    assert_eq!(s.bg_color, "#050507");
    assert_eq!(s.text_color, "#FFFFFF");
    assert_eq!(s.accent_color, "#E0E0EC");
    assert!(!s.follow_system_accent && s.always_on_top && s.dynamic_accent && !s.autostart);
    assert_eq!(s.language, "ru");
}
