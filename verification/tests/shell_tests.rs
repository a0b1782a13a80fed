use asbar::shell::{settings_changes, SettingsChanges};
use asbar::shell::{close_action, hex_color, tray_action, tray_labels, CloseAction, TrayAction, VisibleSet};

#[test]
fn visible_set_marks_and_unmarks() {
    let mut v = VisibleSet::new();
    assert!(!v.contains("island"));
    v.mark_visible("island", true);
    v.mark_visible("settings", true);
    assert!(v.contains("island"));
    assert!(v.contains("settings"));
    v.mark_visible("settings", false);
    assert!(!v.contains("settings"));
    assert!(v.contains("island"));
}

#[test]
fn visible_set_holds_each_label_once() {
    let mut v = VisibleSet::new();
    v.mark_visible("assistant", true);
    v.mark_visible("assistant", true);
    v.mark_visible("island", true);
    let mut labels = v.labels();
    labels.sort();
    assert_eq!(labels, vec!["assistant".to_string(), "island".to_string()]);
    v.mark_visible("assistant", false);
    assert_eq!(v.labels(), vec!["island".to_string()]);
    v.mark_visible("missing", false);
    assert_eq!(v.labels(), vec!["island".to_string()]);
}

#[test]
fn tray_labels_by_language() {
    assert_eq!(tray_labels("en"), ("AI assistant", "Settings", "Show / hide island", "Quit"));
    assert_eq!(tray_labels("ru"), ("AI-ассистент", "Настройки", "Показать / скрыть остров", "Выход"));
    assert_eq!(tray_labels("EN"), ("AI-ассистент", "Настройки", "Показать / скрыть остров", "Выход"));
}

#[test]
fn tray_menu_actions() {
    assert_eq!(tray_action("assistant"), TrayAction::OpenAssistant);
    assert_eq!(tray_action("settings"), TrayAction::OpenSettings);
    assert_eq!(tray_action("toggle"), TrayAction::ToggleIsland);
    assert_eq!(tray_action("quit"), TrayAction::Quit);
    assert_eq!(tray_action("other"), TrayAction::Ignore);
}

#[test]
fn close_requests() {
    assert_eq!(close_action("settings"), CloseAction::Hide);
    assert_eq!(close_action("assistant"), CloseAction::Hide);
    assert_eq!(close_action("island"), CloseAction::ExitApp);
    assert_eq!(close_action("other"), CloseAction::Allow);
}

#[test]
fn accent_as_hex() {
    assert_eq!(hex_color(0x1F, 0xA0, 0xFF), "#1FA0FF");
    assert_eq!(hex_color(0, 0, 0), "#000000");
    assert_eq!(hex_color(224, 224, 236), "#E0E0EC");
}

#[test]
fn saving_settings_reconciles_only_what_changed() {
    assert_eq!(
        settings_changes(false, "ru", false, "ru"),
        SettingsChanges { reconcile_autostart: false, language_changed: false }
    );
    assert_eq!(
        settings_changes(false, "ru", true, "en"),
        SettingsChanges { reconcile_autostart: true, language_changed: true }
    );
    assert_eq!(
        settings_changes(true, "en", false, "en"),
        SettingsChanges { reconcile_autostart: true, language_changed: false }
    );
}
