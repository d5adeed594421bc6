use bark::discovery::{DiscoveredSource, SourceType};
use bark::picker::{PickerMode, PickerState, SettingsState};

fn found(name: &str) -> DiscoveredSource {
    DiscoveredSource {
        name: name.to_string(),
        source_type: SourceType::Docker,
        status: "running".to_string(),
        extra: None,
        namespace: None,
    }
}

#[test]
fn test_picker_navigation_and_selection() {
    let mut picker = PickerState::default();
    picker.open(PickerMode::K8s);
    assert!(picker.visible && picker.loading);
    picker.set_sources(vec![found("a"), found("b"), found("c")]);
    assert!(!picker.loading);
    assert!(!picker.has_selection());
    picker.down();
    picker.down();
    picker.down();
    assert_eq!(picker.selected, 2);
    assert_eq!(picker.get_selected_source().map(|s| s.name.clone()), Some("c".to_string()));
    picker.up();
    picker.toggle_selected();
    assert!(picker.has_selection());
    let checked: Vec<String> = picker.get_checked_sources().iter().map(|s| s.name.clone()).collect();
    assert_eq!(checked, vec!["b"]);
    assert_eq!(picker.get_selected_source().map(|s| s.name.clone()), Some("b".to_string()));
    picker.set_error("boom".to_string());
    assert_eq!(picker.error.as_deref(), Some("boom"));
    picker.close();
    assert!(!picker.visible);
}

#[test]
fn test_settings_navigation() {
    let mut settings = SettingsState::default();
    settings.open();
    settings.up();
    assert_eq!(settings.selected, 0);
    for _ in 0..10 {
        settings.down();
    }
    assert_eq!(settings.selected, SettingsState::COUNT - 1);
    settings.close();
    assert!(!settings.visible);
}
