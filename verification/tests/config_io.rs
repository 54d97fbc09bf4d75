use tanuki::app::config_io::AgentPanelSort;
use tanuki::app::config_io::App;
use tanuki::app::config_io::ConfigEdit;
use tanuki::app::config_io::ConfigUpdate;
use tanuki::app::config_io::WriteOutcome;
use tanuki::ui::settings::ToastDelivery;

fn value(section: &str, key: &str, value: &str) -> ConfigEdit {
    ConfigEdit::SectionValue(section.into(), key.into(), value.into())
}

fn flag(section: &str, key: &str, value: bool) -> ConfigEdit {
    ConfigEdit::SectionBool(section.into(), key.into(), value)
}

fn update(context: &str, edits: Vec<ConfigEdit>) -> ConfigUpdate {
    ConfigUpdate { error_context: context.into(), edits, reload: true }
}

#[test]
fn every_setting_writes_its_keys() {
    assert_eq!(
        App::mark_onboarding_complete(),
        ConfigUpdate {
            error_context: "onboarding setting".into(),
            edits: vec![ConfigEdit::TopLevelBool("onboarding".into(), false)],
            reload: false,
        }
    );
    assert_eq!(
        App::save_theme("nord"),
        update("theme", vec![value("theme", "name", "\"nord\""), flag("theme", "auto_switch", false)])
    );
    assert_eq!(
        App::save_sound(true),
        update("sound setting", vec![flag("ui.sound", "enabled", true)])
    );
    for (delivery, name) in [
        (ToastDelivery::Off, "\"off\""),
        (ToastDelivery::Tanuki, "\"tanuki\""),
        (ToastDelivery::Terminal, "\"terminal\""),
        (ToastDelivery::System, "\"system\""),
    ] {
        assert_eq!(
            App::save_toast_delivery(delivery),
            update(
                "toast setting",
                vec![
                    value("ui.toast", "delivery", name),
                    ConfigEdit::RemoveKey("ui.toast".into(), "enabled".into())
                ]
            )
        );
    }
    assert_eq!(
        App::save_language("ru"),
        update("language setting", vec![value("ui", "language", "\"ru\"")])
    );
    assert_eq!(
        App::save_agent_border_labels(false),
        update(
            "agent border labels",
            vec![flag("ui", "show_agent_labels_on_pane_borders", false)]
        )
    );
    assert_eq!(
        App::save_pane_history_persistence(true),
        update("pane screen history", vec![flag("experimental", "pane_history", true)])
    );
    assert_eq!(
        App::save_cloud_host(true),
        update("cloud host", vec![flag("remote", "cloud_host", true)])
    );
    assert_eq!(
        App::save_switch_ascii_input_source_in_prefix(true),
        update(
            "prefix ascii input source",
            vec![flag("experimental", "switch_ascii_input_source_in_prefix", true)]
        )
    );
    assert_eq!(
        App::save_keybind("next_agent", "prefix+tab"),
        update("keybind", vec![value("keys", "next_agent", "\"prefix+tab\"")])
    );
    assert_eq!(
        App::save_agent_panel_sort(AgentPanelSort::Priority, "spaces", "priority"),
        update("agent panel sort", vec![value("ui", "agent_panel_sort", "\"priority\"")])
    );
    assert_eq!(
        App::save_agent_panel_sort(AgentPanelSort::Spaces, "spaces", "priority"),
        update("agent panel sort", vec![value("ui", "agent_panel_sort", "\"spaces\"")])
    );
}

#[test]
fn failures_are_shown_for_five_seconds() {
    let mut app = App::new(Some(1));
    assert_eq!(app.diagnostic(), (None, None));
    assert!(!app.update_config_file("theme", WriteOutcome::DirFailed("denied".into()), 100));
    assert_eq!(
        app.diagnostic(),
        (Some("failed to save theme: denied"), Some(5_000_000_100))
    );
    assert!(!app.update_config_file("keybind", WriteOutcome::WriteFailed("full".into()), 200));
    assert_eq!(
        app.diagnostic(),
        (Some("failed to save keybind: full"), Some(5_000_000_200))
    );
    // A failed write leaves the known time alone.
    assert!(!app.check_external_config_change(Some(1)));
}

#[test]
fn own_writes_are_no_outside_changes() {
    let mut app = App::new(Some(1));
    assert!(app.update_config_file("theme", WriteOutcome::Written(Some(2)), 0));
    assert!(!app.check_external_config_change(Some(2)));
    assert!(app.check_external_config_change(Some(3)));
    assert!(!app.check_external_config_change(Some(3)));
    assert!(!app.check_external_config_change(None));
    assert!(!app.check_external_config_change(Some(4)));
    assert!(app.check_external_config_change(Some(5)));
    let mut fresh = App::new(None);
    assert!(!fresh.check_external_config_change(Some(1)));
}
