use tanuki::ui::settings::indexed_keybind_label;
use tanuki::ui::settings::indexed_range_prefix;
use tanuki::ui::settings::integrations_footer_height;
use tanuki::ui::settings::integrations_footer_paragraph;
use tanuki::ui::settings::keybind_description;
use tanuki::ui::settings::keybind_search_line;
use tanuki::ui::settings::limit_footer_rows;
use tanuki::ui::settings::render_settings_experiments;
use tanuki::ui::settings::render_settings_integrations;
use tanuki::ui::settings::render_settings_keybinds;
use tanuki::ui::settings::render_settings_overlay;
use tanuki::ui::settings::render_settings_theme;
use tanuki::ui::settings::section_popup_height;
use tanuki::ui::settings::selected_tab;
use tanuki::ui::settings::settings_button_rects;
use tanuki::ui::settings::settings_fits;
use tanuki::ui::settings::settings_footer_hint;
use tanuki::ui::settings::settings_popup_height;
use tanuki::ui::settings::settings_primary_button_label;
use tanuki::ui::settings::settings_separator;
use tanuki::ui::settings::settings_show_primary_action;
use tanuki::ui::settings::settings_tab_label;
use tanuki::ui::settings::settings_title;
use tanuki::ui::settings::CustomCommand;
use tanuki::ui::settings::Experiment;
use tanuki::ui::settings::IndexedKeybind;
use tanuki::ui::settings::IntegrationHints;
use tanuki::ui::settings::IntegrationList;
use tanuki::ui::settings::IntegrationRecommendation;
use tanuki::ui::settings::IntegrationStatusKind;
use tanuki::ui::settings::Integrations;
use tanuki::ui::settings::KeybindCaptureKind;
use tanuki::ui::settings::KeybindDescription;
use tanuki::ui::settings::KeybindItem;
use tanuki::ui::settings::KeybindList;
use tanuki::ui::settings::KeybindRow;
use tanuki::ui::settings::KeybindTexts;
use tanuki::ui::settings::Keybinds;
use tanuki::ui::settings::MarkerTone;
use tanuki::ui::settings::SettingsContent;
use tanuki::ui::settings::SettingsSection;
use tanuki::ui::settings::SettingsTab;
use tanuki::ui::settings::SettingsValues;
use tanuki::ui::settings::ToastDelivery;

fn experiments(pane_history: bool, ascii_input: bool) -> Vec<Experiment> {
    vec![
        Experiment { label: "pane screen history".to_string(), enabled: pane_history },
        Experiment {
            label: "switch to ascii input source in prefix (macOS)".to_string(),
            enabled: ascii_input,
        },
    ]
}

fn rendered(experiments: &[Experiment], selected: usize) -> String {
    render_settings_experiments(experiments, selected)
        .into_iter()
        .map(|row| row.text)
        .collect()
}

#[test]
fn experiments_pane_history_uses_settings_checkmark_marker() {
    let rendered = rendered(&experiments(true, false), 0);

    assert!(rendered.contains("pane screen history [✓]"));
    assert!(!rendered.contains("[x]"));
}

#[test]
fn experiments_pane_history_keeps_empty_checkbox_marker_when_disabled() {
    let rendered = rendered(&experiments(false, false), 0);

    assert!(rendered.contains("pane screen history [ ]"));
}

#[test]
fn experiments_renders_switch_ascii_input_source_row() {
    let rendered = rendered(&experiments(false, true), 1);

    assert!(rendered.contains("switch to ascii input source in prefix (macOS) [✓]"));
}

#[test]
fn the_selected_experiment_is_marked() {
    let rows = render_settings_experiments(&experiments(true, false), 1);
    assert_eq!(rows[0].text, " pane screen history [✓]");
    assert!(!rows[0].selected);
    assert!(rows[1].selected);
}

fn integration(state: IntegrationStatusKind, available: bool, needs: bool) -> IntegrationRecommendation {
    IntegrationRecommendation {
        label: "editor".to_string(),
        status_label: "status".to_string(),
        available,
        state,
        needs_install: needs,
    }
}

fn hints() -> IntegrationHints {
    IntegrationHints {
        install: "install them".to_string(),
        all_installed: "all there".to_string(),
        none_found: "none".to_string(),
    }
}

fn integrations(list: Vec<IntegrationRecommendation>, messages: &[&str]) -> Integrations {
    Integrations {
        recommendations: list,
        install_messages: messages.iter().map(|m| m.to_string()).collect(),
    }
}

#[test]
fn the_footer_tells_what_was_installed_or_what_could_be() {
    let lines = |list, messages: &[&str]| {
        integrations_footer_paragraph(&integrations(list, messages), &hints())
    };
    assert_eq!(lines(vec![], &["one", "two"]), vec![" one", " two"]);
    assert_eq!(lines(vec![integration(IntegrationStatusKind::NotInstalled, true, true)], &[]), vec![" install them"]);
    assert_eq!(lines(vec![integration(IntegrationStatusKind::Current, false, false)], &[]), vec![" all there"]);
    assert_eq!(lines(vec![integration(IntegrationStatusKind::NotInstalled, true, false)], &[]), vec![" all there"]);
    assert_eq!(lines(vec![integration(IntegrationStatusKind::NotInstalled, false, false)], &[]), vec![" none"]);
    assert_eq!(lines(vec![], &[]), vec![" none"]);
}

#[test]
fn the_footer_wraps_and_is_bounded() {
    let short = integrations(vec![], &["one"]);
    assert_eq!(integrations_footer_height(&short, &hints(), 74), 1);
    assert_eq!(integrations_footer_height(&short, &hints(), 0), 0);
    let words = integrations(vec![], &["aaaa bbbb cccc"]);
    assert_eq!(integrations_footer_height(&words, &hints(), 10), 2);
    assert_eq!(integrations_footer_height(&words, &hints(), 20), 1);
    let many = integrations(vec![], &["1", "2", "3", "4", "5", "6", "7", "8"]);
    assert_eq!(integrations_footer_height(&many, &hints(), 74), 6);
    assert_eq!(limit_footer_rows(5), 5);
    assert_eq!(limit_footer_rows(7), 6);
    assert_eq!(limit_footer_rows(0x10000), 0);
}

#[test]
fn the_popup_grows_with_the_list() {
    let none = integrations(vec![], &[]);
    assert_eq!(settings_popup_height(SettingsSection::Theme, &none, &hints()), 22);
    assert_eq!(settings_popup_height(SettingsSection::Integrations, &none, &hints()), 22);
    let ten = (0..10).map(|_| integration(IntegrationStatusKind::Current, true, false)).collect();
    let ten = integrations(ten, &["a", "b"]);
    assert_eq!(settings_popup_height(SettingsSection::Integrations, &ten, &hints()), 26);
    assert_eq!(settings_popup_height(SettingsSection::Sound, &ten, &hints()), 22);
    assert_eq!(section_popup_height(SettingsSection::Integrations, 0, 6), 22);
    assert_eq!(section_popup_height(SettingsSection::Sound, 0xffff, 6), 22);
    assert_eq!(section_popup_height(SettingsSection::Integrations, 3, 6), 23);
}

#[test]
fn integrations_are_marked_by_state() {
    let list = [
        integration(IntegrationStatusKind::Current, true, false),
        integration(IntegrationStatusKind::Outdated, false, true),
        integration(IntegrationStatusKind::NotInstalled, true, true),
        integration(IntegrationStatusKind::NotInstalled, false, false),
    ];
    let rows = match render_settings_integrations(&list, "none") {
        IntegrationList::Rows(rows) => rows,
        other => panic!("{other:?}"),
    };
    let marks: Vec<(&str, MarkerTone)> =
        rows.iter().map(|row| (row.marker.as_str(), row.tone)).collect();
    assert_eq!(
        marks,
        [
            (" ✓ ", MarkerTone::Good),
            (" ↻ ", MarkerTone::Warning),
            (" + ", MarkerTone::Accent),
            (" – ", MarkerTone::Faint)
        ]
    );
    assert_eq!(rows[0].label, "editor   ");
    assert_eq!(rows[0].status, "status");
    assert_eq!(
        render_settings_integrations(&[], "none"),
        IntegrationList::NoneAvailable(" none".to_string())
    );
    assert_eq!(settings_title("settings"), " settings");
}

#[test]
fn the_main_button_depends_on_the_section() {
    assert!(settings_show_primary_action(SettingsSection::Theme, &[]));
    assert!(!settings_show_primary_action(SettingsSection::Integrations, &[]));
    assert!(settings_show_primary_action(
        SettingsSection::Integrations,
        &[integration(IntegrationStatusKind::NotInstalled, true, false), integration(IntegrationStatusKind::NotInstalled, true, true)]
    ));
    assert_eq!(settings_primary_button_label(SettingsSection::Integrations, "i", "a"), "i");
    assert_eq!(settings_primary_button_label(SettingsSection::Toast, "i", "a"), "a");
    let (buttons, row) =
        settings_button_rects(20, SettingsSection::Integrations, true, "i", "a", "c");
    assert_eq!(row, 19);
    assert_eq!((buttons[0].hint.as_str(), buttons[0].label.as_str()), ("↵", "i"));
    assert_eq!((buttons[1].hint.as_str(), buttons[1].label.as_str()), ("esc", "c"));
    let (buttons, row) = settings_button_rects(0, SettingsSection::Theme, false, "i", "a", "c");
    assert_eq!((buttons.len(), row), (1, 0));
}

#[test]
fn the_frame_of_the_popup() {
    assert!(settings_fits(10, 4));
    assert!(!settings_fits(9, 4));
    assert!(!settings_fits(10, 3));
    let tab = |section, badge| SettingsTab { section, label: "l".to_string(), badge };
    assert_eq!(settings_tab_label(&tab(SettingsSection::Theme, true)), vec!["● ", "l"]);
    assert_eq!(settings_tab_label(&tab(SettingsSection::Theme, false)), vec!["l"]);
    let tabs = vec![tab(SettingsSection::Theme, false), tab(SettingsSection::Sound, false)];
    assert_eq!(selected_tab(&tabs, SettingsSection::Sound), 1);
    assert_eq!(selected_tab(&tabs, SettingsSection::Toast), 0);
    assert_eq!(settings_separator(3), "───");
    assert_eq!(
        settings_footer_hint("select", "tab", "section"),
        vec![" ↑↓", " select  ", "tab", " section"]
    );
}

#[test]
fn sections_show_the_current_choice() {
    let values = |sound, toast, labels, language: &str| SettingsValues {
        sound_enabled: sound,
        toast_delivery: toast,
        agent_border_labels: labels,
        language: language.to_string(),
    };
    let a = values(true, ToastDelivery::Off, false, "auto");
    let b = values(false, ToastDelivery::System, true, "ru");
    let show = render_settings_overlay;
    assert_eq!(show(SettingsSection::Theme, &a), SettingsContent::Themes);
    assert_eq!(show(SettingsSection::Sound, &a), SettingsContent::Choices(Some(0), 1));
    assert_eq!(show(SettingsSection::Sound, &b), SettingsContent::Choices(Some(1), 1));
    assert_eq!(show(SettingsSection::Toast, &a), SettingsContent::Choices(Some(0), 2));
    assert_eq!(show(SettingsSection::Toast, &b), SettingsContent::Choices(Some(3), 2));
    assert_eq!(show(SettingsSection::PaneLabels, &b), SettingsContent::Choices(Some(0), 1));
    assert_eq!(show(SettingsSection::Language, &a), SettingsContent::Choices(Some(0), 2));
    assert_eq!(show(SettingsSection::Language, &b), SettingsContent::Choices(Some(2), 2));
    let other = values(false, ToastDelivery::Tanuki, true, "de");
    assert_eq!(show(SettingsSection::Language, &other), SettingsContent::Choices(None, 2));
    assert_eq!(show(SettingsSection::Toast, &other), SettingsContent::Choices(Some(1), 2));
    assert_eq!(show(SettingsSection::Keybinds, &a), SettingsContent::Keybinds);
    assert_eq!(show(SettingsSection::Experiments, &a), SettingsContent::Experiments);
    assert_eq!(show(SettingsSection::Integrations, &a), SettingsContent::Integrations);
}

#[test]
fn the_current_theme_is_ticked_whatever_its_spelling() {
    let names: Vec<String> =
        ["tokyo night", "Catppuccin", "ÄRGER"].iter().map(|s| s.to_string()).collect();
    assert_eq!(render_settings_theme(&names, "Tokyo_Night"), vec![" ✓", "", ""]);
    assert_eq!(render_settings_theme(&names, "CATPPUCCIN"), vec!["", " ✓", ""]);
    assert_eq!(render_settings_theme(&names, "ärger"), vec!["", "", " ✓"]);
    assert_eq!(render_settings_theme(&names, "x"), vec!["", "", ""]);
}

fn bindings(labels: &[&str]) -> Vec<IndexedKeybind> {
    labels.iter().map(|l| IndexedKeybind { label: l.to_string() }).collect()
}

fn range(prefix: &str) -> Vec<IndexedKeybind> {
    (1..=9).map(|k| IndexedKeybind { label: format!("{prefix}{k}") }).collect()
}

#[test]
fn whole_ranges_are_drawn_together() {
    assert_eq!(indexed_keybind_label(&range("prefix+shift+"), "unset"), "prefix+shift+1..9");
    assert_eq!(indexed_keybind_label(&[], "unset"), "unset");
    assert_eq!(indexed_keybind_label(&bindings(&["a1", "a2"]), "unset"), "a1 / a2");
    let mut two = range("a");
    two.push(IndexedKeybind { label: "x".to_string() });
    two.append(&mut range("b"));
    assert_eq!(indexed_keybind_label(&two, "unset"), "a1..9 / x / b1..9");
    assert_eq!(indexed_range_prefix(&range("p+")), Some("p+".to_string()));
    assert_eq!(indexed_range_prefix(&range("p+")[1..]), None);
    assert_eq!(indexed_range_prefix(&range("p+")[..8]), None);
    let mut broken = range("p+");
    broken[4].label = "q+5".to_string();
    assert_eq!(indexed_range_prefix(&broken), None);
}

fn words() -> KeybindTexts {
    KeybindTexts {
        unset: "unset".to_string(),
        press_a_key: "press".to_string(),
        workspaces_tabs_readonly: "ranges".to_string(),
        switch_workspace: "workspace".to_string(),
        focus_agent: "agent".to_string(),
        switch_tab: "tab".to_string(),
        custom_readonly: "custom".to_string(),
        no_matches: "nothing".to_string(),
    }
}

fn item(group: u64, label: &str, binding: Option<&str>) -> KeybindItem {
    KeybindItem {
        group,
        group_label: format!("g{group}"),
        label: label.to_string(),
        binding: binding.map(str::to_string),
    }
}

fn keybinds(filtered: Vec<KeybindItem>, search: &str, selected: usize, capturing: bool) -> Keybinds {
    Keybinds {
        filtered,
        search: search.to_string(),
        selected,
        capturing,
        switch_workspace: range("w"),
        focus_agent: vec![],
        switch_tab: bindings(&["t"]),
        custom_commands: vec![],
    }
}

fn padded(label: &str) -> String {
    format!("   {label:<22}")
}

#[test]
fn key_bindings_are_grouped_and_the_selected_row_is_theirs() {
    let list = vec![item(1, "a", Some("x")), item(1, "b", None), item(2, "c", Some("z"))];
    let shown = render_settings_keybinds(&keybinds(list, "s", 2, true), &words());
    assert_eq!(
        shown,
        KeybindList::Rows(
            vec![
                KeybindRow::Header(" g1".to_string()),
                KeybindRow::Entry(padded("a"), "x".to_string()),
                KeybindRow::Entry(padded("b"), "unset".to_string()),
                KeybindRow::Header(" g2".to_string()),
                KeybindRow::Entry(padded("c"), "press".to_string()),
            ],
            Some(4)
        )
    );
}

#[test]
fn without_a_search_ranges_and_commands_are_shown() {
    let mut known = keybinds(vec![item(1, "a", Some("x"))], "", 7, true);
    known.custom_commands = vec![
        CustomCommand { description: Some("d".into()), command: "c".into(), label: "k".into() },
        CustomCommand { description: None, command: "run".into(), label: "m".into() },
    ];
    assert_eq!(
        render_settings_keybinds(&known, &words()),
        KeybindList::Rows(
            vec![
                KeybindRow::Header(" g1".to_string()),
                KeybindRow::Entry(padded("a"), "x".to_string()),
                KeybindRow::Header(" ranges".to_string()),
                KeybindRow::ReadOnly(padded("workspace"), "w1..9".to_string()),
                KeybindRow::ReadOnly(padded("agent"), "unset".to_string()),
                KeybindRow::ReadOnly(padded("tab"), "t".to_string()),
                KeybindRow::Header(" custom".to_string()),
                KeybindRow::ReadOnly(padded("d"), "k".to_string()),
                KeybindRow::ReadOnly(padded("run"), "m".to_string()),
            ],
            Some(0)
        )
    );
}

#[test]
fn nothing_to_show_is_said() {
    assert_eq!(
        render_settings_keybinds(&keybinds(vec![], "s", 0, false), &words()),
        KeybindList::NoMatches(" nothing".to_string())
    );
    let mut custom = keybinds(vec![], "s", 0, false);
    custom.custom_commands =
        vec![CustomCommand { description: None, command: "c".into(), label: "k".into() }];
    assert_eq!(render_settings_keybinds(&custom, &words()), KeybindList::Rows(vec![], None));
}

#[test]
fn descriptions_and_search_line() {
    assert_eq!(
        keybind_description(Some(KeybindCaptureKind::Direct), true),
        KeybindDescription::Direct
    );
    assert_eq!(
        keybind_description(Some(KeybindCaptureKind::Prefix), false),
        KeybindDescription::Prefix
    );
    assert_eq!(keybind_description(None, true), KeybindDescription::SearchActive);
    assert_eq!(keybind_description(None, false), KeybindDescription::Default);
    assert_eq!(keybind_search_line("q", true, "e", "s"), vec![" / ", "q", "▏"]);
    assert_eq!(keybind_search_line("q", false, "e", "s"), vec![" / ", "q", " (e)"]);
    assert_eq!(keybind_search_line("", false, "e", "s"), vec![" s"]);
}
