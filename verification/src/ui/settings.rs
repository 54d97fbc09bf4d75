//! The settings popup: how large it is, what it shows in each section, and which row is
//! selected. The texts come in as they are in the user's language; drawing is up to the
//! program.

use vstd::prelude::*;
use crate::text::chars_of;
use crate::text::copy_of;
use crate::text::join;
use crate::text::join_strings;
use crate::text::law_padding_only_adds_spaces;
use crate::text::opt_text;
use crate::text::pad_right;
use crate::text::padded;
use crate::text::same_chars;
use crate::text::same_text;
use crate::text::slice_chars;
use crate::text::string_of;
use crate::text::texts;

verus! {

/// The width of the popup.
pub const SETTINGS_POPUP_WIDTH: u16 = 76;

/// The least height of the popup.
pub const SETTINGS_POPUP_BASE_HEIGHT: u16 = 22;

/// The most rows that the footer of the integrations takes.
pub const INTEGRATIONS_FOOTER_MAX_ROWS: u16 = 6;

/// The sections of the settings.
#[derive(Debug, Clone, Copy, PartialEq, Eq, Structural)]
pub enum SettingsSection {
    Theme,
    Sound,
    Toast,
    PaneLabels,
    Language,
    Keybinds,
    Experiments,
    Integrations,
}

/// How things stand with an integration.
#[derive(Debug, Clone, Copy, PartialEq, Eq, Structural)]
pub enum IntegrationStatusKind {
    Current,
    Outdated,
    NotInstalled,
}

/// An integration that could be installed.
pub struct IntegrationRecommendation {
    pub label: String,
    pub status_label: String,
    /// The program that it integrates with is there.
    pub available: bool,
    pub state: IntegrationStatusKind,
    pub needs_install: bool,
}

/// What the section on integrations knows.
pub struct Integrations {
    pub recommendations: Vec<IntegrationRecommendation>,
    /// What the last installation said.
    pub install_messages: Vec<String>,
}

/// The hints below the list of integrations.
pub struct IntegrationHints {
    pub install: String,
    pub all_installed: String,
    pub none_found: String,
}

// ---------------------------------------------------------------------------
// Integrations
// ---------------------------------------------------------------------------

/// Some integration waits to be installed.
pub open spec fn any_needs_install(list: Seq<IntegrationRecommendation>) -> bool {
    exists|i: int| 0 <= i < list.len() && (#[trigger] list[i]).needs_install
}

/// Some integration is installed, or its program is there.
pub open spec fn any_found(list: Seq<IntegrationRecommendation>) -> bool {
    exists|i: int|
        0 <= i < list.len() && ((#[trigger] list[i]).available || list[i].state
            != IntegrationStatusKind::NotInstalled)
}

fn some_needs_install(list: &[IntegrationRecommendation]) -> (r: bool)
    ensures
        r == any_needs_install(list@),
{
    let mut i: usize = 0;
    while i < list.len()
        invariant
            i <= list@.len(),
            forall|j: int| 0 <= j < i ==> !(#[trigger] list@[j]).needs_install,
        decreases list@.len() - i,
    {
        if list[i].needs_install {
            assert(list@[i as int].needs_install);
            return true;
        }
        i += 1;
    }
    false
}

fn some_found(list: &[IntegrationRecommendation]) -> (r: bool)
    ensures
        r == any_found(list@),
{
    let mut i: usize = 0;
    while i < list.len()
        invariant
            i <= list@.len(),
            forall|j: int|
                0 <= j < i ==> !((#[trigger] list@[j]).available || list@[j].state
                    != IntegrationStatusKind::NotInstalled),
        decreases list@.len() - i,
    {
        if list[i].available || list[i].state != IntegrationStatusKind::NotInstalled {
            assert(list@[i as int].available || list@[i as int].state
                != IntegrationStatusKind::NotInstalled);
            return true;
        }
        i += 1;
    }
    false
}

/// `s` behind a space.
pub open spec fn indented(s: Seq<char>) -> Seq<char> {
    " "@ + s
}

fn indent(s: &str) -> (r: String)
    ensures
        r@ == indented(s@),
{
    let mut out = copy_of(" ");
    out.push_str(s);
    out
}

/// The lines below the list of integrations: what the last installation said, or a hint.
pub open spec fn footer_lines(integrations: Integrations, hints: IntegrationHints) -> Seq<Seq<char>> {
    if integrations.install_messages@.len() > 0 {
        texts(integrations.install_messages@).map_values(|m: Seq<char>| indented(m))
    } else if any_needs_install(integrations.recommendations@) {
        seq![indented(hints.install@)]
    } else if any_found(integrations.recommendations@) {
        seq![indented(hints.all_installed@)]
    } else {
        seq![indented(hints.none_found@)]
    }
}

/// The lines below the list of integrations.
pub fn integrations_footer_paragraph(integrations: &Integrations, hints: &IntegrationHints) -> (r:
    Vec<String>)
    ensures
        texts(r@) == footer_lines(*integrations, *hints),
{
    let mut lines: Vec<String> = Vec::new();
    let messages = &integrations.install_messages;
    if messages.len() > 0 {
        let mut i: usize = 0;
        while i < messages.len()
            invariant
                i <= messages@.len(),
                lines@.len() == i,
                forall|j: int| 0 <= j < i ==> #[trigger] lines@[j]@ == indented(messages@[j]@),
            decreases messages@.len() - i,
        {
            lines.push(indent(messages[i].as_str()));
            i += 1;
        }
        assert(texts(lines@) =~= texts(messages@).map_values(|m: Seq<char>| indented(m)));
    } else {
        let hint = if some_needs_install(&integrations.recommendations) {
            hints.install.as_str()
        } else if some_found(&integrations.recommendations) {
            hints.all_installed.as_str()
        } else {
            hints.none_found.as_str()
        };
        lines.push(indent(hint));
        assert(texts(lines@) =~= seq![indented(hint@)]);
    }
    lines
}

/// How many rows of the given width `ratatui::widgets::Paragraph` takes for lines that it
/// wraps at words without trimming them.
pub uninterp spec fn wrapped_rows(lines: Seq<Seq<char>>, width: u16) -> nat;

/// `Paragraph::line_count` of `ratatui`, on a paragraph of the given lines that wraps at
/// words and keeps their leading whitespace. The count is a function of the lines and the
/// width alone, and no row has no width. Its wrapping adds up to just under four widths of
/// a row in sixteen bits, so that a width of which four do not fit is left out.
#[verifier::external_body]
fn paragraph_line_count(lines: &[String], width: u16) -> (r: usize)
    requires
        4 * width <= u16::MAX,
    ensures
        r as nat == wrapped_rows(texts(lines@), width),
        width == 0 ==> r == 0,
{
    let text: Vec<ratatui::text::Line> = lines
        .iter()
        .map(|line| ratatui::text::Line::from(ratatui::text::Span::raw(line.as_str())))
        .collect();
    let wrap = ratatui::widgets::Wrap { trim: false };
    ratatui::widgets::Paragraph::new(text).wrap(wrap).line_count(width)
}

/// So many rows, counted in sixteen bits, but not more than the footer takes.
pub open spec fn footer_rows(count: nat) -> u16 {
    if count % 0x10000 < INTEGRATIONS_FOOTER_MAX_ROWS {
        (count % 0x10000) as u16
    } else {
        INTEGRATIONS_FOOTER_MAX_ROWS
    }
}

/// So many rows, counted in sixteen bits, but not more than the footer takes.
pub fn limit_footer_rows(count: usize) -> (r: u16)
    ensures
        r == footer_rows(count as nat),
{
    let rows: u16 = (count % 0x10000) as u16;
    if rows < INTEGRATIONS_FOOTER_MAX_ROWS {
        rows
    } else {
        INTEGRATIONS_FOOTER_MAX_ROWS
    }
}

/// How many rows the footer of the integrations takes at the given width.
pub fn integrations_footer_height(integrations: &Integrations, hints: &IntegrationHints, width: u16)
    -> (r: u16)
    requires
        4 * width <= u16::MAX,
    ensures
        r == footer_rows(wrapped_rows(footer_lines(*integrations, *hints), width)),
{
    limit_footer_rows(
        paragraph_line_count(&integrations_footer_paragraph(integrations, hints), width),
    )
}

/// How many rows the list of integrations takes, counted in sixteen bits.
pub open spec fn list_rows(count: nat) -> u16 {
    if count == 0 {
        1
    } else {
        (count % 0x10000) as u16
    }
}

/// The height of the popup with a list and a footer of so many rows.
pub open spec fn popup_height(list: u16, footer: u16) -> int {
    let rows = 14 + list + footer;
    if rows < SETTINGS_POPUP_BASE_HEIGHT {
        SETTINGS_POPUP_BASE_HEIGHT as int
    } else {
        rows
    }
}

/// The height of the popup that shows a section, with so many integrations in the list
/// and a footer of so many rows. Around the list and the footer of the integrations there
/// are the borders, the header, the gaps, the buttons, the title, the description and two
/// empty rows.
pub fn section_popup_height(section: SettingsSection, count: usize, footer: u16) -> (r: u16)
    requires
        section == SettingsSection::Integrations ==> list_rows(count as nat) + 14 + footer
            <= u16::MAX,
    ensures
        r == if section != SettingsSection::Integrations {
            SETTINGS_POPUP_BASE_HEIGHT as int
        } else {
            popup_height(list_rows(count as nat), footer)
        },
{
    if section != SettingsSection::Integrations {
        return SETTINGS_POPUP_BASE_HEIGHT;
    }
    let rows: u16 = if count == 0 {
        1
    } else {
        (count % 0x10000) as u16
    };
    let height: u16 = 14 + rows + footer;
    if height < SETTINGS_POPUP_BASE_HEIGHT {
        SETTINGS_POPUP_BASE_HEIGHT
    } else {
        height
    }
}

/// The height of the popup.
pub fn settings_popup_height(
    section: SettingsSection,
    integrations: &Integrations,
    hints: &IntegrationHints,
) -> (r: u16)
    requires
        section == SettingsSection::Integrations ==> list_rows(
            integrations.recommendations@.len(),
        ) + 14 + INTEGRATIONS_FOOTER_MAX_ROWS <= u16::MAX,
    ensures
        r == if section != SettingsSection::Integrations {
            SETTINGS_POPUP_BASE_HEIGHT as int
        } else {
            popup_height(
                list_rows(integrations.recommendations@.len()),
                footer_rows(wrapped_rows(footer_lines(*integrations, *hints), 74)),
            )
        },
{
    if section != SettingsSection::Integrations {
        return section_popup_height(section, 0, 0);
    }
    let footer: u16 = integrations_footer_height(integrations, hints, SETTINGS_POPUP_WIDTH - 2);
    section_popup_height(section, integrations.recommendations.len(), footer)
}

/// The footer is bounded, the popup is never lower than its base height, and it holds the
/// whole list of integrations.
pub proof fn law_popup_has_room_for_the_list(list: u16, count: nat)
    ensures
        footer_rows(count) <= INTEGRATIONS_FOOTER_MAX_ROWS,
        popup_height(list, footer_rows(count)) >= SETTINGS_POPUP_BASE_HEIGHT,
        popup_height(list, footer_rows(count)) >= list + footer_rows(count) + 14,
{
}

/// One row of the list of integrations.
#[derive(Debug, PartialEq, Eq)]
pub struct IntegrationRow {
    pub marker: String,
    pub tone: MarkerTone,
    pub label: String,
    pub status: String,
}

/// How a marker is coloured.
#[derive(Debug, Clone, Copy, PartialEq, Eq, Structural)]
pub enum MarkerTone {
    Good,
    Warning,
    Accent,
    Faint,
}

/// The marker of an integration, and how it is coloured.
pub open spec fn integration_marker(state: IntegrationStatusKind, available: bool) -> (
    Seq<char>,
    MarkerTone,
) {
    match state {
        IntegrationStatusKind::Current => (" ✓ "@, MarkerTone::Good),
        IntegrationStatusKind::Outdated => (" ↻ "@, MarkerTone::Warning),
        IntegrationStatusKind::NotInstalled => if available {
            (" + "@, MarkerTone::Accent)
        } else {
            (" – "@, MarkerTone::Faint)
        },
    }
}

/// The row shows the integration.
pub open spec fn shows_integration(row: IntegrationRow, item: IntegrationRecommendation) -> bool {
    &&& (row.marker@, row.tone) == integration_marker(item.state, item.available)
    &&& row.label@ == padded(item.label@, 9)
    &&& row.status@ == item.status_label@
}

/// What the list of integrations shows.
#[derive(Debug, PartialEq, Eq)]
pub enum IntegrationList {
    /// There are none; this is said instead.
    NoneAvailable(String),
    /// These rows.
    Rows(Vec<IntegrationRow>),
}

/// What the list of integrations shows: one row for each, or that there are none.
pub fn render_settings_integrations(list: &[IntegrationRecommendation], none_available: &str) -> (r:
    IntegrationList)
    ensures
        match r {
            IntegrationList::NoneAvailable(message) => list@.len() == 0 && message@ == indented(
                none_available@,
            ),
            IntegrationList::Rows(rows) => list@.len() > 0 && rows@.len() == list@.len()
                && forall|i: int|
                0 <= i < list@.len() ==> shows_integration(#[trigger] rows@[i], list@[i]),
        },
{
    if list.len() == 0 {
        IntegrationList::NoneAvailable(indent(none_available))
    } else {
        IntegrationList::Rows(integration_rows(list))
    }
}

fn integration_rows(list: &[IntegrationRecommendation]) -> (r: Vec<IntegrationRow>)
    ensures
        r@.len() == list@.len(),
        forall|i: int| 0 <= i < list@.len() ==> shows_integration(#[trigger] r@[i], list@[i]),
{
    let mut rows: Vec<IntegrationRow> = Vec::new();
    let mut i: usize = 0;
    while i < list.len()
        invariant
            i <= list@.len(),
            rows@.len() == i,
            forall|j: int| 0 <= j < i ==> shows_integration(#[trigger] rows@[j], list@[j]),
        decreases list@.len() - i,
    {
        let item = &list[i];
        let (marker, tone) = match item.state {
            IntegrationStatusKind::Current => (" ✓ ", MarkerTone::Good),
            IntegrationStatusKind::Outdated => (" ↻ ", MarkerTone::Warning),
            IntegrationStatusKind::NotInstalled => {
                if item.available {
                    (" + ", MarkerTone::Accent)
                } else {
                    (" – ", MarkerTone::Faint)
                }
            },
        };
        rows.push(
            IntegrationRow {
                marker: copy_of(marker),
                tone,
                label: pad_right(item.label.as_str(), 9),
                status: item.status_label.clone(),
            },
        );
        i += 1;
    }
    rows
}

// ---------------------------------------------------------------------------
// Buttons
// ---------------------------------------------------------------------------

/// The label of the main button: to install integrations, to apply anything else.
pub fn settings_primary_button_label<'a>(
    section: SettingsSection,
    install: &'a str,
    apply: &'a str,
) -> (r: &'a str)
    ensures
        r@ == if section == SettingsSection::Integrations {
            install@
        } else {
            apply@
        },
{
    if section == SettingsSection::Integrations {
        install
    } else {
        apply
    }
}

/// Whether there is a main button: not where there is nothing to install.
pub fn settings_show_primary_action(section: SettingsSection, list: &[IntegrationRecommendation])
    -> (r: bool)
    ensures
        r == (section != SettingsSection::Integrations || any_needs_install(list@)),
{
    if section == SettingsSection::Integrations {
        some_needs_install(list)
    } else {
        true
    }
}

/// A button: the key that presses it, and what it says.
#[derive(Debug, PartialEq, Eq)]
pub struct ActionButton {
    pub hint: String,
    pub label: String,
}

/// The model of [`ActionButton`].
pub open spec fn button_view(button: ActionButton) -> (Seq<char>, Seq<char>) {
    (button.hint@, button.label@)
}

/// The buttons from left to right, and the row below the top of the popup that they
/// stand in.
pub fn settings_button_rects(
    inner_height: u16,
    section: SettingsSection,
    show_primary: bool,
    install: &str,
    apply: &str,
    close: &str,
) -> (r: (Vec<ActionButton>, u16))
    ensures
        r.0@.map_values(|b: ActionButton| button_view(b)) == if show_primary {
            seq![
                (
                    "↵"@,
                    if section == SettingsSection::Integrations {
                        install@
                    } else {
                        apply@
                    },
                ),
                ("esc"@, close@),
            ]
        } else {
            seq![("esc"@, close@)]
        },
        r.1 == if inner_height == 0 {
            0
        } else {
            inner_height - 1
        },
{
    let mut buttons: Vec<ActionButton> = Vec::new();
    if show_primary {
        let label = settings_primary_button_label(section, install, apply);
        buttons.push(ActionButton { hint: copy_of("↵"), label: copy_of(label) });
    }
    buttons.push(ActionButton { hint: copy_of("esc"), label: copy_of(close) });
    assert(buttons@.map_values(|b: ActionButton| button_view(b)) =~= if show_primary {
        seq![
            (
                "↵"@,
                if section == SettingsSection::Integrations {
                    install@
                } else {
                    apply@
                },
            ),
            ("esc"@, close@),
        ]
    } else {
        seq![("esc"@, close@)]
    });
    let row: u16 = if inner_height == 0 {
        0
    } else {
        inner_height - 1
    };
    (buttons, row)
}

// ---------------------------------------------------------------------------
// The frame of the popup
// ---------------------------------------------------------------------------

/// Whether the inside of the popup is large enough to show anything.
pub fn settings_fits(inner_width: u16, inner_height: u16) -> (r: bool)
    ensures
        r == (inner_height >= 4 && inner_width >= 10),
{
    inner_height >= 4 && inner_width >= 10
}

/// The title of the popup.
pub fn settings_title(title: &str) -> (r: String)
    ensures
        r@ == indented(title@),
{
    indent(title)
}

/// A tab of the popup.
pub struct SettingsTab {
    pub section: SettingsSection,
    pub label: String,
    /// The section asks for attention.
    pub badge: bool,
}

/// The parts of the label of a tab: a dot in front where the section asks for attention.
pub open spec fn tab_label(tab: SettingsTab) -> Seq<Seq<char>> {
    if tab.badge {
        seq!["● "@, tab.label@]
    } else {
        seq![tab.label@]
    }
}

/// The parts of the label of a tab.
pub fn settings_tab_label(tab: &SettingsTab) -> (r: Vec<String>)
    ensures
        texts(r@) == tab_label(*tab),
{
    let mut parts: Vec<String> = Vec::new();
    if tab.badge {
        parts.push(copy_of("● "));
    }
    parts.push(tab.label.clone());
    assert(texts(parts@) =~= tab_label(*tab));
    parts
}

/// The place of the first tab of a section; the first place where there is none.
pub open spec fn tab_place(tabs: Seq<SettingsTab>, section: SettingsSection) -> nat {
    if exists|i: int| 0 <= i < tabs.len() && (#[trigger] tabs[i]).section == section {
        first_tab(tabs, section)
    } else {
        0
    }
}

/// The number of tabs in front of the first one of a section.
pub open spec fn first_tab(tabs: Seq<SettingsTab>, section: SettingsSection) -> nat
    decreases tabs.len(),
{
    if tabs.len() == 0 || tabs[0].section == section {
        0
    } else {
        1 + first_tab(tabs.skip(1), section)
    }
}

/// The place of the tab that is selected.
pub fn selected_tab(tabs: &[SettingsTab], section: SettingsSection) -> (r: usize)
    ensures
        r == tab_place(tabs@, section),
{
    let mut i: usize = 0;
    assert(tabs@.skip(0) =~= tabs@);
    while i < tabs.len()
        invariant
            i <= tabs@.len(),
            forall|j: int| 0 <= j < i ==> (#[trigger] tabs@[j]).section != section,
            first_tab(tabs@, section) == i + first_tab(tabs@.skip(i as int), section),
        decreases tabs@.len() - i,
    {
        assert(tabs@.skip(i as int)[0] == tabs@[i as int]);
        assert(tabs@.skip(i as int).skip(1) =~= tabs@.skip(i + 1));
        if tabs[i].section == section {
            assert(tabs@[i as int].section == section);
            return i;
        }
        i += 1;
    }
    0
}

/// The line below the tabs.
pub open spec fn separator_line(width: nat) -> Seq<char> {
    Seq::new(width, |i: int| '─')
}

/// The line below the tabs.
pub fn settings_separator(width: u16) -> (r: String)
    ensures
        r@ == separator_line(width as nat),
{
    let mut chars: Vec<char> = Vec::new();
    let mut i: u16 = 0;
    while i < width
        invariant
            i <= width,
            chars@.len() == i,
            forall|j: int| 0 <= j < i ==> chars@[j] == '─',
        decreases width - i,
    {
        chars.push('─');
        i += 1;
    }
    assert(chars@ =~= separator_line(width as nat));
    string_of(&chars)
}

/// The parts of the hint in the footer.
pub fn settings_footer_hint(select: &str, tab: &str, section: &str) -> (r: Vec<String>)
    ensures
        texts(r@) == seq![" ↑↓"@, indented(select@) + "  "@, tab@, indented(section@)],
{
    let mut parts: Vec<String> = Vec::new();
    parts.push(copy_of(" ↑↓"));
    let mut second = indent(select);
    second.push_str("  ");
    parts.push(second);
    parts.push(copy_of(tab));
    parts.push(indent(section));
    assert(texts(parts@) =~= seq![" ↑↓"@, indented(select@) + "  "@, tab@, indented(section@)]);
    parts
}

// ---------------------------------------------------------------------------
// Sections with a list of choices
// ---------------------------------------------------------------------------

/// How notifications are delivered.
#[derive(Debug, Clone, Copy, PartialEq, Eq, Structural)]
pub enum ToastDelivery {
    Off,
    Tanuki,
    Terminal,
    System,
}

/// What a section shows.
#[derive(Debug, Clone, Copy, PartialEq, Eq, Structural)]
pub enum SettingsContent {
    /// The themes.
    Themes,
    /// A list of choices: the place of the current one, where it is among them, and how
    /// many rows the description takes.
    Choices(Option<usize>, u16),
    /// The key bindings.
    Keybinds,
    /// The experiments.
    Experiments,
    /// The integrations.
    Integrations,
}

/// The values that the sections with a list of choices are about.
pub struct SettingsValues {
    pub sound_enabled: bool,
    pub toast_delivery: ToastDelivery,
    pub agent_border_labels: bool,
    pub language: String,
}

/// The place of a value among `on` and `off`.
pub open spec fn toggle_place(value: bool) -> usize {
    if value {
        0
    } else {
        1
    }
}

/// The place of a kind of delivery among the choices.
pub open spec fn toast_place(delivery: ToastDelivery) -> usize {
    match delivery {
        ToastDelivery::Off => 0,
        ToastDelivery::Tanuki => 1,
        ToastDelivery::Terminal => 2,
        ToastDelivery::System => 3,
    }
}

/// The place of a language among the choices.
pub open spec fn language_place(language: Seq<char>) -> Option<usize> {
    if language == "auto"@ {
        Some(0)
    } else if language == "en"@ {
        Some(1)
    } else if language == "ru"@ {
        Some(2)
    } else {
        None
    }
}

/// What a section shows, given the current values.
pub open spec fn content_of(section: SettingsSection, values: SettingsValues) -> SettingsContent {
    match section {
        SettingsSection::Theme => SettingsContent::Themes,
        SettingsSection::Sound => SettingsContent::Choices(
            Some(toggle_place(values.sound_enabled)),
            1,
        ),
        SettingsSection::Toast => SettingsContent::Choices(
            Some(toast_place(values.toast_delivery)),
            2,
        ),
        SettingsSection::PaneLabels => SettingsContent::Choices(
            Some(toggle_place(values.agent_border_labels)),
            1,
        ),
        SettingsSection::Language => SettingsContent::Choices(
            language_place(values.language@),
            2,
        ),
        SettingsSection::Keybinds => SettingsContent::Keybinds,
        SettingsSection::Experiments => SettingsContent::Experiments,
        SettingsSection::Integrations => SettingsContent::Integrations,
    }
}

fn render_settings_toggle(value: bool) -> (r: SettingsContent)
    ensures
        r == SettingsContent::Choices(Some(toggle_place(value)), 1),
{
    if value {
        SettingsContent::Choices(Some(0), 1)
    } else {
        SettingsContent::Choices(Some(1), 1)
    }
}

/// What a section shows, given the current values.
pub fn render_settings_overlay(section: SettingsSection, values: &SettingsValues) -> (r:
    SettingsContent)
    ensures
        r == content_of(section, *values),
{
    match section {
        SettingsSection::Theme => SettingsContent::Themes,
        SettingsSection::Sound => render_settings_toggle(values.sound_enabled),
        SettingsSection::Toast => {
            let place: usize = match values.toast_delivery {
                ToastDelivery::Off => 0,
                ToastDelivery::Tanuki => 1,
                ToastDelivery::Terminal => 2,
                ToastDelivery::System => 3,
            };
            SettingsContent::Choices(Some(place), 2)
        },
        SettingsSection::PaneLabels => render_settings_toggle(values.agent_border_labels),
        SettingsSection::Language => {
            let language = values.language.as_str();
            if same_text(language, "auto") {
                SettingsContent::Choices(Some(0), 2)
            } else if same_text(language, "en") {
                SettingsContent::Choices(Some(1), 2)
            } else if same_text(language, "ru") {
                SettingsContent::Choices(Some(2), 2)
            } else {
                SettingsContent::Choices(None, 2)
            }
        },
        SettingsSection::Keybinds => SettingsContent::Keybinds,
        SettingsSection::Experiments => SettingsContent::Experiments,
        SettingsSection::Integrations => SettingsContent::Integrations,
    }
}

// ---------------------------------------------------------------------------
// Themes
// ---------------------------------------------------------------------------

/// What `str::to_lowercase` makes of a text.
pub uninterp spec fn lowercase_text(s: Seq<char>) -> Seq<char>;

/// `str::to_lowercase` of the standard library: the text in the small letters of Unicode.
/// It is a function of the text alone.
#[verifier::external_body]
fn lowercase(s: &str) -> (r: String)
    ensures
        r@ == lowercase_text(s@),
{
    s.to_lowercase()
}

/// A theme's name with dashes for spaces and underscores.
pub open spec fn dashed(s: Seq<char>) -> Seq<char> {
    s.map_values(
        |c: char|
            if c == ' ' || c == '_' {
                '-'
            } else {
                c
            },
    )
}

fn dashed_chars(s: &str) -> (r: Vec<char>)
    ensures
        r@ == dashed(s@),
{
    let chars = chars_of(s);
    let mut out: Vec<char> = Vec::new();
    let mut i: usize = 0;
    while i < chars.len()
        invariant
            i <= chars@.len(),
            out@.len() == i,
            forall|j: int|
                0 <= j < i ==> out@[j] == if chars@[j] == ' ' || chars@[j] == '_' {
                    '-'
                } else {
                    chars@[j]
                },
        decreases chars@.len() - i,
    {
        let c = chars[i];
        if c == ' ' || c == '_' {
            out.push('-');
        } else {
            out.push(c);
        }
        i += 1;
    }
    assert(out@ =~= dashed(s@));
    out
}

/// Whether two names in small letters mean the same theme: dashes, spaces and underscores
/// make no difference.
pub fn same_theme(a: &str, b: &str) -> (r: bool)
    ensures
        r == (dashed(a@) == dashed(b@)),
{
    same_chars(&dashed_chars(a), &dashed_chars(b))
}

/// The marker behind a theme: a tick behind the current one.
pub open spec fn theme_marker(name: Seq<char>, current: Seq<char>) -> Seq<char> {
    if dashed(lowercase_text(name)) == dashed(lowercase_text(current)) {
        " ✓"@
    } else {
        ""@
    }
}

/// The markers behind the themes, one for each.
pub fn render_settings_theme(names: &[String], theme_name: &str) -> (r: Vec<&'static str>)
    ensures
        r@.len() == names@.len(),
        forall|i: int|
            0 <= i < names@.len() ==> (#[trigger] r@[i])@ == theme_marker(names@[i]@, theme_name@),
{
    let current = lowercase(theme_name);
    let mut markers: Vec<&'static str> = Vec::new();
    let mut i: usize = 0;
    while i < names.len()
        invariant
            i <= names@.len(),
            markers@.len() == i,
            current@ == lowercase_text(theme_name@),
            forall|j: int|
                0 <= j < i ==> (#[trigger] markers@[j])@ == theme_marker(names@[j]@, theme_name@),
        decreases names@.len() - i,
    {
        if same_theme(lowercase(names[i].as_str()).as_str(), current.as_str()) {
            markers.push(" ✓");
        } else {
            markers.push("");
        }
        i += 1;
    }
    markers
}

// ---------------------------------------------------------------------------
// Experiments
// ---------------------------------------------------------------------------

/// A setting that can be switched on and off.
pub struct Experiment {
    pub label: String,
    pub enabled: bool,
}

/// One row of the experiments.
#[derive(Debug, PartialEq, Eq)]
pub struct ExperimentRow {
    pub text: String,
    pub selected: bool,
}

/// The text of an experiment: its label and whether it is on.
pub open spec fn experiment_text(label: Seq<char>, enabled: bool) -> Seq<char> {
    indented(label) + " "@ + if enabled {
        "[✓]"@
    } else {
        "[ ]"@
    }
}

/// The rows of the experiments, one below the other.
pub fn render_settings_experiments(experiments: &[Experiment], selected: usize) -> (r: Vec<
    ExperimentRow,
>)
    ensures
        r@.len() == experiments@.len(),
        forall|i: int|
            0 <= i < experiments@.len() ==> (#[trigger] r@[i]).text@ == experiment_text(
                experiments@[i].label@,
                experiments@[i].enabled,
            ) && r@[i].selected == (i == selected),
{
    let mut rows: Vec<ExperimentRow> = Vec::new();
    let mut i: usize = 0;
    while i < experiments.len()
        invariant
            i <= experiments@.len(),
            rows@.len() == i,
            forall|j: int|
                0 <= j < i ==> (#[trigger] rows@[j]).text@ == experiment_text(
                    experiments@[j].label@,
                    experiments@[j].enabled,
                ) && rows@[j].selected == (j == selected),
        decreases experiments@.len() - i,
    {
        let mut text = indent(experiments[i].label.as_str());
        text.push_str(" ");
        text.push_str(
            if experiments[i].enabled {
                "[✓]"
            } else {
                "[ ]"
            },
        );
        rows.push(ExperimentRow { text, selected: i == selected });
        i += 1;
    }
    rows
}

// ---------------------------------------------------------------------------
// Key bindings
// ---------------------------------------------------------------------------

/// What kind of key press is awaited.
#[derive(Debug, Clone, Copy, PartialEq, Eq, Structural)]
pub enum KeybindCaptureKind {
    Direct,
    Prefix,
}

/// Which description stands above the key bindings.
#[derive(Debug, Clone, Copy, PartialEq, Eq, Structural)]
pub enum KeybindDescription {
    Direct,
    Prefix,
    SearchActive,
    Default,
}

/// Which description stands above the key bindings.
pub fn keybind_description(capture: Option<KeybindCaptureKind>, search_active: bool) -> (r:
    KeybindDescription)
    ensures
        r == match capture {
            Some(KeybindCaptureKind::Direct) => KeybindDescription::Direct,
            Some(KeybindCaptureKind::Prefix) => KeybindDescription::Prefix,
            None => if search_active {
                KeybindDescription::SearchActive
            } else {
                KeybindDescription::Default
            },
        },
{
    match capture {
        Some(KeybindCaptureKind::Direct) => KeybindDescription::Direct,
        Some(KeybindCaptureKind::Prefix) => KeybindDescription::Prefix,
        None => {
            if search_active {
                KeybindDescription::SearchActive
            } else {
                KeybindDescription::Default
            }
        },
    }
}

/// The parts of the search line: the search being typed, the search that is set, or how
/// to begin one.
pub open spec fn search_line(
    search: Seq<char>,
    active: bool,
    press_to_edit: Seq<char>,
    press_to_search: Seq<char>,
) -> Seq<Seq<char>> {
    if active {
        seq![" / "@, search, "▏"@]
    } else if search.len() > 0 {
        seq![" / "@, search, " ("@ + press_to_edit + ")"@]
    } else {
        seq![indented(press_to_search)]
    }
}

/// The parts of the search line.
pub fn keybind_search_line(search: &str, active: bool, press_to_edit: &str, press_to_search: &str)
    -> (r: Vec<String>)
    ensures
        texts(r@) == search_line(search@, active, press_to_edit@, press_to_search@),
{
    let mut parts: Vec<String> = Vec::new();
    if active {
        parts.push(copy_of(" / "));
        parts.push(copy_of(search));
        parts.push(copy_of("▏"));
    } else if chars_of(search).len() > 0 {
        parts.push(copy_of(" / "));
        parts.push(copy_of(search));
        let mut note = copy_of(" (");
        note.push_str(press_to_edit);
        note.push_str(")");
        parts.push(note);
    } else {
        parts.push(indent(press_to_search));
    }
    assert(texts(parts@) =~= search_line(search@, active, press_to_edit@, press_to_search@));
    parts
}

/// A key binding that can be changed.
pub struct KeybindItem {
    /// The group that it belongs to.
    pub group: u64,
    pub group_label: String,
    pub label: String,
    /// The key that it is bound to, where it is.
    pub binding: Option<String>,
}

/// A command of the user's own.
pub struct CustomCommand {
    pub description: Option<String>,
    pub command: String,
    /// The key that it is bound to.
    pub label: String,
}

/// A binding to one of the keys from one to nine.
pub struct IndexedKeybind {
    pub label: String,
}

/// The texts of the section.
pub struct KeybindTexts {
    pub unset: String,
    pub press_a_key: String,
    pub workspaces_tabs_readonly: String,
    pub switch_workspace: String,
    pub focus_agent: String,
    pub switch_tab: String,
    pub custom_readonly: String,
    pub no_matches: String,
}

/// What the section on key bindings knows.
pub struct Keybinds {
    /// The bindings that match the search.
    pub filtered: Vec<KeybindItem>,
    pub search: String,
    pub selected: usize,
    pub capturing: bool,
    pub switch_workspace: Vec<IndexedKeybind>,
    pub focus_agent: Vec<IndexedKeybind>,
    pub switch_tab: Vec<IndexedKeybind>,
    pub custom_commands: Vec<CustomCommand>,
}

/// One row of the section.
#[derive(Debug, PartialEq, Eq)]
pub enum KeybindRow {
    /// The title of a group.
    Header(String),
    /// A binding that can be changed: its label and its key.
    Entry(String, String),
    /// A binding that is only shown.
    ReadOnly(String, String),
}

/// The model of [`KeybindRow`].
pub enum RowView {
    Header(Seq<char>),
    Entry(Seq<char>, Seq<char>),
    ReadOnly(Seq<char>, Seq<char>),
}

impl KeybindRow {
    /// The model of the row.
    pub open spec fn view(&self) -> RowView {
        match self {
            KeybindRow::Header(title) => RowView::Header(title@),
            KeybindRow::Entry(label, value) => RowView::Entry(label@, value@),
            KeybindRow::ReadOnly(label, value) => RowView::ReadOnly(label@, value@),
        }
    }
}

/// The models of the rows.
pub open spec fn rows_view(rows: Seq<KeybindRow>) -> Seq<RowView> {
    rows.map_values(|row: KeybindRow| row@)
}

/// A label at the left of a row, with room for twenty-two characters.
pub open spec fn row_label(label: Seq<char>) -> Seq<char> {
    "   "@ + padded(label, 22)
}

fn row_label_text(label: &str) -> (r: String)
    ensures
        r@ == row_label(label@),
{
    let mut out = copy_of("   ");
    out.push_str(pad_right(label, 22).as_str());
    out
}

// Ranges

/// The labels of the first nine bindings are one text with the digits from one to nine
/// behind it; that text.
pub open spec fn range_prefix(labels: Seq<Seq<char>>) -> Option<Seq<char>> {
    if labels.len() >= 9 && labels[0].len() > 0 && labels[0].last() == '1' && forall|k: int|
        0 <= k < 9 ==> #[trigger] labels[k] == labels[0].drop_last().push(index_digit(k)) {
        Some(labels[0].drop_last())
    } else {
        None
    }
}

/// The digit for the place `k` in a range from one to nine.
pub open spec fn index_digit(k: int) -> char {
    ('1' as u32 + k) as char
}

/// The labels of a list of bindings.
pub open spec fn labels_of(bindings: Seq<IndexedKeybind>) -> Seq<Seq<char>> {
    bindings.map_values(|b: IndexedKeybind| b.label@)
}

fn range_prefix_at(bindings: &[IndexedKeybind], start: usize) -> (r: Option<String>)
    requires
        start <= bindings@.len(),
    ensures
        opt_text(r) == range_prefix(labels_of(bindings@).skip(start as int)),
{
    let ghost labels = labels_of(bindings@).skip(start as int);
    if bindings.len() - start < 9 {
        return None;
    }
    let first = chars_of(bindings[start].label.as_str());
    assert(labels[0] == first@);
    if first.len() == 0 || first[first.len() - 1] != '1' {
        return None;
    }
    let prefix = slice_chars(&first, 0, first.len() - 1);
    assert(prefix@ =~= labels[0].drop_last());
    let mut offset: usize = 0;
    while offset < 9
        invariant
            offset <= 9,
            start + 9 <= bindings.len(),
            labels == labels_of(bindings@).skip(start as int),
            labels[0] == first@,
            first@.len() > 0,
            first@.last() == '1',
            prefix@ == labels[0].drop_last(),
            forall|k: int|
                0 <= k < offset ==> #[trigger] labels[k] == labels[0].drop_last().push(
                    index_digit(k),
                ),
        decreases 9 - offset,
    {
        let digit = (49u8 + offset as u8) as char;
        assert(digit == index_digit(offset as int));
        let mut expected = slice_chars(&first, 0, first.len() - 1);
        assert(expected@ =~= prefix@);
        expected.push(digit);
        assert(labels[offset as int] == bindings@[start + offset].label@);
        if !same_chars(&chars_of(bindings[start + offset].label.as_str()), &expected) {
            return None;
        }
        offset += 1;
    }
    Some(string_of(&prefix))
}

/// The text in front of the digits, where the first nine bindings are a range from one to
/// nine.
pub fn indexed_range_prefix(bindings: &[IndexedKeybind]) -> (r: Option<String>)
    ensures
        opt_text(r) == range_prefix(labels_of(bindings@)),
{
    assert(labels_of(bindings@).skip(0) =~= labels_of(bindings@));
    range_prefix_at(bindings, 0)
}

/// The labels with every range from one to nine drawn together.
pub open spec fn collapsed(labels: Seq<Seq<char>>) -> Seq<Seq<char>>
    decreases labels.len(),
{
    if labels.len() == 0 {
        Seq::empty()
    } else {
        match range_prefix(labels) {
            Some(prefix) => if labels.len() >= 9 {
                seq![prefix + "1..9"@] + collapsed(labels.skip(9))
            } else {
                Seq::empty()
            },
            None => seq![labels[0]] + collapsed(labels.skip(1)),
        }
    }
}

/// How a list of bindings is shown: `unset` where there is none.
pub open spec fn indexed_label(labels: Seq<Seq<char>>, unset: Seq<char>) -> Seq<char> {
    if labels.len() == 0 {
        unset
    } else {
        join(collapsed(labels), " / "@)
    }
}

/// How a list of bindings is shown.
pub fn indexed_keybind_label(bindings: &[IndexedKeybind], unset: &str) -> (r: String)
    ensures
        r@ == indexed_label(labels_of(bindings@), unset@),
{
    if bindings.len() == 0 {
        return copy_of(unset);
    }
    let ghost labels = labels_of(bindings@);
    let mut parts: Vec<String> = Vec::new();
    let mut index: usize = 0;
    assert(labels.skip(0) =~= labels);
    assert(texts(parts@) + collapsed(labels) =~= collapsed(labels));
    while index < bindings.len()
        invariant
            index <= bindings@.len(),
            labels == labels_of(bindings@),
            collapsed(labels) == texts(parts@) + collapsed(labels.skip(index as int)),
        decreases bindings@.len() - index,
    {
        let ghost rest = labels.skip(index as int);
        let ghost before = texts(parts@);
        match range_prefix_at(bindings, index) {
            Some(prefix) => {
                let mut part = prefix;
                part.push_str("1..9");
                parts.push(part);
                proof {
                    assert(texts(parts@) =~= before.push(part@));
                    assert(rest.skip(9) =~= labels.skip(index + 9));
                    assert(before + (seq![part@] + collapsed(rest.skip(9))) =~= texts(parts@)
                        + collapsed(rest.skip(9)));
                }
                index += 9;
            },
            None => {
                parts.push(bindings[index].label.clone());
                proof {
                    assert(rest[0] == bindings@[index as int].label@);
                    assert(texts(parts@) =~= before.push(rest[0]));
                    assert(rest.skip(1) =~= labels.skip(index + 1));
                    assert(before + (seq![rest[0]] + collapsed(rest.skip(1))) =~= texts(parts@)
                        + collapsed(rest.skip(1)));
                }
                index += 1;
            },
        }
    }
    assert(texts(parts@) + collapsed(labels.skip(index as int)) =~= texts(parts@));
    join_strings(&parts, " / ")
}

/// A whole range from one to nine is shown as one: the text in front of the digits, and
/// `1..9`.
pub proof fn law_whole_range_is_drawn_together(prefix: Seq<char>, unset: Seq<char>)
    ensures
        indexed_label(Seq::new(9, |k: int| prefix.push(index_digit(k))), unset) == prefix
            + "1..9"@,
{
    let labels = Seq::new(9, |k: int| prefix.push(index_digit(k)));
    assert(labels[0].drop_last() =~= prefix);
    assert(index_digit(0) == '1');
    assert(range_prefix(labels) == Some(prefix));
    assert(labels.skip(9) =~= Seq::<Seq<char>>::empty());
    assert(collapsed(Seq::<Seq<char>>::empty()) =~= Seq::<Seq<char>>::empty());
    assert(collapsed(labels) =~= seq![prefix + "1..9"@]);
}

// Rows

/// What stands behind the label of a binding: its key, or that it has none; for the
/// selected one, while a key press is awaited, that.
pub open spec fn binding_text(
    item: KeybindItem,
    place: int,
    keybinds: Keybinds,
    words: KeybindTexts,
) -> Seq<char> {
    if keybinds.selected == place && keybinds.capturing {
        words.press_a_key@
    } else {
        match item.binding {
            Some(key) => key@,
            None => words.unset@,
        }
    }
}

/// The binding at the place begins a group.
pub open spec fn begins_group(items: Seq<KeybindItem>, place: int) -> bool {
    place == 0 || items[place - 1].group != items[place].group
}

/// The rows of the first `count` bindings: each group under its title.
pub open spec fn entry_rows(keybinds: Keybinds, words: KeybindTexts, count: nat) -> Seq<RowView>
    decreases count,
{
    if count == 0 {
        Seq::empty()
    } else {
        let place = count - 1;
        let item = keybinds.filtered@[place];
        let before = entry_rows(keybinds, words, place as nat);
        let titled = if begins_group(keybinds.filtered@, place) {
            before.push(RowView::Header(indented(item.group_label@)))
        } else {
            before
        };
        titled.push(
            RowView::Entry(row_label(item.label@), binding_text(item, place, keybinds, words)),
        )
    }
}

/// The row of the selected binding; the first where none is.
pub open spec fn selected_row(keybinds: Keybinds, words: KeybindTexts) -> nat {
    if keybinds.selected < keybinds.filtered@.len() {
        (entry_rows(keybinds, words, (keybinds.selected + 1) as nat).len() - 1) as nat
    } else {
        0
    }
}

/// The row of one of the user's own commands.
pub open spec fn custom_row(command: CustomCommand) -> RowView {
    RowView::ReadOnly(
        row_label(
            match command.description {
                Some(description) => description@,
                None => command.command@,
            },
        ),
        command.label@,
    )
}

/// The rows that are only shown, and only without a search: the ranges, and the user's
/// own commands where there are any.
pub open spec fn read_only_rows(keybinds: Keybinds, words: KeybindTexts) -> Seq<RowView> {
    if keybinds.search@.len() > 0 {
        Seq::empty()
    } else {
        seq![
            RowView::Header(indented(words.workspaces_tabs_readonly@)),
            RowView::ReadOnly(
                row_label(words.switch_workspace@),
                indexed_label(labels_of(keybinds.switch_workspace@), words.unset@),
            ),
            RowView::ReadOnly(
                row_label(words.focus_agent@),
                indexed_label(labels_of(keybinds.focus_agent@), words.unset@),
            ),
            RowView::ReadOnly(
                row_label(words.switch_tab@),
                indexed_label(labels_of(keybinds.switch_tab@), words.unset@),
            ),
        ] + if keybinds.custom_commands@.len() == 0 {
            Seq::empty()
        } else {
            seq![RowView::Header(indented(words.custom_readonly@))]
                + keybinds.custom_commands@.map_values(|c: CustomCommand| custom_row(c))
        }
    }
}

/// What the section on key bindings shows.
#[derive(Debug, PartialEq, Eq)]
pub enum KeybindList {
    /// Nothing matches; this is said instead.
    NoMatches(String),
    /// These rows, with the selected one, where one can be.
    Rows(Vec<KeybindRow>, Option<usize>),
}

/// Nothing is left to show.
pub open spec fn nothing_matches(keybinds: Keybinds) -> bool {
    keybinds.filtered@.len() == 0 && keybinds.custom_commands@.len() == 0
}

fn read_only(label: &str, value: String) -> (r: KeybindRow)
    ensures
        r@ == RowView::ReadOnly(row_label(label@), value@),
{
    KeybindRow::ReadOnly(row_label_text(label), value)
}

fn push_read_only_rows(rows: &mut Vec<KeybindRow>, keybinds: &Keybinds, words: &KeybindTexts)
    ensures
        rows_view(final(rows)@) == rows_view(old(rows)@) + read_only_rows(*keybinds, *words),
{
    let ghost before = rows_view(rows@);
    if chars_of(keybinds.search.as_str()).len() > 0 {
        assert(before + Seq::<RowView>::empty() =~= before);
        return;
    }
    rows.push(KeybindRow::Header(indent(words.workspaces_tabs_readonly.as_str())));
    let workspace = indexed_keybind_label(&keybinds.switch_workspace, words.unset.as_str());
    rows.push(read_only(words.switch_workspace.as_str(), workspace));
    let agent = indexed_keybind_label(&keybinds.focus_agent, words.unset.as_str());
    rows.push(read_only(words.focus_agent.as_str(), agent));
    let tab = indexed_keybind_label(&keybinds.switch_tab, words.unset.as_str());
    rows.push(read_only(words.switch_tab.as_str(), tab));
    let ghost ranges = seq![
        RowView::Header(indented(words.workspaces_tabs_readonly@)),
        RowView::ReadOnly(row_label(words.switch_workspace@), workspace@),
        RowView::ReadOnly(row_label(words.focus_agent@), agent@),
        RowView::ReadOnly(row_label(words.switch_tab@), tab@),
    ];
    assert(rows_view(rows@) =~= before + ranges);
    let commands = &keybinds.custom_commands;
    if commands.len() == 0 {
        assert(ranges + Seq::<RowView>::empty() =~= ranges);
        return;
    }
    rows.push(KeybindRow::Header(indent(words.custom_readonly.as_str())));
    let ghost title = seq![RowView::Header(indented(words.custom_readonly@))];
    let ghost all = commands@.map_values(|c: CustomCommand| custom_row(c));
    let mut i: usize = 0;
    assert(rows_view(rows@) =~= before + (ranges + (title + all.take(0))));
    while i < commands.len()
        invariant
            i <= commands@.len(),
            all == commands@.map_values(|c: CustomCommand| custom_row(c)),
            rows_view(rows@) == before + (ranges + (title + all.take(i as int))),
        decreases commands@.len() - i,
    {
        let ghost prior = rows_view(rows@);
        let command = &commands[i];
        let description = match &command.description {
            Some(description) => description.as_str(),
            None => command.command.as_str(),
        };
        let row = read_only(description, command.label.clone());
        assert(row@ == custom_row(*command));
        rows.push(row);
        proof {
            assert(rows_view(rows@) =~= prior.push(all[i as int]));
            assert(all.take(i + 1) =~= all.take(i as int).push(all[i as int]));
            assert(rows_view(rows@) =~= before + (ranges + (title + all.take(i + 1))));
        }
        i += 1;
    }
    assert(all.take(i as int) =~= all);
}

/// What the section on key bindings shows.
pub fn render_settings_keybinds(keybinds: &Keybinds, words: &KeybindTexts) -> (r: KeybindList)
    ensures
        match r {
            KeybindList::NoMatches(message) => nothing_matches(*keybinds) && message@ == indented(
                words.no_matches@,
            ),
            KeybindList::Rows(rows, selected) => {
                &&& !nothing_matches(*keybinds)
                &&& rows_view(rows@) == entry_rows(*keybinds, *words, keybinds.filtered@.len())
                    + read_only_rows(*keybinds, *words)
                &&& match selected {
                    Some(row) => keybinds.filtered@.len() > 0 && row == selected_row(
                        *keybinds,
                        *words,
                    ),
                    None => keybinds.filtered@.len() == 0,
                }
            },
        },
{
    let items = &keybinds.filtered;
    if items.len() == 0 && keybinds.custom_commands.len() == 0 {
        return KeybindList::NoMatches(indent(words.no_matches.as_str()));
    }
    let mut rows: Vec<KeybindRow> = Vec::new();
    let mut selected: usize = 0;
    let mut i: usize = 0;
    assert(rows_view(rows@) =~= Seq::<RowView>::empty());
    while i < items.len()
        invariant
            i <= items@.len(),
            *items == keybinds.filtered,
            rows_view(rows@) == entry_rows(*keybinds, *words, i as nat),
            selected == if keybinds.selected < i {
                selected_row(*keybinds, *words)
            } else {
                0
            },
        decreases items@.len() - i,
    {
        let ghost before = rows_view(rows@);
        let item = &items[i];
        let begins = i == 0 || items[i - 1].group != item.group;
        if begins {
            rows.push(KeybindRow::Header(indent(item.group_label.as_str())));
            assert(rows_view(rows@) =~= before.push(
                RowView::Header(indented(item.group_label@)),
            ));
        }
        let ghost titled = rows_view(rows@);
        if i == keybinds.selected {
            selected = rows.len();
        }
        let value = if keybinds.selected == i && keybinds.capturing {
            words.press_a_key.clone()
        } else {
            match &item.binding {
                Some(key) => key.clone(),
                None => words.unset.clone(),
            }
        };
        rows.push(KeybindRow::Entry(row_label_text(item.label.as_str()), value));
        assert(rows_view(rows@) =~= titled.push(
            RowView::Entry(
                row_label(item.label@),
                binding_text(*item, i as int, *keybinds, *words),
            ),
        ));
        i += 1;
    }
    push_read_only_rows(&mut rows, keybinds, words);
    if items.len() > 0 {
        KeybindList::Rows(rows, Some(selected))
    } else {
        KeybindList::Rows(rows, None)
    }
}

proof fn lemma_entry_rows_grow(keybinds: Keybinds, words: KeybindTexts, few: nat, many: nat)
    requires
        few <= many,
    ensures
        entry_rows(keybinds, words, few).is_prefix_of(entry_rows(keybinds, words, many)),
    decreases many,
{
    if few < many {
        lemma_entry_rows_grow(keybinds, words, few, (many - 1) as nat);
        let a = entry_rows(keybinds, words, few);
        let b = entry_rows(keybinds, words, (many - 1) as nat);
        let c = entry_rows(keybinds, words, many);
        assert(b.is_prefix_of(c));
        assert(a =~= c.take(a.len() as int));
    }
}

/// The row that is selected is the row of the selected binding, however many titles stand
/// above it.
pub proof fn law_selected_row_is_the_selected_binding(keybinds: Keybinds, words: KeybindTexts)
    requires
        keybinds.selected < keybinds.filtered@.len(),
    ensures
        ({
            let rows = entry_rows(keybinds, words, keybinds.filtered@.len());
            let place = keybinds.selected as int;
            let item = keybinds.filtered@[place];
            &&& selected_row(keybinds, words) < rows.len()
            &&& rows[selected_row(keybinds, words) as int] == RowView::Entry(
                row_label(item.label@),
                binding_text(item, place, keybinds, words),
            )
        }),
{
    lemma_entry_rows_grow(
        keybinds,
        words,
        (keybinds.selected + 1) as nat,
        keybinds.filtered@.len(),
    );
    let rows = entry_rows(keybinds, words, keybinds.filtered@.len());
    let upto = entry_rows(keybinds, words, (keybinds.selected + 1) as nat);
    let place = keybinds.selected as int;
    assert(upto.last() == RowView::Entry(
        row_label(keybinds.filtered@[place].label@),
        binding_text(keybinds.filtered@[place], place, keybinds, words),
    ));
    assert(rows[upto.len() - 1] == upto[upto.len() - 1]);
}

// ---------------------------------------------------------------------------
// Laws
// ---------------------------------------------------------------------------

/// The choice that is marked is the one whose value is the current value. The languages
/// are offered as automatic, English and Russian; where the current one is none of them,
/// no choice is marked.
pub proof fn law_marked_language_is_the_current_one(values: SettingsValues)
    ensures
        ({
            let choices = seq!["auto"@, "en"@, "ru"@];
            let current = values.language@;
            content_of(SettingsSection::Language, values) matches SettingsContent::Choices(
                place,
                _,
            ) && {
                &&& place == language_place(current)
                &&& place matches Some(i) ==> i < 3 && choices[i as int] == current
                &&& forall|i: int|
                    0 <= i < 3 && #[trigger] choices[i] == current ==> place == Some(i as usize)
                &&& place is None <==> current != "auto"@ && current != "en"@ && current != "ru"@
            }
        }),
{
    reveal_strlit("auto");
    reveal_strlit("en");
    reveal_strlit("ru");
    assert("auto"@.len() != "en"@.len());
    assert("auto"@.len() != "ru"@.len());
    assert("en"@[0] != "ru"@[0]);
}

/// The kinds of delivery are offered as none, by the program, by the terminal and by the
/// system, and the one that is marked is the current one.
pub proof fn law_marked_delivery_is_the_current_one(values: SettingsValues)
    ensures
        ({
            let choices = seq![
                ToastDelivery::Off,
                ToastDelivery::Tanuki,
                ToastDelivery::Terminal,
                ToastDelivery::System,
            ];
            content_of(SettingsSection::Toast, values) matches SettingsContent::Choices(
                Some(place),
                _,
            ) && {
                &&& place == toast_place(values.toast_delivery)
                &&& place < 4
                &&& choices[place as int] == values.toast_delivery
                &&& forall|i: int|
                    0 <= i < 4 && #[trigger] choices[i] == values.toast_delivery ==> place == i
            }
        }),
{
}

/// A switch is offered as on and off, and the one that is marked is the current one; each
/// section looks at its own value.
pub proof fn law_marked_switch_is_the_current_one(values: SettingsValues)
    ensures
        ({
            let choices = seq![true, false];
            &&& content_of(SettingsSection::Sound, values) matches SettingsContent::Choices(
                Some(place),
                _,
            ) && place < 2 && choices[place as int] == values.sound_enabled
            &&& content_of(SettingsSection::PaneLabels, values) matches SettingsContent::Choices(
                Some(place),
                _,
            ) && place < 2 && choices[place as int] == values.agent_border_labels
            &&& forall|value: bool| choices[#[trigger] toggle_place(value) as int] == value
        }),
{
}

/// Each section shows what it is about, and only the four that offer choices look at the
/// current values.
pub proof fn law_section_shows_what_it_is_about(section: SettingsSection, values: SettingsValues)
    ensures
        ({
            let content = content_of(section, values);
            &&& content is Themes <==> section == SettingsSection::Theme
            &&& content is Keybinds <==> section == SettingsSection::Keybinds
            &&& content is Experiments <==> section == SettingsSection::Experiments
            &&& content is Integrations <==> section == SettingsSection::Integrations
            &&& content matches SettingsContent::Choices(_, rows) ==> rows == if section
                == SettingsSection::Sound || section == SettingsSection::PaneLabels {
                1u16
            } else {
                2u16
            }
        }),
{
}

/// An indented text is the text behind one space.
pub proof fn law_indented_text_is_kept(s: Seq<char>)
    ensures
        indented(s).len() == s.len() + 1,
        indented(s)[0] == ' ',
        indented(s).skip(1) == s,
{
    reveal_strlit(" ");
    assert(indented(s).skip(1) =~= s);
}

/// What the last installation said is shown in full, one line for each message and in
/// order. Where it said nothing, the one hint that fits is shown: that something can be
/// installed as long as anything waits for it, that everything is installed where
/// something is there, and otherwise that nothing was found.
pub proof fn law_footer_says_what_matters(integrations: Integrations, hints: IntegrationHints)
    ensures
        ({
            let lines = footer_lines(integrations, hints);
            let messages = integrations.install_messages@;
            let list = integrations.recommendations@;
            let waiting = exists|i: int| 0 <= i < list.len() && (#[trigger] list[i]).needs_install;
            let there = exists|i: int|
                0 <= i < list.len() && ((#[trigger] list[i]).available || !(
                list[i].state is NotInstalled));
            &&& messages.len() > 0 ==> lines.len() == messages.len() && forall|i: int|
                0 <= i < messages.len() ==> #[trigger] lines[i] == seq![' '] + messages[i]@
            &&& messages.len() == 0 ==> lines.len() == 1
            &&& messages.len() == 0 && waiting ==> lines[0] == seq![' '] + hints.install@
            &&& messages.len() == 0 && !waiting && there ==> lines[0] == seq![' ']
                + hints.all_installed@
            &&& messages.len() == 0 && !waiting && !there ==> lines[0] == seq![' ']
                + hints.none_found@
        }),
{
    reveal_strlit(" ");
    assert(" "@ =~= seq![' ']);
    let list = integrations.recommendations@;
    if any_found(list) {
        let i = choose|i: int|
            0 <= i < list.len() && ((#[trigger] list[i]).available || list[i].state
                != IntegrationStatusKind::NotInstalled);
        assert(list[i].available || !(list[i].state is NotInstalled));
    }
}

/// The popup is just as high as it has to be: its base height, or where the list and the
/// footer of the integrations need more, so much that they fit between the fourteen rows
/// around them. An empty list takes the row that says so, and the footer takes the rows
/// that it needs, up to six.
pub proof fn law_popup_is_as_high_as_needed(list: u16, footer: u16, count: nat)
    ensures
        14 + list + footer <= 22 ==> popup_height(list, footer) == 22,
        14 + list + footer >= 22 ==> popup_height(list, footer) == 14 + list + footer,
        list_rows(0) == 1,
        1 <= count <= u16::MAX ==> list_rows(count) == count,
        count <= 6 ==> footer_rows(count) == count,
        6 <= count <= u16::MAX ==> footer_rows(count) == 6,
{
}

/// The marker of an integration tells how things stand with it: a tick where it is up to
/// date, a circle where it is out of date, a plus where it can be installed, and a dash
/// where it cannot.
pub proof fn law_marker_tells_the_state(state: IntegrationStatusKind, available: bool)
    ensures
        ({
            let (marker, tone) = integration_marker(state, available);
            &&& tone == MarkerTone::Good <==> state == IntegrationStatusKind::Current
            &&& tone == MarkerTone::Warning <==> state == IntegrationStatusKind::Outdated
            &&& tone == MarkerTone::Accent <==> state == IntegrationStatusKind::NotInstalled
                && available
            &&& tone == MarkerTone::Faint <==> state == IntegrationStatusKind::NotInstalled
                && !available
            &&& marker.len() == 3 && marker[0] == ' ' && marker[2] == ' '
            &&& marker[1] == '✓' <==> tone == MarkerTone::Good
            &&& marker[1] == '↻' <==> tone == MarkerTone::Warning
            &&& marker[1] == '+' <==> tone == MarkerTone::Accent
            &&& marker[1] == '–' <==> tone == MarkerTone::Faint
        }),
{
    reveal_strlit(" ✓ ");
    reveal_strlit(" ↻ ");
    reveal_strlit(" + ");
    reveal_strlit(" – ");
}

/// A row of the list shows the integration that it stands for: its label from the left,
/// its status and its marker.
pub proof fn law_row_shows_its_integration(row: IntegrationRow, item: IntegrationRecommendation)
    requires
        shows_integration(row, item),
    ensures
        item.label@.is_prefix_of(row.label@),
        row.label@.len() >= 9,
        forall|i: int| item.label@.len() <= i < row.label@.len() ==> row.label@[i] == ' ',
        row.status@ == item.status_label@,
        row.tone == MarkerTone::Good <==> item.state == IntegrationStatusKind::Current,
{
    law_padding_only_adds_spaces(item.label@, 9);
    law_marker_tells_the_state(item.state, item.available);
}

/// The tab that is selected is the first one of the section; where the section has none,
/// it is the first of all.
pub proof fn law_selected_tab_is_the_section(tabs: Seq<SettingsTab>, section: SettingsSection)
    ensures
        ({
            let place = tab_place(tabs, section) as int;
            &&& (exists|i: int| 0 <= i < tabs.len() && (#[trigger] tabs[i]).section == section)
                ==> 0 <= place < tabs.len() && tabs[place].section == section && forall|j: int|
                0 <= j < place ==> (#[trigger] tabs[j]).section != section
            &&& (forall|i: int| 0 <= i < tabs.len() ==> (#[trigger] tabs[i]).section != section)
                ==> place == 0
        }),
{
    lemma_first_tab(tabs, section);
}

proof fn lemma_first_tab(tabs: Seq<SettingsTab>, section: SettingsSection)
    ensures
        forall|j: int|
            0 <= j < first_tab(tabs, section) ==> j < tabs.len() && (#[trigger] tabs[j]).section
                != section,
        first_tab(tabs, section) < tabs.len() ==> tabs[first_tab(tabs, section) as int].section
            == section,
        first_tab(tabs, section) <= tabs.len(),
    decreases tabs.len(),
{
    if tabs.len() > 0 && tabs[0].section != section {
        let rest = tabs.skip(1);
        lemma_first_tab(rest, section);
        assert forall|j: int| 0 <= j < first_tab(tabs, section) implies j < tabs.len() && (
        #[trigger] tabs[j]).section != section by {
            if j > 0 {
                assert(rest[j - 1].section == tabs[j].section);
            }
        }
    }
}

/// A tab always shows its label, and shows that it asks for attention exactly if it does.
pub proof fn law_tab_shows_its_label(tab: SettingsTab)
    ensures
        tab_label(tab).last() == tab.label@,
        tab_label(tab).len() == if tab.badge {
            2nat
        } else {
            1
        },
        tab.badge ==> tab_label(tab)[0] == "● "@,
{
}

/// The line below the tabs is as wide as the popup and has no gap.
pub proof fn law_separator_fills_the_width(width: nat)
    ensures
        separator_line(width).len() == width,
        forall|i: int| 0 <= i < width ==> separator_line(width)[i] == '─',
{
}

/// Two names mean the same theme if and only if they are as long as each other and differ
/// at most in which of dash, space and underscore stands at a place.
pub proof fn law_same_theme_ignores_separators(a: Seq<char>, b: Seq<char>)
    ensures
        dashed(a) == dashed(b) <==> a.len() == b.len() && forall|i: int|
            0 <= i < a.len() ==> #[trigger] a[i] == b[i] || ((a[i] == '-' || a[i] == ' ' || a[i]
                == '_') && (b[i] == '-' || b[i] == ' ' || b[i] == '_')),
{
    if dashed(a) == dashed(b) {
        assert(dashed(a).len() == dashed(b).len());
        assert forall|i: int| 0 <= i < a.len() implies #[trigger] a[i] == b[i] || ((a[i] == '-'
            || a[i] == ' ' || a[i] == '_') && (b[i] == '-' || b[i] == ' ' || b[i] == '_')) by {
            assert(dashed(a)[i] == dashed(b)[i]);
        }
    } else if a.len() == b.len() && forall|i: int|
        0 <= i < a.len() ==> #[trigger] a[i] == b[i] || ((a[i] == '-' || a[i] == ' ' || a[i] == '_')
            && (b[i] == '-' || b[i] == ' ' || b[i] == '_')) {
        assert(dashed(a) =~= dashed(b));
    }
}

/// A theme is ticked exactly if its name, in small letters, means the same theme as the
/// current name does; so the current theme is always ticked.
pub proof fn law_current_theme_is_ticked(name: Seq<char>, current: Seq<char>)
    ensures
        theme_marker(name, current) == seq![' ', '✓'] || theme_marker(name, current)
            == Seq::<char>::empty(),
        theme_marker(name, current).len() > 0 <==> dashed(lowercase_text(name)) == dashed(
            lowercase_text(current),
        ),
        theme_marker(name, name).len() > 0,
        theme_marker(name, current) == theme_marker(current, name),
{
    reveal_strlit(" ✓");
    reveal_strlit("");
    assert(" ✓"@ =~= seq![' ', '✓']);
    assert(""@ =~= Seq::<char>::empty());
}

/// The text of an experiment is its label and a box that is ticked exactly if it is on.
pub proof fn law_experiment_shows_its_switch(label: Seq<char>, enabled: bool)
    ensures
        ({
            let text = experiment_text(label, enabled);
            &&& text.len() == label.len() + 5
            &&& text[0] == ' '
            &&& text.subrange(1, 1 + label.len() as int) == label
            &&& text.skip(1 + label.len() as int) == if enabled {
                seq![' ', '[', '✓', ']']
            } else {
                seq![' ', '[', ' ', ']']
            }
        }),
{
    reveal_strlit(" ");
    reveal_strlit("[✓]");
    reveal_strlit("[ ]");
    let text = experiment_text(label, enabled);
    assert(text.subrange(1, 1 + label.len() as int) =~= label);
    if enabled {
        assert(text.skip(1 + label.len() as int) =~= seq![' ', '[', '✓', ']']);
    } else {
        assert(text.skip(1 + label.len() as int) =~= seq![' ', '[', ' ', ']']);
    }
}

/// A search that is being typed or is set is shown as it was typed; only where there is
/// none, the line says how to begin one.
pub proof fn law_search_line_shows_the_search(
    search: Seq<char>,
    active: bool,
    press_to_edit: Seq<char>,
    press_to_search: Seq<char>,
)
    ensures
        ({
            let parts = search_line(search, active, press_to_edit, press_to_search);
            &&& active || search.len() > 0 <==> parts.len() == 3
            &&& active || search.len() > 0 ==> parts[0] == seq![' ', '/', ' '] && parts[1] == search
            &&& active ==> parts[2] == seq!['▏']
            &&& !active && search.len() > 0 ==> parts[2] == seq![' ', '('] + press_to_edit
                + seq![')']
            &&& !active && search.len() == 0 ==> parts == seq![seq![' '] + press_to_search]
        }),
{
    reveal_strlit(" ");
    reveal_strlit(" / ");
    reveal_strlit("▏");
    reveal_strlit(" (");
    reveal_strlit(")");
    assert(" "@ =~= seq![' ']);
    assert(" / "@ =~= seq![' ', '/', ' ']);
    assert("▏"@ =~= seq!['▏']);
    assert(" ("@ =~= seq![' ', '(']);
    assert(")"@ =~= seq![')']);
}

/// A label stands behind three spaces, whole, and what follows it in the row begins behind
/// at least twenty-five characters.
pub proof fn law_row_label_is_kept(label: Seq<char>)
    ensures
        row_label(label).len() == 3 + if label.len() < 22 {
            22nat
        } else {
            label.len()
        },
        row_label(label).subrange(3, 3 + label.len() as int) == label,
        forall|i: int|
            0 <= i < 3 || 3 + label.len() <= i < row_label(label).len() ==> row_label(label)[i]
                == ' ',
{
    reveal_strlit("   ");
    law_padding_only_adds_spaces(label, 22);
    assert(row_label(label).subrange(3, 3 + label.len() as int) =~= label) by {
        let text = padded(label, 22);
        assert(label == text.take(label.len() as int));
        assert forall|i: int| 0 <= i < label.len() implies row_label(label)[3 + i] == label[i] by {
            assert(text.take(label.len() as int)[i] == text[i]);
        }
    }
}

/// Nine bindings are a range if and only if their labels are one text with the digits from
/// one to nine behind it.
pub proof fn law_range_runs_from_one_to_nine(labels: Seq<Seq<char>>, prefix: Seq<char>)
    ensures
        range_prefix(labels) == Some(prefix) <==> {
            let digits = seq!['1', '2', '3', '4', '5', '6', '7', '8', '9'];
            labels.len() >= 9 && forall|k: int|
                0 <= k < 9 ==> #[trigger] labels[k] == prefix.push(digits[k])
        },
{
    let digits = seq!['1', '2', '3', '4', '5', '6', '7', '8', '9'];
    assert forall|k: int| 0 <= k < 9 implies #[trigger] digits[k] == index_digit(k) by {
        assert(k == 0 || k == 1 || k == 2 || k == 3 || k == 4 || k == 5 || k == 6 || k == 7 || k
            == 8);
    }
    if range_prefix(labels) == Some(prefix) {
        assert forall|k: int| 0 <= k < 9 implies #[trigger] labels[k] == prefix.push(digits[k]) by {
            assert(labels[k] == labels[0].drop_last().push(index_digit(k)));
        }
    }
    if labels.len() >= 9 && forall|k: int|
        0 <= k < 9 ==> #[trigger] labels[k] == prefix.push(digits[k]) {
        assert(labels[0] == prefix.push(digits[0]));
        assert(labels[0].drop_last() =~= prefix);
        assert forall|k: int| 0 <= k < 9 implies #[trigger] labels[k]
            == labels[0].drop_last().push(index_digit(k)) by {
            assert(labels[k] == prefix.push(digits[k]));
        }
    }
}

/// Bindings of which no nine in a row are a range are all listed, each as it is.
pub proof fn law_single_bindings_are_listed(labels: Seq<Seq<char>>)
    requires
        forall|i: int| 0 <= i < labels.len() ==> range_prefix(#[trigger] labels.skip(i)) is None,
    ensures
        collapsed(labels) == labels,
    decreases labels.len(),
{
    if labels.len() > 0 {
        let rest = labels.skip(1);
        assert(labels.skip(0) =~= labels);
        assert(range_prefix(labels.skip(0)) is None);
        assert forall|i: int| 0 <= i < rest.len() implies range_prefix(
            #[trigger] rest.skip(i),
        ) is None by {
            assert(rest.skip(i) =~= labels.skip(i + 1));
        }
        law_single_bindings_are_listed(rest);
        assert(seq![labels[0]] + rest =~= labels);
    }
}

/// A range is drawn together wherever the list has come to it, and the list goes on behind
/// its nine bindings; a binding that begins none is listed by itself.
pub proof fn law_ranges_are_drawn_together(labels: Seq<Seq<char>>, prefix: Seq<char>)
    ensures
        range_prefix(labels) == Some(prefix) ==> collapsed(labels) == seq![
            prefix + seq!['1', '.', '.', '9'],
        ] + collapsed(labels.skip(9)),
        labels.len() > 0 && range_prefix(labels) is None ==> collapsed(labels) == seq![labels[0]]
            + collapsed(labels.skip(1)),
        collapsed(Seq::<Seq<char>>::empty()) == Seq::<Seq<char>>::empty(),
{
    reveal_strlit("1..9");
    assert("1..9"@ =~= seq!['1', '.', '.', '9']);
}

/// A list of bindings is shown with ` / ` between them, and an empty one as not set.
pub proof fn law_binding_list_is_shown(labels: Seq<Seq<char>>, unset: Seq<char>)
    ensures
        indexed_label(Seq::empty(), unset) == unset,
        labels.len() > 0 ==> indexed_label(labels, unset) == join(
            collapsed(labels),
            seq![' ', '/', ' '],
        ),
{
    reveal_strlit(" / ");
    assert(" / "@ =~= seq![' ', '/', ' ']);
}

/// Behind the label of a binding stands its key, or that it has none, but for the selected
/// binding while a key press is awaited.
pub proof fn law_binding_shows_its_key(
    item: KeybindItem,
    place: int,
    keybinds: Keybinds,
    words: KeybindTexts,
)
    ensures
        ({
            let text = binding_text(item, place, keybinds, words);
            let awaited = keybinds.capturing && keybinds.selected == place;
            &&& awaited ==> text == words.press_a_key@
            &&& !awaited && item.binding is None ==> text == words.unset@
            &&& forall|key: String| !awaited && item.binding == Some(key) ==> text == #[trigger] key@
        }),
{
}

/// Every binding that matches has a row of its own with its label and its key, in order,
/// and each group stands under its title: the title is right above a binding exactly if
/// the binding is the first or belongs to another group than the one before it.
pub proof fn law_every_binding_stands_under_its_group(
    keybinds: Keybinds,
    words: KeybindTexts,
    place: int,
)
    requires
        0 <= place < keybinds.filtered@.len(),
    ensures
        ({
            let rows = entry_rows(keybinds, words, keybinds.filtered@.len());
            let item = keybinds.filtered@[place];
            let before = entry_rows(keybinds, words, place as nat).len() as int;
            let first = place == 0 || keybinds.filtered@[place - 1].group != item.group;
            let at = if first {
                before + 1
            } else {
                before
            };
            &&& at < rows.len()
            &&& rows[at] == RowView::Entry(
                row_label(item.label@),
                binding_text(item, place, keybinds, words),
            )
            &&& first ==> rows[before] == RowView::Header(seq![' '] + item.group_label@)
            &&& entry_rows(keybinds, words, (place + 1) as nat).len() == at + 1
            &&& entry_rows(keybinds, words, 0).len() == 0
        }),
{
    reveal_strlit(" ");
    assert(" "@ =~= seq![' ']);
    lemma_entry_rows_grow(keybinds, words, (place + 1) as nat, keybinds.filtered@.len());
    let rows = entry_rows(keybinds, words, keybinds.filtered@.len());
    let upto = entry_rows(keybinds, words, (place + 1) as nat);
    assert(rows.take(upto.len() as int) =~= upto);
    assert(rows[upto.len() - 1] == upto[upto.len() - 1]);
    if begins_group(keybinds.filtered@, place) {
        assert(rows[upto.len() - 2] == upto[upto.len() - 2]);
    }
}

/// Without a search the bindings that cannot be changed are shown as well: the three
/// ranges under their title, each with its own bindings, and the user's own commands in
/// order, each under its description, or else the command itself, with its key. A search
/// hides them.
pub proof fn law_fixed_bindings_are_shown(keybinds: Keybinds, words: KeybindTexts)
    ensures
        ({
            let rows = read_only_rows(keybinds, words);
            let commands = keybinds.custom_commands@;
            &&& keybinds.search@.len() > 0 ==> rows.len() == 0
            &&& keybinds.search@.len() == 0 ==> {
                &&& rows.len() == 4 + if commands.len() == 0 {
                    0
                } else {
                    1 + commands.len()
                }
                &&& rows[0] == RowView::Header(seq![' '] + words.workspaces_tabs_readonly@)
                &&& rows[1] == RowView::ReadOnly(
                    row_label(words.switch_workspace@),
                    indexed_label(labels_of(keybinds.switch_workspace@), words.unset@),
                )
                &&& rows[2] == RowView::ReadOnly(
                    row_label(words.focus_agent@),
                    indexed_label(labels_of(keybinds.focus_agent@), words.unset@),
                )
                &&& rows[3] == RowView::ReadOnly(
                    row_label(words.switch_tab@),
                    indexed_label(labels_of(keybinds.switch_tab@), words.unset@),
                )
                &&& commands.len() > 0 ==> rows[4] == RowView::Header(
                    seq![' '] + words.custom_readonly@,
                )
                &&& forall|i: int|
                    0 <= i < commands.len() ==> rows[5 + i] == RowView::ReadOnly(
                        row_label(
                            match (#[trigger] commands[i]).description {
                                Some(description) => description@,
                                None => commands[i].command@,
                            },
                        ),
                        commands[i].label@,
                    )
            }
        }),
{
    reveal_strlit(" ");
    assert(" "@ =~= seq![' ']);
}

/// Each binding of a range is shown under its own label.
pub proof fn law_labels_are_those_of_the_bindings(bindings: Seq<IndexedKeybind>)
    ensures
        labels_of(bindings).len() == bindings.len(),
        forall|i: int|
            0 <= i < bindings.len() ==> #[trigger] labels_of(bindings)[i] == bindings[i].label@,
{
}

/// It is said that nothing matches exactly if there is neither a binding nor a command of
/// the user's own to show.
pub proof fn law_nothing_matches_means_nothing_to_show(keybinds: Keybinds)
    ensures
        nothing_matches(keybinds) <==> keybinds.filtered@.len() == 0
            && keybinds.custom_commands@.len() == 0,
{
}

/// Rows are counted in sixteen bits: so many more rows than those can count make no
/// difference.
pub proof fn law_rows_are_counted_in_sixteen_bits(count: nat)
    ensures
        footer_rows(count + 0x10000) == footer_rows(count),
        count > 0 ==> list_rows(count + 0x10000) == list_rows(count),
{
}

/// Where no binding is selected, the first row is.
pub proof fn law_first_row_is_selected_otherwise(keybinds: Keybinds, words: KeybindTexts)
    requires
        keybinds.selected >= keybinds.filtered@.len(),
    ensures
        selected_row(keybinds, words) == 0,
{
}

/// A row is modelled by its kind and its texts.
pub proof fn law_rows_are_modelled_whole(rows: Seq<KeybindRow>)
    ensures
        rows_view(rows).len() == rows.len(),
        forall|i: int|
            0 <= i < rows.len() ==> match rows[i] {
                KeybindRow::Header(title) => #[trigger] rows_view(rows)[i] == RowView::Header(
                    title@,
                ),
                KeybindRow::Entry(label, value) => rows_view(rows)[i] == RowView::Entry(
                    label@,
                    value@,
                ),
                KeybindRow::ReadOnly(label, value) => rows_view(rows)[i] == RowView::ReadOnly(
                    label@,
                    value@,
                ),
            },
{
}

} // verus!
