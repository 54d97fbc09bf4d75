//! Saving settings to the configuration file: what each setting writes, what is shown
//! when writing fails, and how the application's own writes are told from changes made by
//! others. The program reads and writes the file.

use vstd::prelude::*;
use crate::text::copy_of;
use crate::text::opt_text;
use crate::ui::settings::ToastDelivery;

verus! {

/// How long a failure is shown, in nanoseconds.
pub const CONFIG_DIAGNOSTIC_TIME: u128 = 5_000_000_000;

/// One change of the configuration file.
#[derive(Debug, PartialEq, Eq)]
pub enum ConfigEdit {
    /// Set a key at the top to a truth value.
    TopLevelBool(String, bool),
    /// Set a key of a section to a value, as it is written.
    SectionValue(String, String, String),
    /// Set a key of a section to a truth value.
    SectionBool(String, String, bool),
    /// Remove a key of a section.
    RemoveKey(String, String),
}

/// The model of [`ConfigEdit`].
pub enum EditView {
    TopLevelBool(Seq<char>, bool),
    SectionValue(Seq<char>, Seq<char>, Seq<char>),
    SectionBool(Seq<char>, Seq<char>, bool),
    RemoveKey(Seq<char>, Seq<char>),
}

impl ConfigEdit {
    /// The model of the change.
    pub open spec fn view(&self) -> EditView {
        match self {
            ConfigEdit::TopLevelBool(key, value) => EditView::TopLevelBool(key@, *value),
            ConfigEdit::SectionValue(section, key, value) => EditView::SectionValue(
                section@,
                key@,
                value@,
            ),
            ConfigEdit::SectionBool(section, key, value) => EditView::SectionBool(
                section@,
                key@,
                *value,
            ),
            ConfigEdit::RemoveKey(section, key) => EditView::RemoveKey(section@, key@),
        }
    }
}

/// What is to be written, in order.
#[derive(Debug, PartialEq, Eq)]
pub struct ConfigUpdate {
    /// What is being saved, for the message when it fails.
    pub error_context: String,
    pub edits: Vec<ConfigEdit>,
    /// The file is to be read again once it was written.
    pub reload: bool,
}

/// The model of [`ConfigUpdate`].
pub struct UpdateView {
    pub error_context: Seq<char>,
    pub edits: Seq<EditView>,
    pub reload: bool,
}

impl ConfigUpdate {
    /// The model of the update.
    pub open spec fn view(&self) -> UpdateView {
        UpdateView {
            error_context: self.error_context@,
            edits: self.edits@.map_values(|e: ConfigEdit| e@),
            reload: self.reload,
        }
    }
}

/// An update of one change, after which the file is read again.
pub open spec fn single(error_context: Seq<char>, edit: EditView) -> UpdateView {
    UpdateView { error_context, edits: seq![edit], reload: true }
}

fn single_update(error_context: &str, edit: ConfigEdit) -> (r: ConfigUpdate)
    ensures
        r@ == single(error_context@, edit@),
{
    let mut edits: Vec<ConfigEdit> = Vec::new();
    edits.push(edit);
    let r = ConfigUpdate { error_context: copy_of(error_context), edits, reload: true };
    assert(r@.edits =~= seq![edit@]);
    r
}

fn bool_edit(section: &str, key: &str, value: bool) -> (r: ConfigEdit)
    ensures
        r@ == EditView::SectionBool(section@, key@, value),
{
    ConfigEdit::SectionBool(copy_of(section), copy_of(key), value)
}

fn value_edit(section: &str, key: &str, value: String) -> (r: ConfigEdit)
    ensures
        r@ == EditView::SectionValue(section@, key@, value@),
{
    ConfigEdit::SectionValue(copy_of(section), copy_of(key), value)
}

/// `s` in double quotes.
pub open spec fn in_quotes(s: Seq<char>) -> Seq<char> {
    seq!['"'] + s + seq!['"']
}

fn quote(s: &str) -> (r: String)
    ensures
        r@ == in_quotes(s@),
{
    let mut out = String::new();
    out.push('"');
    out.push_str(s);
    out.push('"');
    assert(out@ =~= in_quotes(s@));
    out
}

/// What came of writing the file.
#[derive(Debug, PartialEq, Eq)]
pub enum WriteOutcome {
    /// The directory of the file could not be created.
    DirFailed(String),
    /// The file could not be written.
    WriteFailed(String),
    /// The file was written and now has this time, in nanoseconds, where it is known.
    Written(Option<i128>),
}

/// How the agents are sorted.
#[derive(Debug, Clone, Copy, PartialEq, Eq, Structural)]
pub enum AgentPanelSort {
    Spaces,
    Priority,
}

/// What the application knows of its configuration file.
#[verifier::ext_equal]
pub struct AppView {
    /// What is shown of the last failure.
    pub config_diagnostic: Option<Seq<char>>,
    /// Until when it is shown.
    pub config_diagnostic_deadline: Option<u128>,
    /// The time of the file as of the last look, or of the application's last write.
    pub known_config_mtime: Option<i128>,
}

impl AppView {
    /// The application after an attempt to save something at the moment `now`.
    pub open spec fn after_write(
        self,
        error_context: Seq<char>,
        outcome: WriteOutcome,
        now: int,
    ) -> Self {
        match outcome {
            WriteOutcome::DirFailed(err) => self.failed(error_context, err@, now),
            WriteOutcome::WriteFailed(err) => self.failed(error_context, err@, now),
            WriteOutcome::Written(mtime) => AppView { known_config_mtime: mtime, ..self },
        }
    }

    /// The application after a failure to save something.
    pub open spec fn failed(self, error_context: Seq<char>, err: Seq<char>, now: int) -> Self {
        AppView {
            config_diagnostic: Some("failed to save "@ + error_context + ": "@ + err),
            config_diagnostic_deadline: Some((now + CONFIG_DIAGNOSTIC_TIME) as u128),
            ..self
        }
    }

    /// The application after it saw the file with the given time.
    pub open spec fn after_poll(self, current: Option<i128>) -> Self {
        AppView { known_config_mtime: current, ..self }
    }

    /// The file with the given time was changed by someone else. A file that was not
    /// there before, or is not there now, does not count.
    pub open spec fn changed_outside(self, current: Option<i128>) -> bool {
        self.known_config_mtime is Some && current is Some && current != self.known_config_mtime
    }
}

/// What the application knows of its configuration file.
pub struct App {
    config_diagnostic: Option<String>,
    config_diagnostic_deadline: Option<u128>,
    known_config_mtime: Option<i128>,
}

impl App {
    /// The model of the application.
    pub closed spec fn view(&self) -> AppView {
        AppView {
            config_diagnostic: opt_text(self.config_diagnostic),
            config_diagnostic_deadline: self.config_diagnostic_deadline,
            known_config_mtime: self.known_config_mtime,
        }
    }

    /// An application that has read a file with the given time.
    pub fn new(known_config_mtime: Option<i128>) -> (r: Self)
        ensures
            r@ == (AppView {
                config_diagnostic: None,
                config_diagnostic_deadline: None,
                known_config_mtime,
            }),
    {
        App { config_diagnostic: None, config_diagnostic_deadline: None, known_config_mtime }
    }

    /// What is shown of the last failure, and until when.
    pub fn diagnostic(&self) -> (r: (Option<&str>, Option<u128>))
        ensures
            crate::text::opt_str(r.0) == self@.config_diagnostic,
            r.1 == self@.config_diagnostic_deadline,
    {
        let text = match &self.config_diagnostic {
            Some(text) => Some(text.as_str()),
            None => None,
        };
        (text, self.config_diagnostic_deadline)
    }

    /// Takes note of what came of writing the file at the moment `now`. Whether it was
    /// written. The time of the file is remembered, so that the application's own write
    /// is not taken for a change by someone else.
    pub fn update_config_file(&mut self, error_context: &str, outcome: WriteOutcome, now: u128)
        -> (r: bool)
        requires
            now + CONFIG_DIAGNOSTIC_TIME <= u128::MAX,
        ensures
            final(self)@ == old(self)@.after_write(error_context@, outcome, now as int),
            r == (outcome is Written),
    {
        let err = match outcome {
            WriteOutcome::Written(mtime) => {
                self.known_config_mtime = mtime;
                return true;
            },
            WriteOutcome::DirFailed(err) => err,
            WriteOutcome::WriteFailed(err) => err,
        };
        let mut message = copy_of("failed to save ");
        message.push_str(error_context);
        message.push_str(": ");
        message.push_str(err.as_str());
        self.config_diagnostic = Some(message);
        self.config_diagnostic_deadline = Some(now + CONFIG_DIAGNOSTIC_TIME);
        false
    }

    /// Looks at the file, which has the given time: whether someone else has changed it
    /// since it was last looked at or written. The time is remembered, so that one change
    /// is reported once.
    pub fn check_external_config_change(&mut self, current: Option<i128>) -> (r: bool)
        ensures
            final(self)@ == old(self)@.after_poll(current),
            r == old(self)@.changed_outside(current),
    {
        let same = match (self.known_config_mtime, current) {
            (Some(known), Some(seen)) => known == seen,
            (None, None) => true,
            _ => false,
        };
        if same {
            return false;
        }
        let previously_known = self.known_config_mtime.is_some();
        self.known_config_mtime = current;
        previously_known && current.is_some()
    }

    /// What to write once the introduction was seen. The file is not read again.
    pub fn mark_onboarding_complete() -> (r: ConfigUpdate)
        ensures
            r@ == (UpdateView {
                error_context: "onboarding setting"@,
                edits: seq![EditView::TopLevelBool("onboarding"@, false)],
                reload: false,
            }),
    {
        let mut edits: Vec<ConfigEdit> = Vec::new();
        edits.push(ConfigEdit::TopLevelBool(copy_of("onboarding"), false));
        let r = ConfigUpdate { error_context: copy_of("onboarding setting"), edits, reload: false };
        assert(r@.edits =~= seq![EditView::TopLevelBool("onboarding"@, false)]);
        r
    }

    /// What to write for a theme: its name, and that themes are not switched by
    /// themselves.
    pub fn save_theme(name: &str) -> (r: ConfigUpdate)
        ensures
            r@ == (UpdateView {
                error_context: "theme"@,
                edits: seq![
                    EditView::SectionValue("theme"@, "name"@, in_quotes(name@)),
                    EditView::SectionBool("theme"@, "auto_switch"@, false),
                ],
                reload: true,
            }),
    {
        let mut edits: Vec<ConfigEdit> = Vec::new();
        edits.push(value_edit("theme", "name", quote(name)));
        edits.push(bool_edit("theme", "auto_switch", false));
        let r = ConfigUpdate { error_context: copy_of("theme"), edits, reload: true };
        assert(r@.edits =~= seq![
            EditView::SectionValue("theme"@, "name"@, in_quotes(name@)),
            EditView::SectionBool("theme"@, "auto_switch"@, false),
        ]);
        r
    }

    /// What to write for the sound.
    pub fn save_sound(enabled: bool) -> (r: ConfigUpdate)
        ensures
            r@ == single(
                "sound setting"@,
                EditView::SectionBool("ui.sound"@, "enabled"@, enabled),
            ),
    {
        single_update("sound setting", bool_edit("ui.sound", "enabled", enabled))
    }

    /// What to write for the delivery of notifications. The key that it replaces is
    /// removed.
    pub fn save_toast_delivery(delivery: ToastDelivery) -> (r: ConfigUpdate)
        ensures
            r@ == (UpdateView {
                error_context: "toast setting"@,
                edits: seq![
                    EditView::SectionValue(
                        "ui.toast"@,
                        "delivery"@,
                        in_quotes(delivery_name(delivery)),
                    ),
                    EditView::RemoveKey("ui.toast"@, "enabled"@),
                ],
                reload: true,
            }),
    {
        let value = match delivery {
            ToastDelivery::Off => "off",
            ToastDelivery::Tanuki => "tanuki",
            ToastDelivery::Terminal => "terminal",
            ToastDelivery::System => "system",
        };
        let mut edits: Vec<ConfigEdit> = Vec::new();
        edits.push(value_edit("ui.toast", "delivery", quote(value)));
        edits.push(ConfigEdit::RemoveKey(copy_of("ui.toast"), copy_of("enabled")));
        let r = ConfigUpdate { error_context: copy_of("toast setting"), edits, reload: true };
        assert(r@.edits =~= seq![
            EditView::SectionValue("ui.toast"@, "delivery"@, in_quotes(delivery_name(delivery))),
            EditView::RemoveKey("ui.toast"@, "enabled"@),
        ]);
        r
    }

    /// What to write for the language.
    pub fn save_language(language: &str) -> (r: ConfigUpdate)
        ensures
            r@ == single(
                "language setting"@,
                EditView::SectionValue("ui"@, "language"@, in_quotes(language@)),
            ),
    {
        single_update("language setting", value_edit("ui", "language", quote(language)))
    }

    /// What to write for the labels on the borders of panes.
    pub fn save_agent_border_labels(enabled: bool) -> (r: ConfigUpdate)
        ensures
            r@ == single(
                "agent border labels"@,
                EditView::SectionBool("ui"@, "show_agent_labels_on_pane_borders"@, enabled),
            ),
    {
        single_update(
            "agent border labels",
            bool_edit("ui", "show_agent_labels_on_pane_borders", enabled),
        )
    }

    /// What to write for the history of panes.
    pub fn save_pane_history_persistence(enabled: bool) -> (r: ConfigUpdate)
        ensures
            r@ == single(
                "pane screen history"@,
                EditView::SectionBool("experimental"@, "pane_history"@, enabled),
            ),
    {
        single_update("pane screen history", bool_edit("experimental", "pane_history", enabled))
    }

    /// What to write for hosting over the cloud.
    pub fn save_cloud_host(enabled: bool) -> (r: ConfigUpdate)
        ensures
            r@ == single(
                "cloud host"@,
                EditView::SectionBool("remote"@, "cloud_host"@, enabled),
            ),
    {
        single_update("cloud host", bool_edit("remote", "cloud_host", enabled))
    }

    /// What to write for the input source behind the prefix key.
    pub fn save_switch_ascii_input_source_in_prefix(enabled: bool) -> (r: ConfigUpdate)
        ensures
            r@ == single(
                "prefix ascii input source"@,
                EditView::SectionBool(
                    "experimental"@,
                    "switch_ascii_input_source_in_prefix"@,
                    enabled,
                ),
            ),
    {
        single_update(
            "prefix ascii input source",
            bool_edit("experimental", "switch_ascii_input_source_in_prefix", enabled),
        )
    }

    /// What to write for the key of one action.
    pub fn save_keybind(action_id: &str, binding: &str) -> (r: ConfigUpdate)
        ensures
            r@ == single(
                "keybind"@,
                EditView::SectionValue("keys"@, action_id@, in_quotes(binding@)),
            ),
    {
        single_update("keybind", value_edit("keys", action_id, quote(binding)))
    }

    /// What to write for the order of the agents, given the names of the two orders in
    /// the file.
    pub fn save_agent_panel_sort(sort: AgentPanelSort, spaces: &str, priority: &str) -> (r:
        ConfigUpdate)
        ensures
            r@ == single(
                "agent panel sort"@,
                EditView::SectionValue(
                    "ui"@,
                    "agent_panel_sort"@,
                    in_quotes(
                        match sort {
                            AgentPanelSort::Spaces => spaces@,
                            AgentPanelSort::Priority => priority@,
                        },
                    ),
                ),
            ),
    {
        let value = match sort {
            AgentPanelSort::Spaces => spaces,
            AgentPanelSort::Priority => priority,
        };
        single_update("agent panel sort", value_edit("ui", "agent_panel_sort", quote(value)))
    }
}

/// The name of a kind of delivery in the file.
pub open spec fn delivery_name(delivery: ToastDelivery) -> Seq<char> {
    match delivery {
        ToastDelivery::Off => "off"@,
        ToastDelivery::Tanuki => "tanuki"@,
        ToastDelivery::Terminal => "terminal"@,
        ToastDelivery::System => "system"@,
    }
}

/// The application's own write is not taken for a change by someone else.
pub proof fn law_own_write_is_no_outside_change(
    app: AppView,
    error_context: Seq<char>,
    mtime: Option<i128>,
    now: int,
)
    ensures
        !app.after_write(error_context, WriteOutcome::Written(mtime), now).changed_outside(mtime),
{
}

/// One change is reported once: looking again at the same file reports nothing.
pub proof fn law_change_is_reported_once(app: AppView, current: Option<i128>)
    ensures
        !app.after_poll(current).changed_outside(current),
{
}

/// A file that appears for the first time is no change.
pub proof fn law_first_sight_is_no_change(app: AppView, current: Option<i128>)
    requires
        app.known_config_mtime is None,
    ensures
        !app.changed_outside(current),
{
}

/// A failure to save is shown with what was being saved and why, for five seconds from
/// then, and leaves what is known of the file alone; a success only notes the time that
/// the file has now.
pub proof fn law_only_failures_are_shown(
    app: AppView,
    error_context: Seq<char>,
    err: String,
    mtime: Option<i128>,
    now: u128,
)
    requires
        now + 5_000_000_000 <= u128::MAX,
    ensures
        ({
            let shown = "failed to save "@ + error_context + ": "@ + err@;
            let dir = app.after_write(error_context, WriteOutcome::DirFailed(err), now as int);
            let file = app.after_write(error_context, WriteOutcome::WriteFailed(err), now as int);
            let done = app.after_write(error_context, WriteOutcome::Written(mtime), now as int);
            &&& dir == file
            &&& dir.config_diagnostic == Some(shown)
            &&& dir.config_diagnostic_deadline == Some((now + 5_000_000_000) as u128)
            &&& dir.known_config_mtime == app.known_config_mtime
            &&& done.config_diagnostic == app.config_diagnostic
            &&& done.config_diagnostic_deadline == app.config_diagnostic_deadline
            &&& done.known_config_mtime == mtime
        }),
{
}

/// A change by someone else is noticed exactly if the file was there, is there, and has
/// another time than the one known; looking remembers the time and nothing else.
pub proof fn law_change_is_a_change_of_time(app: AppView, current: Option<i128>)
    ensures
        app.changed_outside(current) <==> (app.known_config_mtime matches Some(known)
            && current matches Some(seen) && known != seen),
        app.after_poll(current).known_config_mtime == current,
        app.after_poll(current).config_diagnostic == app.config_diagnostic,
        app.after_poll(current).config_diagnostic_deadline == app.config_diagnostic_deadline,
{
}

/// A value is written between two double quotes, as it is.
pub proof fn law_quoted_value_is_kept(s: Seq<char>)
    ensures
        in_quotes(s).len() == s.len() + 2,
        in_quotes(s)[0] == '"',
        in_quotes(s).last() == '"',
        in_quotes(s).subrange(1, 1 + s.len() as int) == s,
{
    assert(in_quotes(s).subrange(1, 1 + s.len() as int) =~= s);
}

/// Each kind of delivery is written under a name of its own.
pub proof fn law_deliveries_have_their_names(a: ToastDelivery, b: ToastDelivery)
    ensures
        delivery_name(a) == delivery_name(b) <==> a == b,
        delivery_name(ToastDelivery::Off) == "off"@,
        delivery_name(ToastDelivery::Tanuki) == "tanuki"@,
        delivery_name(ToastDelivery::Terminal) == "terminal"@,
        delivery_name(ToastDelivery::System) == "system"@,
{
    reveal_strlit("off");
    reveal_strlit("tanuki");
    reveal_strlit("terminal");
    reveal_strlit("system");
    assert("off"@.len() == 3 && "tanuki"@.len() == 6 && "terminal"@.len() == 8 && "system"@.len()
        == 6);
    assert("tanuki"@[0] != "system"@[0]);
}

/// An update of one setting makes that one change, under its name, and has the file read
/// again.
pub proof fn law_single_update_makes_one_change(error_context: Seq<char>, edit: EditView)
    ensures
        single(error_context, edit).edits == seq![edit],
        single(error_context, edit).error_context == error_context,
        single(error_context, edit).reload,
{
}

/// The model of an update holds every change that it makes, in order.
pub proof fn law_update_holds_its_changes(update: ConfigUpdate)
    ensures
        update@.error_context == update.error_context@,
        update@.reload == update.reload,
        update@.edits.len() == update.edits@.len(),
        forall|i: int|
            0 <= i < update.edits@.len() ==> match update.edits@[i] {
                ConfigEdit::TopLevelBool(key, value) => #[trigger] update@.edits[i]
                    == EditView::TopLevelBool(key@, value),
                ConfigEdit::SectionValue(section, key, value) => update@.edits[i]
                    == EditView::SectionValue(section@, key@, value@),
                ConfigEdit::SectionBool(section, key, value) => update@.edits[i]
                    == EditView::SectionBool(section@, key@, value),
                ConfigEdit::RemoveKey(section, key) => update@.edits[i] == EditView::RemoveKey(
                    section@,
                    key@,
                ),
            },
{
}

} // verus!
