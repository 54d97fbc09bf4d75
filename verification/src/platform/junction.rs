//! Pointing a managed junction at a release.
//!
//! The link may be missing, a junction of ours, a junction whose target is gone, a plain
//! directory, or something else. It is looked at step by step, and nothing is removed
//! before it is known to be ours. The program looks and acts; what it found and what came
//! of its actions goes in, and what to do next comes out.

use vstd::prelude::*;
use crate::text::ascii_lower;
use crate::text::chars_of;
use crate::text::chars_start_with;
use crate::text::copy_of;
use crate::text::eq_ignore_case;
use crate::text::hex;
use crate::text::hex_string;
use crate::text::lemma_first_field;
use crate::text::lemma_radix_digits;
use crate::text::lemma_radix_injective;
use crate::text::opt_text;
use crate::text::same_chars;
use crate::text::same_ignore_case;
use crate::text::string_of;
use crate::text::to_ascii_lower;
use crate::text::trim_end;

verus! {

// ---------------------------------------------------------------------------
// Comparing paths
// ---------------------------------------------------------------------------

/// A path as it is compared: without trailing separators, in small letters.
pub open spec fn comparable(path: Seq<char>) -> Seq<char> {
    ascii_lower(trim_end(path, |c: char| c == '\\' || c == '/'))
}

fn comparable_chars(path: &str) -> (r: Vec<char>)
    ensures
        r@ == comparable(path@),
{
    let mut chars = chars_of(path);
    while chars.len() > 0 && (chars[chars.len() - 1] == '\\' || chars[chars.len() - 1] == '/')
        invariant
            comparable(path@) == comparable(chars@),
        decreases chars@.len(),
    {
        let ghost before = chars@;
        let _ = chars.pop();
        assert(chars@ =~= before.drop_last());
    }
    to_ascii_lower(&chars)
}

/// A path as it is compared: without trailing separators, in small letters.
pub fn normalize_for_compare(path: &str) -> (r: String)
    ensures
        r@ == comparable(path@),
{
    string_of(&comparable_chars(path))
}

/// The two paths are the same up to case and trailing separators.
pub open spec fn same_path(a: Seq<char>, b: Seq<char>) -> bool {
    comparable(a) == comparable(b)
}

/// Whether the two paths are the same up to case and trailing separators.
pub fn paths_equal_ignore_case(a: &str, b: &str) -> (r: bool)
    ensures
        r == same_path(a@, b@),
{
    same_chars(&comparable_chars(a), &comparable_chars(b))
}

/// The path begins with `prefix`, up to case and trailing separators.
pub open spec fn begins_with(path: Seq<char>, prefix: Seq<char>) -> bool {
    comparable(prefix).is_prefix_of(comparable(path))
}

/// Whether the path begins with `prefix`, up to case and trailing separators.
pub fn path_starts_with_ignore_case(path: &str, prefix: &str) -> (r: bool)
    ensures
        r == begins_with(path@, prefix@),
{
    chars_start_with(&comparable_chars(path), &comparable_chars(prefix))
}

// ---------------------------------------------------------------------------
// Directories from before there were junctions
// ---------------------------------------------------------------------------

/// Something in a directory.
#[derive(Debug, PartialEq, Eq)]
pub struct DirEntry {
    pub name: String,
    pub is_dir: bool,
}

/// The directory holds an installed command and no directories.
pub open spec fn legacy_bin_dir(entries: Seq<DirEntry>) -> bool {
    &&& forall|i: int| 0 <= i < entries.len() ==> !(#[trigger] entries[i]).is_dir
    &&& exists|i: int|
        0 <= i < entries.len() && eq_ignore_case((#[trigger] entries[i]).name@, "tanuki.exe"@)
}

/// Whether a directory with these entries was installed before there were junctions.
pub fn is_legacy_bin_dir(entries: &[DirEntry]) -> (r: bool)
    ensures
        r == legacy_bin_dir(entries@),
{
    let mut found: bool = false;
    let mut i: usize = 0;
    while i < entries.len()
        invariant
            i <= entries@.len(),
            forall|j: int| 0 <= j < i ==> !(#[trigger] entries@[j]).is_dir,
            found == exists|j: int|
                0 <= j < i && eq_ignore_case((#[trigger] entries@[j]).name@, "tanuki.exe"@),
        decreases entries@.len() - i,
    {
        if entries[i].is_dir {
            return false;
        }
        if same_ignore_case(entries[i].name.as_str(), "tanuki.exe") {
            assert(eq_ignore_case(entries@[i as int].name@, "tanuki.exe"@));
            found = true;
        }
        i += 1;
    }
    found
}

/// What makes the name of a directory that is moved aside unique.
pub open spec fn suffix_text(pid: u32, nanos: u128) -> Seq<char> {
    hex(pid as nat).push('-') + hex(nanos as nat)
}

/// What makes the name of a directory that is moved aside unique: the process and the
/// time.
pub fn random_suffix(pid: u32, nanos: u128) -> (r: String)
    ensures
        r@ == suffix_text(pid, nanos),
{
    let mut out = hex_string(pid as u128);
    out.push('-');
    out.push_str(hex_string(nanos).as_str());
    out
}

/// The name under which the directory `base_name` is moved aside.
pub fn migrate_legacy_bin_dir(base_name: Option<&str>, pid: u32, nanos: u128) -> (r: String)
    ensures
        r@ == match base_name {
            Some(name) => name@,
            None => "bin"@,
        } + ".legacy."@ + suffix_text(pid, nanos),
{
    let mut out = copy_of(
        match base_name {
            Some(name) => name,
            None => "bin",
        },
    );
    out.push_str(".legacy.");
    out.push_str(random_suffix(pid, nanos).as_str());
    out
}

// ---------------------------------------------------------------------------
// The steps
// ---------------------------------------------------------------------------

/// What is known of an error of the system.
#[derive(Debug, PartialEq, Eq)]
pub struct OsError {
    pub code: Option<i32>,
    pub message: String,
}

/// The error that reading a plain directory as a junction gives.
pub const NOT_A_REPARSE_POINT: i32 = 4390;

/// What to look at or to do next.
#[derive(Debug, PartialEq, Eq)]
pub enum JunctionAction {
    /// Look whether there is an entry at the link, without following it.
    InspectEntry,
    /// Look whether the link leads to something.
    ResolveTarget,
    /// Look whether the link is a junction.
    InspectJunction,
    /// Read where the junction points.
    ReadTarget,
    /// Clear the junction.
    DeleteJunction,
    /// Remove the empty directory that a cleared junction leaves.
    RemoveLeftover,
    /// Look whether the link is a directory.
    InspectDirectory,
    /// Look whether the directory holds anything.
    InspectContents,
    /// List the directory.
    ListContents,
    /// Move the directory aside.
    MoveAside,
    /// Remove the empty directory.
    RemoveEmptyDirectory,
    /// Create the directory that the link is in.
    CreateParent,
    /// Create the junction.
    CreateJunction,
    /// The link points at the target.
    Done,
    /// The link cannot be made to point at the target.
    Fail(String),
}

/// The model of [`JunctionAction`].
pub enum JunctionActionView {
    InspectEntry,
    ResolveTarget,
    InspectJunction,
    ReadTarget,
    DeleteJunction,
    RemoveLeftover,
    InspectDirectory,
    InspectContents,
    ListContents,
    MoveAside,
    RemoveEmptyDirectory,
    CreateParent,
    CreateJunction,
    Done,
    Fail(Seq<char>),
}

impl JunctionAction {
    /// The model of the action.
    pub open spec fn view(&self) -> JunctionActionView {
        match self {
            JunctionAction::InspectEntry => JunctionActionView::InspectEntry,
            JunctionAction::ResolveTarget => JunctionActionView::ResolveTarget,
            JunctionAction::InspectJunction => JunctionActionView::InspectJunction,
            JunctionAction::ReadTarget => JunctionActionView::ReadTarget,
            JunctionAction::DeleteJunction => JunctionActionView::DeleteJunction,
            JunctionAction::RemoveLeftover => JunctionActionView::RemoveLeftover,
            JunctionAction::InspectDirectory => JunctionActionView::InspectDirectory,
            JunctionAction::InspectContents => JunctionActionView::InspectContents,
            JunctionAction::ListContents => JunctionActionView::ListContents,
            JunctionAction::MoveAside => JunctionActionView::MoveAside,
            JunctionAction::RemoveEmptyDirectory => JunctionActionView::RemoveEmptyDirectory,
            JunctionAction::CreateParent => JunctionActionView::CreateParent,
            JunctionAction::CreateJunction => JunctionActionView::CreateJunction,
            JunctionAction::Done => JunctionActionView::Done,
            JunctionAction::Fail(message) => JunctionActionView::Fail(message@),
        }
    }
}

/// What was found, or what came of an action.
#[derive(Debug, PartialEq, Eq)]
pub enum JunctionEvent {
    /// Whether there is an entry; if so, whether it is a link of some kind.
    Entry(Option<bool>),
    /// Whether the link leads to something.
    Resolves(bool),
    /// Whether the link is a junction.
    IsJunction(Result<bool, OsError>),
    /// Where the junction points.
    Target(Result<String, String>),
    /// Whether the link is a directory.
    IsDirectory(bool),
    /// Whether the directory holds anything.
    HasEntries(Result<bool, String>),
    /// What the directory holds.
    Entries(Result<Vec<DirEntry>, String>),
    /// What came of an action.
    Acted(Result<(), String>),
}

/// How far the change has come: what was last asked for.
#[derive(Debug, Clone, Copy, PartialEq, Eq, Structural)]
pub enum JunctionPhase {
    Entry,
    /// With whether the entry is a link of some kind.
    Resolves(bool),
    IsJunction,
    Target,
    Delete,
    Leftover,
    Directory,
    Contents,
    Listing,
    MoveAside,
    RemoveEmpty,
    Parent,
    Create,
    Over,
}

/// What a change stands for.
#[verifier::ext_equal]
pub struct JunctionView {
    /// The link, as it is shown.
    pub link: Seq<char>,
    /// The directory that the link is in, as it is shown; nothing where it has none.
    pub parent: Option<Seq<char>>,
    pub target: Seq<char>,
    /// What the targets of our junctions begin with.
    pub prefix: Seq<char>,
    pub allow_legacy_bin_migration: bool,
    pub phase: JunctionPhase,
}

/// `start`, the link and `end`.
pub open spec fn about(start: Seq<char>, link: Seq<char>, end: Seq<char>) -> Seq<char> {
    start + link + end
}

fn say(start: &str, link: &str, end: &str) -> (r: String)
    ensures
        r@ == about(start@, link@, end@),
{
    let mut out = copy_of(start);
    out.push_str(link);
    out.push_str(end);
    out
}

fn say_because(start: &str, link: &str, end: &str, err: &str) -> (r: String)
    ensures
        r@ == about(start@, link@, end@) + err@,
{
    let mut out = say(start, link, end);
    out.push_str(err);
    out
}

impl JunctionView {
    /// The change after it went on to ask for `action`.
    pub open spec fn to(self, phase: JunctionPhase, action: JunctionActionView) -> (
        Self,
        JunctionActionView,
    ) {
        (JunctionView { phase, ..self }, action)
    }

    /// The change after it has failed.
    pub open spec fn fail(self, message: Seq<char>) -> (Self, JunctionActionView) {
        self.to(JunctionPhase::Over, JunctionActionView::Fail(message))
    }

    /// The change after the way is free: the junction is created.
    pub open spec fn create(self) -> (Self, JunctionActionView) {
        if self.parent is Some {
            self.to(JunctionPhase::Parent, JunctionActionView::CreateParent)
        } else {
            self.to(JunctionPhase::Create, JunctionActionView::CreateJunction)
        }
    }

    /// The change after an event, and what to do then.
    pub open spec fn step(self, event: JunctionEvent) -> (Self, JunctionActionView) {
        match (self.phase, event) {
            (JunctionPhase::Entry, JunctionEvent::Entry(None)) => self.create(),
            (JunctionPhase::Entry, JunctionEvent::Entry(Some(is_link))) => self.to(
                JunctionPhase::Resolves(is_link),
                JunctionActionView::ResolveTarget,
            ),
            (JunctionPhase::Resolves(is_link), JunctionEvent::Resolves(resolves)) => if resolves {
                self.to(JunctionPhase::IsJunction, JunctionActionView::InspectJunction)
            } else if is_link {
                self.to(JunctionPhase::Delete, JunctionActionView::DeleteJunction)
            } else {
                self.to(JunctionPhase::Directory, JunctionActionView::InspectDirectory)
            },
            (JunctionPhase::IsJunction, JunctionEvent::IsJunction(Ok(is_junction))) =>
                if is_junction {
                self.to(JunctionPhase::Target, JunctionActionView::ReadTarget)
            } else {
                self.to(JunctionPhase::Directory, JunctionActionView::InspectDirectory)
            },
            (JunctionPhase::IsJunction, JunctionEvent::IsJunction(Err(err))) => if err.code
                == Some(NOT_A_REPARSE_POINT) {
                self.to(JunctionPhase::Directory, JunctionActionView::InspectDirectory)
            } else {
                self.fail(about("failed to inspect "@, self.link, ": "@) + err.message@)
            },
            (JunctionPhase::Target, JunctionEvent::Target(Err(err))) => self.fail(
                about("failed to read junction target at "@, self.link, ": "@) + err@,
            ),
            (JunctionPhase::Target, JunctionEvent::Target(Ok(existing))) => if !begins_with(
                existing@,
                self.prefix,
            ) {
                self.fail(
                    about(
                        "refusing to retarget junction at "@,
                        self.link,
                        " because it is not managed by this installer"@,
                    ),
                )
            } else if same_path(existing@, self.target) {
                self.to(JunctionPhase::Over, JunctionActionView::Done)
            } else {
                self.to(JunctionPhase::Delete, JunctionActionView::DeleteJunction)
            },
            (JunctionPhase::Delete, JunctionEvent::Acted(Ok(()))) => self.to(
                JunctionPhase::Leftover,
                JunctionActionView::RemoveLeftover,
            ),
            (JunctionPhase::Delete, JunctionEvent::Acted(Err(err))) => self.fail(
                about("failed to remove stale junction at "@, self.link, ": "@) + err@,
            ),
            (JunctionPhase::Leftover, JunctionEvent::Acted(Ok(()))) => self.create(),
            (JunctionPhase::Leftover, JunctionEvent::Acted(Err(err))) => self.fail(
                about(
                    "failed to remove leftover directory at "@,
                    self.link,
                    " after clearing its junction tag: "@,
                ) + err@,
            ),
            (JunctionPhase::Directory, JunctionEvent::IsDirectory(is_dir)) => if is_dir {
                self.to(JunctionPhase::Contents, JunctionActionView::InspectContents)
            } else {
                self.fail(about("refusing to replace file at "@, self.link, " with a junction"@))
            },
            (JunctionPhase::Contents, JunctionEvent::HasEntries(Err(err))) => self.fail(
                about("failed to read "@, self.link, ": "@) + err@,
            ),
            (JunctionPhase::Contents, JunctionEvent::HasEntries(Ok(has_entries))) =>
                if !has_entries {
                self.to(JunctionPhase::RemoveEmpty, JunctionActionView::RemoveEmptyDirectory)
            } else if self.allow_legacy_bin_migration {
                self.to(JunctionPhase::Listing, JunctionActionView::ListContents)
            } else {
                self.refuse_directory()
            },
            (JunctionPhase::Listing, JunctionEvent::Entries(Err(err))) => self.fail(
                about("failed to read "@, self.link, ": "@) + err@,
            ),
            (JunctionPhase::Listing, JunctionEvent::Entries(Ok(entries))) => if legacy_bin_dir(
                entries@,
            ) {
                self.to(JunctionPhase::MoveAside, JunctionActionView::MoveAside)
            } else {
                self.refuse_directory()
            },
            (JunctionPhase::MoveAside, JunctionEvent::Acted(Ok(()))) => self.create(),
            (JunctionPhase::MoveAside, JunctionEvent::Acted(Err(err))) => self.fail(
                "failed to move legacy bin directory aside: "@ + err@,
            ),
            (JunctionPhase::RemoveEmpty, JunctionEvent::Acted(Ok(()))) => self.create(),
            (JunctionPhase::RemoveEmpty, JunctionEvent::Acted(Err(err))) => self.fail(
                about("failed to remove empty directory at "@, self.link, ": "@) + err@,
            ),
            (JunctionPhase::Parent, JunctionEvent::Acted(Ok(()))) => self.to(
                JunctionPhase::Create,
                JunctionActionView::CreateJunction,
            ),
            (JunctionPhase::Parent, JunctionEvent::Acted(Err(err))) => self.fail(
                about("failed to create "@, self.parent_text(), ": "@) + err@,
            ),
            (JunctionPhase::Create, JunctionEvent::Acted(Ok(()))) => self.to(
                JunctionPhase::Over,
                JunctionActionView::Done,
            ),
            (JunctionPhase::Create, JunctionEvent::Acted(Err(err))) => self.fail(
                about("failed to create junction at "@, self.link, ": "@) + err@,
            ),
            _ => self.fail(about("unexpected answer about "@, self.link, Seq::empty())),
        }
    }

    /// The directory that the link is in, as it is shown.
    pub open spec fn parent_text(self) -> Seq<char> {
        match self.parent {
            Some(parent) => parent,
            None => Seq::empty(),
        }
    }

    /// The change after a directory was found that holds something of someone else's.
    pub open spec fn refuse_directory(self) -> (Self, JunctionActionView) {
        self.fail(
            about("refusing to replace non-empty directory at "@, self.link, " with a junction"@),
        )
    }

    /// A change that begins.
    pub open spec fn begun(
        link: Seq<char>,
        parent: Option<Seq<char>>,
        target: Seq<char>,
        prefix: Seq<char>,
        allow_legacy_bin_migration: bool,
    ) -> Self {
        JunctionView {
            link,
            parent,
            target,
            prefix,
            allow_legacy_bin_migration,
            phase: JunctionPhase::Entry,
        }
    }
}

/// A change of one junction in progress.
pub struct JunctionChange {
    link: String,
    parent: Option<String>,
    target: String,
    prefix: String,
    allow_legacy_bin_migration: bool,
    phase: JunctionPhase,
}

/// Begins to point the junction `link` at `target`. A junction is ours where the text of
/// its target begins with `managed_target_prefix`, up to case and trailing separators: a
/// sibling whose name goes on from the prefix counts too. Any other junction that leads
/// somewhere is left alone. The first thing to do is to look whether there is an entry at
/// the link.
pub fn set_managed_junction(
    link: String,
    parent: Option<String>,
    target: String,
    managed_target_prefix: String,
    allow_legacy_bin_migration: bool,
) -> (r: (JunctionChange, JunctionAction))
    ensures
        r.0@ == JunctionView::begun(
            link@,
            opt_text(parent),
            target@,
            managed_target_prefix@,
            allow_legacy_bin_migration,
        ),
        r.1@ == JunctionActionView::InspectEntry,
{
    (
        JunctionChange {
            link,
            parent,
            target,
            prefix: managed_target_prefix,
            allow_legacy_bin_migration,
            phase: JunctionPhase::Entry,
        },
        JunctionAction::InspectEntry,
    )
}

impl JunctionChange {
    /// The model of the change.
    pub closed spec fn view(&self) -> JunctionView {
        JunctionView {
            link: self.link@,
            parent: opt_text(self.parent),
            target: self.target@,
            prefix: self.prefix@,
            allow_legacy_bin_migration: self.allow_legacy_bin_migration,
            phase: self.phase,
        }
    }

    fn to(&mut self, phase: JunctionPhase, action: JunctionAction) -> (r: JunctionAction)
        ensures
            (final(self)@, r@) == old(self)@.to(phase, action@),
    {
        self.phase = phase;
        action
    }

    fn fail(&mut self, message: String) -> (r: JunctionAction)
        ensures
            (final(self)@, r@) == old(self)@.fail(message@),
    {
        self.phase = JunctionPhase::Over;
        JunctionAction::Fail(message)
    }

    fn create(&mut self) -> (r: JunctionAction)
        ensures
            (final(self)@, r@) == old(self)@.create(),
    {
        if self.parent.is_some() {
            self.to(JunctionPhase::Parent, JunctionAction::CreateParent)
        } else {
            self.to(JunctionPhase::Create, JunctionAction::CreateJunction)
        }
    }

    fn refuse_directory(&mut self) -> (r: JunctionAction)
        ensures
            (final(self)@, r@) == old(self)@.refuse_directory(),
    {
        let message = say(
            "refusing to replace non-empty directory at ",
            self.link.as_str(),
            " with a junction",
        );
        self.fail(message)
    }

    fn fail_because(&mut self, start: &str, end: &str, err: &str) -> (r: JunctionAction)
        ensures
            (final(self)@, r@) == old(self)@.fail(about(start@, old(self)@.link, end@) + err@),
    {
        let message = say_because(start, self.link.as_str(), end, err);
        self.fail(message)
    }

    fn acted(&mut self, outcome: Result<(), String>) -> (r: JunctionAction)
        ensures
            (final(self)@, r@) == old(self)@.step(JunctionEvent::Acted(outcome)),
    {
        match (self.phase, outcome) {
            (JunctionPhase::Delete, Ok(())) => self.to(
                JunctionPhase::Leftover,
                JunctionAction::RemoveLeftover,
            ),
            (JunctionPhase::Delete, Err(err)) => self.fail_because(
                "failed to remove stale junction at ",
                ": ",
                err.as_str(),
            ),
            (JunctionPhase::Leftover, Ok(())) => self.create(),
            (JunctionPhase::Leftover, Err(err)) => self.fail_because(
                "failed to remove leftover directory at ",
                " after clearing its junction tag: ",
                err.as_str(),
            ),
            (JunctionPhase::MoveAside, Ok(())) => self.create(),
            (JunctionPhase::MoveAside, Err(err)) => {
                let mut message = copy_of("failed to move legacy bin directory aside: ");
                message.push_str(err.as_str());
                self.fail(message)
            },
            (JunctionPhase::RemoveEmpty, Ok(())) => self.create(),
            (JunctionPhase::RemoveEmpty, Err(err)) => self.fail_because(
                "failed to remove empty directory at ",
                ": ",
                err.as_str(),
            ),
            (JunctionPhase::Parent, Ok(())) => self.to(
                JunctionPhase::Create,
                JunctionAction::CreateJunction,
            ),
            (JunctionPhase::Parent, Err(err)) => {
                let parent = match &self.parent {
                    Some(parent) => parent.clone(),
                    None => String::new(),
                };
                let message = say_because(
                    "failed to create ",
                    parent.as_str(),
                    ": ",
                    err.as_str(),
                );
                self.fail(message)
            },
            (JunctionPhase::Create, Ok(())) => self.to(JunctionPhase::Over, JunctionAction::Done),
            (JunctionPhase::Create, Err(err)) => self.fail_because(
                "failed to create junction at ",
                ": ",
                err.as_str(),
            ),
            _ => self.unexpected(),
        }
    }

    fn unexpected(&mut self) -> (r: JunctionAction)
        ensures
            (final(self)@, r@) == old(self)@.fail(
                about("unexpected answer about "@, old(self)@.link, Seq::empty()),
            ),
    {
        let mut message = copy_of("unexpected answer about ");
        message.push_str(self.link.as_str());
        assert(message@ =~= about("unexpected answer about "@, self.link@, Seq::empty()));
        self.fail(message)
    }

    /// What to do after an event.
    pub fn step(&mut self, event: JunctionEvent) -> (r: JunctionAction)
        ensures
            (final(self)@, r@) == old(self)@.step(event),
    {
        match (self.phase, event) {
            (_, JunctionEvent::Acted(outcome)) => self.acted(outcome),
            (JunctionPhase::Entry, JunctionEvent::Entry(None)) => self.create(),
            (JunctionPhase::Entry, JunctionEvent::Entry(Some(is_link))) => self.to(
                JunctionPhase::Resolves(is_link),
                JunctionAction::ResolveTarget,
            ),
            (JunctionPhase::Resolves(is_link), JunctionEvent::Resolves(resolves)) => {
                if resolves {
                    self.to(JunctionPhase::IsJunction, JunctionAction::InspectJunction)
                } else if is_link {
                    self.to(JunctionPhase::Delete, JunctionAction::DeleteJunction)
                } else {
                    self.to(JunctionPhase::Directory, JunctionAction::InspectDirectory)
                }
            },
            (JunctionPhase::IsJunction, JunctionEvent::IsJunction(answer)) => {
                match answer {
                    Ok(true) => self.to(JunctionPhase::Target, JunctionAction::ReadTarget),
                    Ok(false) => self.to(
                        JunctionPhase::Directory,
                        JunctionAction::InspectDirectory,
                    ),
                    Err(err) => {
                        let plain = match err.code {
                            Some(code) => code == NOT_A_REPARSE_POINT,
                            None => false,
                        };
                        if plain {
                            self.to(JunctionPhase::Directory, JunctionAction::InspectDirectory)
                        } else {
                            self.fail_because("failed to inspect ", ": ", err.message.as_str())
                        }
                    },
                }
            },
            (JunctionPhase::Target, JunctionEvent::Target(answer)) => {
                match answer {
                    Err(err) => self.fail_because(
                        "failed to read junction target at ",
                        ": ",
                        err.as_str(),
                    ),
                    Ok(existing) => {
                        if !path_starts_with_ignore_case(existing.as_str(), self.prefix.as_str()) {
                            let message = say(
                                "refusing to retarget junction at ",
                                self.link.as_str(),
                                " because it is not managed by this installer",
                            );
                            self.fail(message)
                        } else if paths_equal_ignore_case(
                            existing.as_str(),
                            self.target.as_str(),
                        ) {
                            self.to(JunctionPhase::Over, JunctionAction::Done)
                        } else {
                            self.to(JunctionPhase::Delete, JunctionAction::DeleteJunction)
                        }
                    },
                }
            },
            (JunctionPhase::Directory, JunctionEvent::IsDirectory(is_dir)) => {
                if is_dir {
                    self.to(JunctionPhase::Contents, JunctionAction::InspectContents)
                } else {
                    let message = say(
                        "refusing to replace file at ",
                        self.link.as_str(),
                        " with a junction",
                    );
                    self.fail(message)
                }
            },
            (JunctionPhase::Contents, JunctionEvent::HasEntries(answer)) => {
                match answer {
                    Err(err) => self.fail_because("failed to read ", ": ", err.as_str()),
                    Ok(false) => self.to(
                        JunctionPhase::RemoveEmpty,
                        JunctionAction::RemoveEmptyDirectory,
                    ),
                    Ok(true) => {
                        if self.allow_legacy_bin_migration {
                            self.to(JunctionPhase::Listing, JunctionAction::ListContents)
                        } else {
                            self.refuse_directory()
                        }
                    },
                }
            },
            (JunctionPhase::Listing, JunctionEvent::Entries(answer)) => {
                match answer {
                    Err(err) => self.fail_because("failed to read ", ": ", err.as_str()),
                    Ok(entries) => {
                        if is_legacy_bin_dir(&entries) {
                            self.to(JunctionPhase::MoveAside, JunctionAction::MoveAside)
                        } else {
                            self.refuse_directory()
                        }
                    },
                }
            },
            _ => self.unexpected(),
        }
    }
}

// ---------------------------------------------------------------------------
// Laws
// ---------------------------------------------------------------------------

/// What is at a link.
pub enum LinkState {
    Nothing,
    /// A junction to a path, with whether that leads to something.
    Junction(String, bool),
    /// What clearing a junction leaves.
    Leftover,
    Directory(Vec<DirEntry>),
    File,
    /// The junction that was asked for.
    PointsAt(Seq<char>),
}

/// What is found, or what comes of an action, where every action succeeds; and what is
/// at the link then. `plain` is what looking at something that is no junction gives.
pub open spec fn respond(
    change: JunctionView,
    action: JunctionActionView,
    link: LinkState,
    plain: Result<bool, OsError>,
) -> (JunctionEvent, LinkState) {
    match action {
        JunctionActionView::InspectEntry => (
            JunctionEvent::Entry(
                match link {
                    LinkState::Nothing => None,
                    LinkState::Junction(_, _) => Some(true),
                    _ => Some(false),
                },
            ),
            link,
        ),
        JunctionActionView::ResolveTarget => (
            JunctionEvent::Resolves(
                match link {
                    LinkState::Junction(_, resolves) => resolves,
                    _ => true,
                },
            ),
            link,
        ),
        JunctionActionView::InspectJunction => (
            JunctionEvent::IsJunction(
                if link is Junction {
                    Ok(true)
                } else {
                    plain
                },
            ),
            link,
        ),
        JunctionActionView::ReadTarget => (JunctionEvent::Target(Ok(link->Junction_0)), link),
        JunctionActionView::InspectDirectory => (
            JunctionEvent::IsDirectory(link is Directory),
            link,
        ),
        JunctionActionView::InspectContents => (
            JunctionEvent::HasEntries(Ok(link->Directory_0@.len() > 0)),
            link,
        ),
        JunctionActionView::ListContents => (
            JunctionEvent::Entries(Ok(link->Directory_0)),
            link,
        ),
        JunctionActionView::DeleteJunction => (
            JunctionEvent::Acted(Ok(())),
            LinkState::Leftover,
        ),
        JunctionActionView::RemoveLeftover => (JunctionEvent::Acted(Ok(())), LinkState::Nothing),
        JunctionActionView::RemoveEmptyDirectory => (
            JunctionEvent::Acted(Ok(())),
            LinkState::Nothing,
        ),
        JunctionActionView::MoveAside => (JunctionEvent::Acted(Ok(())), LinkState::Nothing),
        JunctionActionView::CreateJunction => (
            JunctionEvent::Acted(Ok(())),
            LinkState::PointsAt(change.target),
        ),
        _ => (JunctionEvent::Acted(Ok(())), link),
    }
}

/// What is at the link when the change is over, and how it ended; the change takes at
/// most `steps` steps.
pub open spec fn run(
    change: JunctionView,
    action: JunctionActionView,
    link: LinkState,
    plain: Result<bool, OsError>,
    steps: nat,
) -> (LinkState, JunctionActionView)
    decreases steps,
{
    if steps == 0 || action is Done || action is Fail {
        (link, action)
    } else {
        let (event, after) = respond(change, action, link, plain);
        let (next, then) = change.step(event);
        run(next, then, after, plain, (steps - 1) as nat)
    }
}

/// What looking at something that is no junction gives: that it is none, or the error
/// that says so.
pub open spec fn says_plain(plain: Result<bool, OsError>) -> bool {
    match plain {
        Ok(is_junction) => !is_junction,
        Err(err) => err.code == Some(NOT_A_REPARSE_POINT),
    }
}

/// What is at the link may be replaced: nothing, a junction of ours that points elsewhere
/// or nowhere, an empty directory, or, where that is allowed, a directory that was
/// installed before there were junctions.
pub open spec fn replaceable(change: JunctionView, link: LinkState) -> bool {
    match link {
        LinkState::Nothing => true,
        LinkState::Junction(existing, resolves) => !resolves || (begins_with(
            existing@,
            change.prefix,
        ) && !same_path(existing@, change.target)),
        LinkState::Directory(entries) => entries@.len() == 0 || (change.allow_legacy_bin_migration
            && legacy_bin_dir(entries@)),
        _ => false,
    }
}

/// The link is a junction of ours that points at the target.
pub open spec fn correct(change: JunctionView, link: LinkState) -> bool {
    link matches LinkState::Junction(existing, resolves) && resolves && begins_with(
        existing@,
        change.prefix,
    ) && same_path(existing@, change.target)
}

/// Where what is at the link may be replaced, the link points at the target in the end.
pub proof fn law_replaceable_link_ends_at_the_target(
    change: JunctionView,
    link: LinkState,
    plain: Result<bool, OsError>,
)
    requires
        change.phase == JunctionPhase::Entry,
        says_plain(plain),
        replaceable(change, link),
    ensures
        run(change, JunctionActionView::InspectEntry, link, plain, 10) == (
            LinkState::PointsAt(change.target),
            JunctionActionView::Done,
        ),
{
    reveal_with_fuel(run, 11);
}

/// A link that is right already is left as it is, and so the change can be repeated.
pub proof fn law_correct_link_is_left_as_it_is(
    change: JunctionView,
    link: LinkState,
    plain: Result<bool, OsError>,
)
    requires
        change.phase == JunctionPhase::Entry,
        correct(change, link),
    ensures
        run(change, JunctionActionView::InspectEntry, link, plain, 10) == (
            link,
            JunctionActionView::Done,
        ),
{
    reveal_with_fuel(run, 11);
}

/// What belongs to someone else is left alone: a junction that points elsewhere, a
/// directory that holds anything, a file. The change fails and has touched nothing.
pub proof fn law_foreign_link_is_left_alone(
    change: JunctionView,
    link: LinkState,
    plain: Result<bool, OsError>,
)
    requires
        change.phase == JunctionPhase::Entry,
        says_plain(plain),
        link is Junction || link is Directory || link is File,
        !replaceable(change, link),
        !correct(change, link),
    ensures
        ({
            let (after, ending) = run(change, JunctionActionView::InspectEntry, link, plain, 10);
            after == link && ending is Fail
        }),
{
    reveal_with_fuel(run, 11);
}

/// Nothing is taken away before it is known to be ours, whatever is found on the way and
/// whatever fails: a junction is cleared only when it leads nowhere or its target is
/// managed, a directory is removed only when it was found empty, and moved aside only
/// when that is allowed and it holds an old installation.
pub proof fn law_nothing_is_removed_unseen(change: JunctionView, event: JunctionEvent)
    ensures
        change.step(event).1 is DeleteJunction ==> {
            ||| change.phase == JunctionPhase::Resolves(true) && event == JunctionEvent::Resolves(
                false,
            )
            ||| change.phase == JunctionPhase::Target && (event matches JunctionEvent::Target(
                Ok(existing),
            ) && begins_with(existing@, change.prefix))
        },
        change.step(event).1 is RemoveLeftover ==> change.phase == JunctionPhase::Delete,
        change.step(event).1 is RemoveEmptyDirectory ==> change.phase == JunctionPhase::Contents
            && event == JunctionEvent::HasEntries(Ok(false)),
        change.step(event).1 is MoveAside ==> change.phase == JunctionPhase::Listing && (
        event matches JunctionEvent::Entries(Ok(entries)) && legacy_bin_dir(entries@)),
        change.step(event).1 is ListContents ==> change.allow_legacy_bin_migration,
{
}

/// A trailing separator, of either kind, makes no difference between paths; and paths that
/// end in none are the same if and only if they are equal up to the case of letters.
pub proof fn law_same_path_ignores_case_and_separators(a: Seq<char>, b: Seq<char>)
    ensures
        same_path(a.push('\\'), a),
        same_path(a.push('/'), a),
        (a.len() == 0 || (a.last() != '\\' && a.last() != '/')) && (b.len() == 0 || (b.last()
            != '\\' && b.last() != '/')) ==> (same_path(a, b) <==> eq_ignore_case(a, b)),
{
    assert(a.push('\\').drop_last() =~= a);
    assert(a.push('/').drop_last() =~= a);
}

/// A path begins with another one if and only if it holds that one's characters, up to
/// case, in front; trailing separators of either make no difference.
pub proof fn law_path_begins_with_its_prefix(path: Seq<char>, prefix: Seq<char>)
    ensures
        begins_with(path.push('\\'), prefix) == begins_with(path, prefix),
        begins_with(path.push('/'), prefix) == begins_with(path, prefix),
        begins_with(path, prefix.push('\\')) == begins_with(path, prefix),
        begins_with(path, prefix.push('/')) == begins_with(path, prefix),
        (path.len() == 0 || (path.last() != '\\' && path.last() != '/')) && (prefix.len() == 0 || (
        prefix.last() != '\\' && prefix.last() != '/')) ==> (begins_with(path, prefix)
            <==> prefix.len() <= path.len() && eq_ignore_case(
            path.take(prefix.len() as int),
            prefix,
        )),
{
    law_same_path_ignores_case_and_separators(path, prefix);
    law_same_path_ignores_case_and_separators(prefix, path);
    if (path.len() == 0 || (path.last() != '\\' && path.last() != '/')) && (prefix.len() == 0 || (
    prefix.last() != '\\' && prefix.last() != '/')) {
        assert(comparable(path) == ascii_lower(path));
        assert(comparable(prefix) == ascii_lower(prefix));
        if prefix.len() <= path.len() {
            assert(ascii_lower(path.take(prefix.len() as int)) =~= ascii_lower(path).take(
                prefix.len() as int,
            ));
        }
    }
}

/// A directory counts as installed before there were junctions only if it holds the
/// command, in any case, and no directory.
pub proof fn law_old_installation_holds_the_command(entries: Seq<DirEntry>)
    ensures
        legacy_bin_dir(entries) ==> exists|i: int|
            0 <= i < entries.len() && eq_ignore_case(
                (#[trigger] entries[i]).name@,
                seq!['t', 'a', 'n', 'u', 'k', 'i', '.', 'e', 'x', 'e'],
            ),
        forall|i: int|
            0 <= i < entries.len() && (#[trigger] entries[i]).is_dir ==> !legacy_bin_dir(entries),
        (forall|i: int| 0 <= i < entries.len() ==> !(#[trigger] entries[i]).is_dir) && (exists|
            i: int,
        |
            0 <= i < entries.len() && eq_ignore_case(
                (#[trigger] entries[i]).name@,
                seq!['t', 'a', 'n', 'u', 'k', 'i', '.', 'e', 'x', 'e'],
            )) ==> legacy_bin_dir(entries),
{
    reveal_strlit("tanuki.exe");
    assert("tanuki.exe"@ =~= seq!['t', 'a', 'n', 'u', 'k', 'i', '.', 'e', 'x', 'e']);
}

/// A change stays a change of the same link to the same target.
pub proof fn law_change_keeps_its_aim(change: JunctionView, event: JunctionEvent)
    ensures
        ({
            let after = change.step(event).0;
            &&& after.link == change.link
            &&& after.parent == change.parent
            &&& after.target == change.target
            &&& after.prefix == change.prefix
            &&& after.allow_legacy_bin_migration == change.allow_legacy_bin_migration
        }),
{
}

/// What cannot be looked at or done ends the change. The one exception is something that
/// is not a junction, told by the code that says so: it is looked at as a directory.
pub proof fn law_trouble_ends_the_change(change: JunctionView, err: String, code: OsError)
    ensures
        change.step(JunctionEvent::Acted(Err(err))).1 is Fail,
        change.step(JunctionEvent::Target(Err(err))).1 is Fail,
        change.step(JunctionEvent::HasEntries(Err(err))).1 is Fail,
        change.step(JunctionEvent::Entries(Err(err))).1 is Fail,
        !(change.phase == JunctionPhase::IsJunction && code.code == Some(4390i32)) ==> change.step(
            JunctionEvent::IsJunction(Err(code)),
        ).1 is Fail,
        change.phase == JunctionPhase::IsJunction && code.code == Some(4390i32) ==> change.step(
            JunctionEvent::IsJunction(Err(code)),
        ).1 is InspectDirectory,
{
}

/// A junction is created only in a directory that is there: where the link has a parent,
/// the parent is created first. And the change is done only when the junction was created,
/// or was found to be right.
pub proof fn law_junction_is_created_in_its_directory(change: JunctionView, event: JunctionEvent)
    ensures
        change.step(event).1 is CreateJunction ==> {
            ||| change.parent is None
            ||| change.phase == JunctionPhase::Parent && (event matches JunctionEvent::Acted(
                Ok(_),
            ))
        },
        change.step(event).1 is CreateParent ==> change.parent is Some,
        change.step(event).1 is Done ==> {
            ||| change.phase == JunctionPhase::Create && (event matches JunctionEvent::Acted(Ok(_)))
            ||| change.phase == JunctionPhase::Target && (event matches JunctionEvent::Target(
                Ok(existing),
            ) && begins_with(existing@, change.prefix) && same_path(existing@, change.target))
        },
        change.step(event).1 is CreateParent || change.step(event).1 is CreateJunction ==> {
            ||| change.phase == JunctionPhase::Entry && event == JunctionEvent::Entry(None)
            ||| event matches JunctionEvent::Acted(Ok(_))
        },
{
}

/// A directory that is moved aside gets a name that no other process and no other moment
/// gives.
pub proof fn law_moved_directories_do_not_collide(
    pid_a: u32,
    nanos_a: u128,
    pid_b: u32,
    nanos_b: u128,
)
    requires
        suffix_text(pid_a, nanos_a) == suffix_text(pid_b, nanos_b),
    ensures
        pid_a == pid_b,
        nanos_a == nanos_b,
{
    lemma_hex_holds_no_dash(pid_a as nat);
    lemma_hex_holds_no_dash(pid_b as nat);
    lemma_first_field(
        hex(pid_a as nat),
        hex(nanos_a as nat),
        hex(pid_b as nat),
        hex(nanos_b as nat),
        '-',
    );
    lemma_radix_injective(pid_a as nat, pid_b as nat, 16);
    lemma_radix_injective(nanos_a as nat, nanos_b as nat, 16);
}

proof fn lemma_hex_holds_no_dash(n: nat)
    ensures
        !hex(n).contains('-'),
{
    lemma_radix_digits(n, 16);
    if hex(n).contains('-') {
        let i = choose|i: int| 0 <= i < hex(n).len() && hex(n)[i] == '-';
        assert(hex(n)[i] == '-');
    }
}

/// What went wrong is passed on: a failure of an action ends with the reason that was
/// given for it.
pub proof fn law_failed_change_gives_the_reason(change: JunctionView, err: String)
    requires
        change.phase == JunctionPhase::Delete || change.phase == JunctionPhase::Leftover
            || change.phase == JunctionPhase::MoveAside || change.phase
            == JunctionPhase::RemoveEmpty || change.phase == JunctionPhase::Parent || change.phase
            == JunctionPhase::Create,
    ensures
        change.step(JunctionEvent::Acted(Err(err))).1 matches JunctionActionView::Fail(message)
            && err@.is_suffix_of(message),
{
    if let JunctionActionView::Fail(message) = change.step(JunctionEvent::Acted(Err(err))).1 {
        assert(message.skip(message.len() - err@.len()) =~= err@);
    }
}

} // verus!
