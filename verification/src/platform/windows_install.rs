//! Installing an update on Windows: where everything goes, and in which order it is done.
//!
//! Releases lie side by side under `packages\standalone\releases`. The junction `current`
//! and the directory on the user's `Path` point at one of them.

use vstd::prelude::*;
use crate::platform::retention::staging_name;
use crate::text::ascii_alphanumeric;
use crate::text::chars_of;
use crate::text::concat;
use crate::text::copy_of;
use crate::text::decimal;
use crate::text::decimal_string;
use crate::text::is_ascii_alphanumeric;
use crate::text::opt_str;
use crate::text::opt_text;
use crate::text::string_of;
use crate::text::texts;

verus! {

/// How long to wait before the lock is tried again, in milliseconds.
pub const LOCK_RETRY_INTERVAL: u64 = 250;

/// How long the lock is waited for, in milliseconds.
pub const LOCK_MAX_WAIT: u64 = 60000;

// ---------------------------------------------------------------------------
// Where everything goes
// ---------------------------------------------------------------------------

/// What the environment says about where to install.
pub struct InstallEnv {
    pub tanuki_home: Option<String>,
    pub user_profile: Option<String>,
    pub tanuki_install_dir: Option<String>,
    pub local_app_data: Option<String>,
}

/// Where everything goes. Each path is a list: a directory, and what is joined to it.
#[derive(Debug, PartialEq, Eq)]
pub struct TanukiInstallPaths {
    pub standalone_root: Vec<String>,
    pub releases_dir: Vec<String>,
    pub current_dir: Vec<String>,
    pub lock_path: Vec<String>,
    pub visible_bin_dir: Vec<String>,
    pub allow_legacy_bin_migration: bool,
}

/// A variable that is set, and not to nothing.
pub open spec fn given(value: Option<String>) -> Option<Seq<char>> {
    match value {
        Some(text) => if text@.len() > 0 {
            Some(text@)
        } else {
            None
        },
        None => None,
    }
}

fn given_text(value: &Option<String>) -> (r: Option<String>)
    ensures
        opt_text(r) == given(*value),
{
    match value {
        Some(text) => {
            if chars_of(text.as_str()).len() > 0 {
                Some(text.clone())
            } else {
                None
            }
        },
        None => None,
    }
}

/// The directory that everything but the command lies in; nothing where the environment
/// does not tell.
pub open spec fn home_parts(env: InstallEnv) -> Option<Seq<Seq<char>>> {
    match given(env.tanuki_home) {
        Some(home) => Some(seq![home]),
        None => match env.user_profile {
            Some(profile) => Some(seq![profile@, ".tanuki"@]),
            None => None,
        },
    }
}

/// The directory that the command lies in; nothing where the environment does not tell.
pub open spec fn bin_parts(env: InstallEnv) -> Option<Seq<Seq<char>>> {
    match given(env.tanuki_install_dir) {
        Some(dir) => Some(seq![dir]),
        None => match env.local_app_data {
            Some(data) => Some(seq![data@, "Programs"@, "Tanuki"@, "bin"@]),
            None => None,
        },
    }
}

fn with_part(parts: &Vec<String>, part: &str) -> (r: Vec<String>)
    ensures
        texts(r@) == texts(parts@).push(part@),
{
    let mut out: Vec<String> = Vec::new();
    let mut i: usize = 0;
    while i < parts.len()
        invariant
            i <= parts@.len(),
            out@.len() == i,
            forall|j: int| 0 <= j < i ==> #[trigger] out@[j]@ == parts@[j]@,
        decreases parts@.len() - i,
    {
        out.push(parts[i].clone());
        i += 1;
    }
    out.push(copy_of(part));
    assert(texts(out@) =~= texts(parts@).push(part@));
    out
}

impl TanukiInstallPaths {
    /// Where everything goes, given what the environment says.
    pub fn resolve(env: &InstallEnv) -> (r: Result<Self, String>)
        ensures
            match r {
                Ok(paths) => home_parts(*env) matches Some(home) && bin_parts(*env) matches Some(
                    bin,
                ) && {
                    let root = home.push("packages"@).push("standalone"@);
                    &&& texts(paths.standalone_root@) == root
                    &&& texts(paths.releases_dir@) == root.push("releases"@)
                    &&& texts(paths.current_dir@) == root.push("current"@)
                    &&& texts(paths.lock_path@) == root.push("install.lock"@)
                    &&& texts(paths.visible_bin_dir@) == bin
                    &&& paths.allow_legacy_bin_migration == (given(env.tanuki_install_dir) is None)
                },
                Err(message) => {
                    ||| home_parts(*env) is None && message@
                        == "USERPROFILE is not set; cannot locate Tanuki install"@
                    ||| home_parts(*env) is Some && bin_parts(*env) is None && message@
                        == "LOCALAPPDATA is not set; cannot locate Tanuki install"@
                },
            },
    {
        let mut home: Vec<String> = Vec::new();
        match given_text(&env.tanuki_home) {
            Some(dir) => {
                home.push(dir);
            },
            None => match &env.user_profile {
                Some(profile) => {
                    home.push(profile.clone());
                    home.push(copy_of(".tanuki"));
                },
                None => {
                    return Err(copy_of("USERPROFILE is not set; cannot locate Tanuki install"));
                },
            },
        }
        assert(texts(home@) =~= home_parts(*env)->0);
        let packages = with_part(&home, "packages");
        let standalone_root = with_part(&packages, "standalone");
        let releases_dir = with_part(&standalone_root, "releases");
        let current_dir = with_part(&standalone_root, "current");
        let lock_path = with_part(&standalone_root, "install.lock");

        let mut visible_bin_dir: Vec<String> = Vec::new();
        let mut allow_legacy_bin_migration: bool = false;
        match given_text(&env.tanuki_install_dir) {
            Some(dir) => {
                visible_bin_dir.push(dir);
            },
            None => match &env.local_app_data {
                Some(data) => {
                    visible_bin_dir.push(data.clone());
                    visible_bin_dir.push(copy_of("Programs"));
                    visible_bin_dir.push(copy_of("Tanuki"));
                    visible_bin_dir.push(copy_of("bin"));
                    allow_legacy_bin_migration = true;
                },
                None => {
                    return Err(copy_of("LOCALAPPDATA is not set; cannot locate Tanuki install"));
                },
            },
        }
        assert(texts(visible_bin_dir@) =~= bin_parts(*env)->0);
        Ok(
            TanukiInstallPaths {
                standalone_root,
                releases_dir,
                current_dir,
                lock_path,
                visible_bin_dir,
                allow_legacy_bin_migration,
            },
        )
    }

    /// The command that users run.
    pub fn installed_tanuki_exe_path(&self) -> (r: Vec<String>)
        ensures
            texts(r@) == texts(self.visible_bin_dir@).push("tanuki.exe"@),
    {
        with_part(&self.visible_bin_dir, "tanuki.exe")
    }
}

/// A character that stays in the name of a release.
pub open spec fn version_char(c: char) -> bool {
    ascii_alphanumeric(c) || c == '.' || c == '_' || c == '-'
}

/// A version as it stands in the name of a release: other characters become dashes.
pub open spec fn sanitized_version(identity: Seq<char>) -> Seq<char> {
    identity.map_values(
        |c: char|
            if version_char(c) {
                c
            } else {
                '-'
            },
    )
}

/// A version as it stands in the name of a release.
pub fn sanitize_version_identity(identity: &str) -> (r: String)
    ensures
        r@ == sanitized_version(identity@),
{
    let chars = chars_of(identity);
    let mut out: Vec<char> = Vec::new();
    let mut i: usize = 0;
    while i < chars.len()
        invariant
            i <= chars@.len(),
            out@.len() == i,
            forall|j: int|
                0 <= j < i ==> out@[j] == if version_char(chars@[j]) {
                    chars@[j]
                } else {
                    '-'
                },
        decreases chars@.len() - i,
    {
        let c = chars[i];
        if is_ascii_alphanumeric(c) || c == '.' || c == '_' || c == '-' {
            out.push(c);
        } else {
            out.push('-');
        }
        i += 1;
    }
    assert(out@ =~= sanitized_version(identity@));
    string_of(&out)
}

/// The name of the directory of a release: its version and the platform.
pub fn release_dir_name(version_identity: &str) -> (r: String)
    ensures
        r@ == sanitized_version(version_identity@) + "-"@ + "x86_64-pc-windows-msvc"@,
{
    let mut out = sanitize_version_identity(version_identity);
    out.push_str("-");
    out.push_str("x86_64-pc-windows-msvc");
    out
}

/// The name of a release is one path component: its version brings no separator, no
/// drive and no wildcard into it. A version in these characters is kept as it is.
pub proof fn law_version_is_one_component(identity: Seq<char>)
    ensures
        sanitized_version(identity).len() == identity.len(),
        forall|i: int|
            0 <= i < identity.len() ==> version_char(#[trigger] sanitized_version(identity)[i]),
        (forall|i: int| 0 <= i < identity.len() ==> version_char(#[trigger] identity[i]))
            ==> sanitized_version(identity) == identity,
        sanitized_version(sanitized_version(identity)) == sanitized_version(identity),
{
    let once = sanitized_version(identity);
    assert(sanitized_version(once) =~= once);
    if forall|i: int| 0 <= i < identity.len() ==> version_char(#[trigger] identity[i]) {
        assert(once =~= identity);
    }
}

// ---------------------------------------------------------------------------
// The lock
// ---------------------------------------------------------------------------

/// The error says that another process holds the file.
pub open spec fn sharing_violation(code: Option<i32>) -> bool {
    code == Some(32i32) || code == Some(5i32)
}

/// Whether an error with this code says that another process holds the file.
pub fn is_sharing_violation(code: Option<i32>) -> (r: bool)
    ensures
        r == sharing_violation(code),
{
    match code {
        Some(code) => code == 32 || code == 5,
        None => false,
    }
}

/// What is said when the directory `dir` cannot be created.
pub fn create_failure(dir: &str, err: &str) -> (r: String)
    ensures
        r@ == "failed to create "@ + dir@ + ": "@ + err@,
{
    let mut message = copy_of("failed to create ");
    message.push_str(dir);
    message.push_str(": ");
    message.push_str(err);
    message
}

/// What to do when the lock could not be taken.
#[derive(Debug, PartialEq, Eq)]
pub enum LockStep {
    /// Wait for [`LOCK_RETRY_INTERVAL`], which makes so much waited in all, and try again.
    Retry(u64),
    /// Give up.
    Fail(String),
}

/// The lock is tried again after an error with this code.
pub open spec fn lock_retried(code: Option<i32>, waited: u64) -> bool {
    sharing_violation(code) && waited < LOCK_MAX_WAIT
}

/// What to do when the lock at `lock_path` could not be taken after so much waiting, in
/// milliseconds.
pub fn with_install_lock(lock_path: &str, code: Option<i32>, err: &str, waited: u64) -> (r:
    LockStep)
    ensures
        if lock_retried(code, waited) {
            r matches LockStep::Retry(total) && total == waited + LOCK_RETRY_INTERVAL
        } else {
            r matches LockStep::Fail(message) && message@ == "failed to acquire install lock at "@
                + lock_path@ + ": "@ + err@
        },
{
    if is_sharing_violation(code) && waited < LOCK_MAX_WAIT {
        LockStep::Retry(waited + LOCK_RETRY_INTERVAL)
    } else {
        let mut message = copy_of("failed to acquire install lock at ");
        message.push_str(lock_path);
        message.push_str(": ");
        message.push_str(err);
        LockStep::Fail(message)
    }
}

/// What has been waited after `failures` attempts that were tried again.
pub open spec fn waited_after(failures: nat) -> nat {
    failures * LOCK_RETRY_INTERVAL as nat
}

/// The lock is not waited for without end: after so many attempts as fit the longest
/// wait, the next failure is final, and not before, as long as another process holds the
/// lock.
pub proof fn law_lock_is_given_up_in_time(failures: nat, code: Option<i32>)
    requires
        failures <= LOCK_MAX_WAIT / LOCK_RETRY_INTERVAL,
        sharing_violation(code),
    ensures
        waited_after(failures) <= LOCK_MAX_WAIT,
        lock_retried(code, waited_after(failures) as u64) <==> failures < LOCK_MAX_WAIT
            / LOCK_RETRY_INTERVAL,
{
}

// ---------------------------------------------------------------------------
// Putting a release in its place
// ---------------------------------------------------------------------------

/// The directory in which the release `release_name` is put together.
pub open spec fn staging_dir_text(release_name: Option<Seq<char>>, pid: u32) -> Seq<char> {
    ".staging."@ + match release_name {
        Some(name) => name,
        None => "release"@,
    } + "."@ + decimal(pid as nat)
}

/// The directory in which the release `release_name` is put together.
pub fn staging_dir_name(release_name: Option<&str>, pid: u32) -> (r: String)
    ensures
        r@ == staging_dir_text(opt_str(release_name), pid),
{
    let mut out = copy_of(".staging.");
    out.push_str(
        match release_name {
            Some(name) => name,
            None => "release",
        },
    );
    out.push_str(".");
    out.push_str(decimal_string(pid as u128).as_str());
    out
}

/// What to look at or to do next.
#[derive(Debug, PartialEq, Eq)]
pub enum PlaceAction {
    /// Look whether the release's command is there.
    InspectBinary,
    /// Look whether there is anything at the release's directory.
    InspectDirectory,
    /// Remove the release's directory.
    ClearDirectory,
    /// Create the staging directory.
    CreateStaging,
    /// Copy the download into the staging directory.
    CopyDownload,
    /// Rename the staging directory to the release's directory.
    Place,
    /// Remove the staging directory; the placement fails with this message.
    DropStaging(String),
    /// The release is in its place.
    Done,
    /// The placement fails.
    Fail(String),
}

/// The model of [`PlaceAction`].
pub enum PlaceActionView {
    InspectBinary,
    InspectDirectory,
    ClearDirectory,
    CreateStaging,
    CopyDownload,
    Place,
    DropStaging(Seq<char>),
    Done,
    Fail(Seq<char>),
}

impl PlaceAction {
    /// The model of the action.
    pub open spec fn view(&self) -> PlaceActionView {
        match self {
            PlaceAction::InspectBinary => PlaceActionView::InspectBinary,
            PlaceAction::InspectDirectory => PlaceActionView::InspectDirectory,
            PlaceAction::ClearDirectory => PlaceActionView::ClearDirectory,
            PlaceAction::CreateStaging => PlaceActionView::CreateStaging,
            PlaceAction::CopyDownload => PlaceActionView::CopyDownload,
            PlaceAction::Place => PlaceActionView::Place,
            PlaceAction::DropStaging(message) => PlaceActionView::DropStaging(message@),
            PlaceAction::Done => PlaceActionView::Done,
            PlaceAction::Fail(message) => PlaceActionView::Fail(message@),
        }
    }
}

/// What was found, or what came of an action.
#[derive(Debug, PartialEq, Eq)]
pub enum PlaceEvent {
    /// Whether what was looked for is there.
    Found(bool),
    /// What came of an action.
    Acted(Result<(), String>),
}

/// What follows a step of putting a release in its place, given what came of it.
pub open spec fn after_place(
    last: PlaceActionView,
    event: PlaceEvent,
    release_dir: Seq<char>,
) -> PlaceActionView {
    match (last, event) {
        (PlaceActionView::InspectBinary, PlaceEvent::Found(found)) => if found {
            PlaceActionView::Done
        } else {
            PlaceActionView::InspectDirectory
        },
        (PlaceActionView::InspectDirectory, PlaceEvent::Found(found)) => if found {
            PlaceActionView::ClearDirectory
        } else {
            PlaceActionView::CreateStaging
        },
        (PlaceActionView::ClearDirectory, PlaceEvent::Acted(Ok(()))) =>
            PlaceActionView::CreateStaging,
        (PlaceActionView::ClearDirectory, PlaceEvent::Acted(Err(err))) => PlaceActionView::Fail(
            "failed to clear stale release dir "@ + release_dir + ": "@ + err@,
        ),
        (PlaceActionView::CreateStaging, PlaceEvent::Acted(Ok(()))) =>
            PlaceActionView::CopyDownload,
        (PlaceActionView::CreateStaging, PlaceEvent::Acted(Err(err))) => PlaceActionView::Fail(
            "failed to create staging dir: "@ + err@,
        ),
        (PlaceActionView::CopyDownload, PlaceEvent::Acted(Ok(()))) => PlaceActionView::Place,
        (PlaceActionView::CopyDownload, PlaceEvent::Acted(Err(err))) =>
            PlaceActionView::DropStaging("failed to stage downloaded binary: "@ + err@),
        (PlaceActionView::Place, PlaceEvent::Acted(Ok(()))) => PlaceActionView::Done,
        (PlaceActionView::Place, PlaceEvent::Acted(Err(err))) => PlaceActionView::DropStaging(
            "failed to place release: "@ + err@,
        ),
        (PlaceActionView::DropStaging(message), _) => PlaceActionView::Fail(message),
        (PlaceActionView::Done, _) => PlaceActionView::Done,
        (PlaceActionView::Fail(message), _) => PlaceActionView::Fail(message),
        _ => PlaceActionView::Fail("unexpected answer about "@ + release_dir),
    }
}

/// The next step of putting a release in its place, given the last step and what came of
/// it. The first step is to look whether the release's command is there: then there is
/// nothing to do.
pub fn stage_and_place_release(last: PlaceAction, event: PlaceEvent, release_dir: &str) -> (r:
    PlaceAction)
    ensures
        r@ == after_place(last@, event, release_dir@),
{
    match (last, event) {
        (PlaceAction::InspectBinary, PlaceEvent::Found(found)) => {
            if found {
                PlaceAction::Done
            } else {
                PlaceAction::InspectDirectory
            }
        },
        (PlaceAction::InspectDirectory, PlaceEvent::Found(found)) => {
            if found {
                PlaceAction::ClearDirectory
            } else {
                PlaceAction::CreateStaging
            }
        },
        (PlaceAction::ClearDirectory, PlaceEvent::Acted(Ok(()))) => PlaceAction::CreateStaging,
        (PlaceAction::ClearDirectory, PlaceEvent::Acted(Err(err))) => {
            let mut message = copy_of("failed to clear stale release dir ");
            message.push_str(release_dir);
            message.push_str(": ");
            message.push_str(err.as_str());
            PlaceAction::Fail(message)
        },
        (PlaceAction::CreateStaging, PlaceEvent::Acted(Ok(()))) => PlaceAction::CopyDownload,
        (PlaceAction::CreateStaging, PlaceEvent::Acted(Err(err))) => PlaceAction::Fail(
            concat("failed to create staging dir: ", err.as_str()),
        ),
        (PlaceAction::CopyDownload, PlaceEvent::Acted(Ok(()))) => PlaceAction::Place,
        (PlaceAction::CopyDownload, PlaceEvent::Acted(Err(err))) => PlaceAction::DropStaging(
            concat("failed to stage downloaded binary: ", err.as_str()),
        ),
        (PlaceAction::Place, PlaceEvent::Acted(Ok(()))) => PlaceAction::Done,
        (PlaceAction::Place, PlaceEvent::Acted(Err(err))) => PlaceAction::DropStaging(
            concat("failed to place release: ", err.as_str()),
        ),
        (PlaceAction::DropStaging(message), _) => PlaceAction::Fail(message),
        (PlaceAction::Done, _) => PlaceAction::Done,
        (PlaceAction::Fail(message), _) => PlaceAction::Fail(message),
        _ => PlaceAction::Fail(concat("unexpected answer about ", release_dir)),
    }
}

/// The step that placing a release has come to after the events in `events`.
pub open spec fn placed_after(events: Seq<PlaceEvent>, release_dir: Seq<char>) -> PlaceActionView
    decreases events.len(),
{
    if events.len() == 0 {
        PlaceActionView::InspectBinary
    } else {
        after_place(placed_after(events.drop_last(), release_dir), events.last(), release_dir)
    }
}

/// A release that is there is not touched: once its command is found, nothing further is
/// done, and the placement can be repeated.
pub proof fn law_placed_release_is_kept(events: Seq<PlaceEvent>, release_dir: Seq<char>)
    requires
        events.len() > 0,
        events[0] == PlaceEvent::Found(true),
    ensures
        placed_after(events, release_dir) == PlaceActionView::Done,
    decreases events.len(),
{
    let front = events.drop_last();
    if front.len() > 0 {
        assert(front[0] == events[0]);
        law_placed_release_is_kept(front, release_dir);
    } else {
        assert(events.last() == events[0]);
        assert(placed_after(front, release_dir) == PlaceActionView::InspectBinary);
    }
}

/// The download is in place only when it was copied: the release is renamed into place
/// right after a copy that succeeded, and the placement is done only then or when the
/// release was there from the start.
pub proof fn law_release_is_placed_whole(
    last: PlaceActionView,
    event: PlaceEvent,
    release_dir: Seq<char>,
)
    ensures
        after_place(last, event, release_dir) is Place ==> last is CopyDownload && (
        event matches PlaceEvent::Acted(Ok(_))),
        after_place(last, event, release_dir) is Done ==> {
            ||| last is Done
            ||| last is Place && (event matches PlaceEvent::Acted(Ok(_)))
            ||| last is InspectBinary && event == PlaceEvent::Found(true)
        },
{
}

/// A staging directory does not stay behind: every failure after it was created leads to
/// its removal.
pub proof fn law_no_staging_directory_is_left(err: String, release_dir: Seq<char>)
    ensures
        after_place(
            PlaceActionView::CopyDownload,
            PlaceEvent::Acted(Err(err)),
            release_dir,
        ) is DropStaging,
        after_place(PlaceActionView::Place, PlaceEvent::Acted(Err(err)), release_dir) is DropStaging,
{
}

/// The files of a directory.
pub type DirFiles = Map<Seq<char>, Seq<u8>>;

/// What is in the directory of releases: its directories by name.
pub type ReleasesDisk = Map<Seq<char>, DirFiles>;

/// The command is in the directory `name`.
pub open spec fn holds_command(disk: ReleasesDisk, name: Seq<char>) -> bool {
    disk.contains_key(name) && disk[name].contains_key("tanuki.exe"@)
}

/// The files of the directory `name`; none where it is not there.
pub open spec fn files_in(disk: ReleasesDisk, name: Seq<char>) -> DirFiles {
    if disk.contains_key(name) {
        disk[name]
    } else {
        Map::empty()
    }
}

/// What is found, or what comes of an action, on a disk on which nothing fails; and the
/// disk then. `release` and `staging` are the names of the two directories, and `download`
/// is what was downloaded.
pub open spec fn place_on_disk(
    disk: ReleasesDisk,
    action: PlaceActionView,
    release: Seq<char>,
    staging: Seq<char>,
    download: Seq<u8>,
) -> (PlaceEvent, ReleasesDisk) {
    match action {
        PlaceActionView::InspectBinary => (PlaceEvent::Found(holds_command(disk, release)), disk),
        PlaceActionView::InspectDirectory => (PlaceEvent::Found(disk.contains_key(release)), disk),
        PlaceActionView::ClearDirectory => (PlaceEvent::Acted(Ok(())), disk.remove(release)),
        PlaceActionView::CreateStaging => (
            PlaceEvent::Acted(Ok(())),
            disk.insert(staging, files_in(disk, staging)),
        ),
        PlaceActionView::CopyDownload => (
            PlaceEvent::Acted(Ok(())),
            disk.insert(staging, files_in(disk, staging).insert("tanuki.exe"@, download)),
        ),
        PlaceActionView::Place => (
            PlaceEvent::Acted(Ok(())),
            disk.remove(staging).insert(release, files_in(disk, staging)),
        ),
        PlaceActionView::DropStaging(_) => (PlaceEvent::Acted(Ok(())), disk.remove(staging)),
        _ => (PlaceEvent::Acted(Ok(())), disk),
    }
}

/// The disk when placing a release is over, and how it ended, where it goes on with
/// `action`; it takes at most `steps` steps.
pub open spec fn place_run(
    disk: ReleasesDisk,
    action: PlaceActionView,
    release: Seq<char>,
    staging: Seq<char>,
    download: Seq<u8>,
    shown: Seq<char>,
    steps: nat,
) -> (ReleasesDisk, PlaceActionView)
    decreases steps,
{
    if steps == 0 || action is Done || action is Fail {
        (disk, action)
    } else {
        let (event, after) = place_on_disk(disk, action, release, staging, download);
        place_run(
            after,
            after_place(action, event, shown),
            release,
            staging,
            download,
            shown,
            (steps - 1) as nat,
        )
    }
}

/// The disk after the release called `release` was placed by the process `pid`, and how
/// that ended; `shown` is the directory of the release as it is shown.
pub open spec fn placed(
    disk: ReleasesDisk,
    release: Seq<char>,
    pid: u32,
    download: Seq<u8>,
    shown: Seq<char>,
) -> (ReleasesDisk, PlaceActionView) {
    place_run(
        disk,
        PlaceActionView::InspectBinary,
        release,
        staging_dir_text(Some(release), pid),
        download,
        shown,
        6,
    )
}

/// Placing a release succeeds where nothing fails on the disk. Where the command was there,
/// nothing changes. Otherwise the directory of the release, cleared first if it was there,
/// is what the staging directory held with the download as the command, which is just the
/// download where the staging directory was not there before; the staging directory is
/// gone, and nothing else has changed.
pub proof fn law_release_holds_the_download(
    disk: ReleasesDisk,
    release: Seq<char>,
    pid: u32,
    download: Seq<u8>,
    shown: Seq<char>,
)
    ensures
        ({
            let staging = staging_dir_text(Some(release), pid);
            let (after, ending) = placed(disk, release, pid, download, shown);
            &&& ending is Done
            &&& staging != release
            &&& if holds_command(disk, release) {
                after == disk
            } else {
                after == disk.remove(staging).insert(
                    release,
                    files_in(disk, staging).insert("tanuki.exe"@, download),
                ) && !after.contains_key(staging)
            }
        }),
{
    let staging = staging_dir_text(Some(release), pid);
    lemma_staging_is_no_release(release, pid);
    reveal_with_fuel(place_run, 7);
    if !holds_command(disk, release) {
        let after = placed(disk, release, pid, download, shown).0;
        let files = files_in(disk, staging).insert("tanuki.exe"@, download);
        assert(after =~= disk.remove(staging).insert(release, files));
    }
}

/// A release that was put together where no staging directory was left behind holds just
/// the command, with the bytes of the download, and no staging directory is left.
pub proof fn law_placed_release_holds_just_the_download(
    disk: ReleasesDisk,
    release: Seq<char>,
    pid: u32,
    download: Seq<u8>,
    shown: Seq<char>,
)
    requires
        !holds_command(disk, release),
        forall|name: Seq<char>| #[trigger] disk.contains_key(name) ==> !staging_name(name),
        !staging_name(release),
    ensures
        ({
            let after = placed(disk, release, pid, download, shown).0;
            &&& after == disk.insert(release, Map::empty().insert("tanuki.exe"@, download))
            &&& forall|name: Seq<char>| #[trigger] after.contains_key(name) ==> !staging_name(name)
        }),
{
    let staging = staging_dir_text(Some(release), pid);
    law_release_holds_the_download(disk, release, pid, download, shown);
    lemma_staging_is_no_release(release, pid);
    assert(!disk.contains_key(staging));
    let after = placed(disk, release, pid, download, shown).0;
    assert(after =~= disk.insert(release, Map::empty().insert("tanuki.exe"@, download)));
}

/// Placing a release again changes nothing, even with another download and from another
/// process.
pub proof fn law_placing_twice_changes_nothing(
    disk: ReleasesDisk,
    release: Seq<char>,
    pid: u32,
    download: Seq<u8>,
    shown: Seq<char>,
    other_pid: u32,
    other_download: Seq<u8>,
)
    ensures
        ({
            let after = placed(disk, release, pid, download, shown).0;
            placed(after, release, other_pid, other_download, shown) == (
                after,
                PlaceActionView::Done,
            )
        }),
{
    law_release_holds_the_download(disk, release, pid, download, shown);
    let after = placed(disk, release, pid, download, shown).0;
    assert(holds_command(after, release));
    law_release_holds_the_download(after, release, other_pid, other_download, shown);
}

proof fn lemma_staging_is_no_release(release: Seq<char>, pid: u32)
    ensures
        staging_dir_text(Some(release), pid) != release,
        staging_name(staging_dir_text(Some(release), pid)),
{
    reveal_strlit(".staging.");
    let staging = staging_dir_text(Some(release), pid);
    assert(staging.len() > release.len());
    assert(".staging."@ =~= staging.take(9));
}

// ---------------------------------------------------------------------------
// The whole installation
// ---------------------------------------------------------------------------

/// Whether the installed command works, given whether it ran and succeeded.
pub fn verify_installed_binary(tanuki_exe: &str, outcome: Result<bool, String>) -> (r: Result<
    (),
    String,
>)
    ensures
        match outcome {
            Ok(true) => r is Ok,
            Ok(false) => r matches Err(message) && message@
                == "installed Tanuki command failed verification: "@ + tanuki_exe@
                + " --version"@,
            Err(err) => r matches Err(message) && message@
                == "installed Tanuki command failed verification: "@ + tanuki_exe@
                + " --version"@ + " ("@ + err@ + ")"@,
        },
{
    match outcome {
        Ok(true) => Ok(()),
        Ok(false) => {
            let mut message = copy_of("installed Tanuki command failed verification: ");
            message.push_str(tanuki_exe);
            message.push_str(" --version");
            Err(message)
        },
        Err(err) => {
            let mut message = copy_of("installed Tanuki command failed verification: ");
            message.push_str(tanuki_exe);
            message.push_str(" --version");
            message.push_str(" (");
            message.push_str(err.as_str());
            message.push_str(")");
            Err(message)
        },
    }
}

/// One step of an installation.
#[derive(Debug, Clone, Copy, PartialEq, Eq, Structural)]
pub enum InstallStep {
    CreateReleasesDir,
    TakeLock,
    RemoveStaleStaging,
    PlaceRelease,
    LinkCurrent,
    LinkVisible,
    VerifyBinary,
    Prune,
    ReleaseLock,
    UpdateUserPath,
    Finished,
}

/// What to do after a step.
#[derive(Debug, PartialEq, Eq)]
pub enum InstallNext {
    /// Take this step.
    Step(InstallStep),
    /// Release the lock; the installation fails with this message.
    ReleaseAndFail(String),
    /// The installation fails with this message.
    Fail(String),
}

/// The step behind `step`.
pub open spec fn step_after(step: InstallStep) -> InstallStep {
    match step {
        InstallStep::CreateReleasesDir => InstallStep::TakeLock,
        InstallStep::TakeLock => InstallStep::RemoveStaleStaging,
        InstallStep::RemoveStaleStaging => InstallStep::PlaceRelease,
        InstallStep::PlaceRelease => InstallStep::LinkCurrent,
        InstallStep::LinkCurrent => InstallStep::LinkVisible,
        InstallStep::LinkVisible => InstallStep::VerifyBinary,
        InstallStep::VerifyBinary => InstallStep::Prune,
        InstallStep::Prune => InstallStep::ReleaseLock,
        InstallStep::ReleaseLock => InstallStep::UpdateUserPath,
        InstallStep::UpdateUserPath => InstallStep::Finished,
        InstallStep::Finished => InstallStep::Finished,
    }
}

/// The step can fail, and is taken while the lock is held.
pub open spec fn fails_under_lock(step: InstallStep) -> bool {
    step == InstallStep::PlaceRelease || step == InstallStep::LinkCurrent || step
        == InstallStep::LinkVisible || step == InstallStep::VerifyBinary
}

/// The step can fail, and is taken without the lock.
pub open spec fn fails_without_lock(step: InstallStep) -> bool {
    step == InstallStep::CreateReleasesDir || step == InstallStep::TakeLock || step
        == InstallStep::UpdateUserPath
}

/// What to do after a step of an installation. The first step is to create the directory
/// of releases. What cannot be removed is left, and so these steps cannot fail.
pub fn install_windows_update(step: InstallStep, outcome: Result<(), String>, releases_dir: &str)
    -> (r: InstallNext)
    ensures
        match outcome {
            Ok(()) => r == InstallNext::Step(step_after(step)),
            Err(err) => if fails_under_lock(step) {
                r matches InstallNext::ReleaseAndFail(message) && message == err
            } else if step == InstallStep::CreateReleasesDir {
                r matches InstallNext::Fail(message) && message@ == "failed to create "@
                    + releases_dir@ + ": "@ + err@
            } else if fails_without_lock(step) {
                r matches InstallNext::Fail(message) && message == err
            } else {
                r == InstallNext::Step(step_after(step))
            },
        },
{
    let next = match step {
        InstallStep::CreateReleasesDir => InstallStep::TakeLock,
        InstallStep::TakeLock => InstallStep::RemoveStaleStaging,
        InstallStep::RemoveStaleStaging => InstallStep::PlaceRelease,
        InstallStep::PlaceRelease => InstallStep::LinkCurrent,
        InstallStep::LinkCurrent => InstallStep::LinkVisible,
        InstallStep::LinkVisible => InstallStep::VerifyBinary,
        InstallStep::VerifyBinary => InstallStep::Prune,
        InstallStep::Prune => InstallStep::ReleaseLock,
        InstallStep::ReleaseLock => InstallStep::UpdateUserPath,
        InstallStep::UpdateUserPath => InstallStep::Finished,
        InstallStep::Finished => InstallStep::Finished,
    };
    match outcome {
        Ok(()) => InstallNext::Step(next),
        Err(err) => {
            match step {
                InstallStep::CreateReleasesDir => InstallNext::Fail(
                    create_failure(releases_dir, err.as_str()),
                ),
                InstallStep::TakeLock => InstallNext::Fail(err),
                InstallStep::UpdateUserPath => InstallNext::Fail(err),
                InstallStep::PlaceRelease => InstallNext::ReleaseAndFail(err),
                InstallStep::LinkCurrent => InstallNext::ReleaseAndFail(err),
                InstallStep::LinkVisible => InstallNext::ReleaseAndFail(err),
                InstallStep::VerifyBinary => InstallNext::ReleaseAndFail(err),
                _ => InstallNext::Step(next),
            }
        },
    }
}

/// The step that an installation has come to after each of the steps in `outcomes` went
/// as it says; nothing once one has failed.
pub open spec fn reached(outcomes: Seq<bool>) -> Option<InstallStep>
    decreases outcomes.len(),
{
    if outcomes.len() == 0 {
        Some(InstallStep::CreateReleasesDir)
    } else {
        match reached(outcomes.drop_last()) {
            None => None,
            Some(step) => if !outcomes.last() && (fails_under_lock(step) || fails_without_lock(
                step,
            )) {
                None
            } else {
                Some(step_after(step))
            },
        }
    }
}

/// A bad installation never costs the last good one: old releases are removed only after
/// the release was put in its place, both links point at it and its command has run.
pub proof fn law_pruning_follows_verification(outcomes: Seq<bool>)
    requires
        reached(outcomes) == Some(InstallStep::Prune),
    ensures
        outcomes.len() == 7,
        outcomes[3] && outcomes[4] && outcomes[5] && outcomes[6],
{
    lemma_reached(outcomes);
    reveal_with_fuel(reached, 8);
    if outcomes.len() == 7 {
        let o6 = outcomes.drop_last();
        let o5 = o6.drop_last();
        let o4 = o5.drop_last();
        let o3 = o4.drop_last();
        lemma_reached(o6);
        lemma_reached(o5);
        lemma_reached(o4);
        lemma_reached(o3);
        assert(o6.last() == outcomes[5]);
        assert(o5.last() == outcomes[4]);
        assert(o4.last() == outcomes[3]);
    }
}

spec fn position(step: InstallStep) -> nat {
    match step {
        InstallStep::CreateReleasesDir => 0,
        InstallStep::TakeLock => 1,
        InstallStep::RemoveStaleStaging => 2,
        InstallStep::PlaceRelease => 3,
        InstallStep::LinkCurrent => 4,
        InstallStep::LinkVisible => 5,
        InstallStep::VerifyBinary => 6,
        InstallStep::Prune => 7,
        InstallStep::ReleaseLock => 8,
        InstallStep::UpdateUserPath => 9,
        InstallStep::Finished => 10,
    }
}

proof fn lemma_reached(outcomes: Seq<bool>)
    ensures
        reached(outcomes) matches Some(step) ==> position(step) == if outcomes.len() < 10 {
            outcomes.len()
        } else {
            10
        },
    decreases outcomes.len(),
{
    if outcomes.len() > 0 {
        lemma_reached(outcomes.drop_last());
    }
}

/// An installation takes its steps in one order, from creating the directory of releases
/// to the end, and leaves none out; where every step goes well, it comes to the end.
pub proof fn law_installation_goes_in_order(outcomes: Seq<bool>)
    ensures
        ({
            let order = seq![
                InstallStep::CreateReleasesDir,
                InstallStep::TakeLock,
                InstallStep::RemoveStaleStaging,
                InstallStep::PlaceRelease,
                InstallStep::LinkCurrent,
                InstallStep::LinkVisible,
                InstallStep::VerifyBinary,
                InstallStep::Prune,
                InstallStep::ReleaseLock,
                InstallStep::UpdateUserPath,
                InstallStep::Finished,
            ];
            let place: int = if outcomes.len() < 10 {
                outcomes.len() as int
            } else {
                10
            };
            &&& reached(outcomes) matches Some(step) ==> step == order[place]
            &&& (forall|i: int| 0 <= i < outcomes.len() ==> #[trigger] outcomes[i]) ==> reached(
                outcomes,
            ) == Some(order[place])
        }),
{
    lemma_reached(outcomes);
    lemma_reached_by_success(outcomes);
    let order = seq![
        InstallStep::CreateReleasesDir,
        InstallStep::TakeLock,
        InstallStep::RemoveStaleStaging,
        InstallStep::PlaceRelease,
        InstallStep::LinkCurrent,
        InstallStep::LinkVisible,
        InstallStep::VerifyBinary,
        InstallStep::Prune,
        InstallStep::ReleaseLock,
        InstallStep::UpdateUserPath,
        InstallStep::Finished,
    ];
    if let Some(step) = reached(outcomes) {
        assert(order[position(step) as int] == step) by {
            match step {
                InstallStep::CreateReleasesDir => {},
                InstallStep::TakeLock => {},
                InstallStep::RemoveStaleStaging => {},
                InstallStep::PlaceRelease => {},
                InstallStep::LinkCurrent => {},
                InstallStep::LinkVisible => {},
                InstallStep::VerifyBinary => {},
                InstallStep::Prune => {},
                InstallStep::ReleaseLock => {},
                InstallStep::UpdateUserPath => {},
                InstallStep::Finished => {},
            }
        }
    }
}

proof fn lemma_reached_by_success(outcomes: Seq<bool>)
    ensures
        (forall|i: int| 0 <= i < outcomes.len() ==> #[trigger] outcomes[i]) ==> reached(
            outcomes,
        ) is Some,
    decreases outcomes.len(),
{
    if outcomes.len() > 0 {
        lemma_reached_by_success(outcomes.drop_last());
        assert(outcomes.last() == outcomes[outcomes.len() - 1]);
    }
}

/// Each step of an installation is followed by the one that builds on it: the releases
/// are locked before anything is done to them, the release is placed before it is linked,
/// linked before it is run, and run before older ones are removed.
pub proof fn law_each_step_builds_on_the_last(step: InstallStep)
    ensures
        step_after(step) == InstallStep::TakeLock <==> step == InstallStep::CreateReleasesDir,
        step_after(step) == InstallStep::RemoveStaleStaging <==> step == InstallStep::TakeLock,
        step_after(step) == InstallStep::PlaceRelease <==> step == InstallStep::RemoveStaleStaging,
        step_after(step) == InstallStep::LinkCurrent <==> step == InstallStep::PlaceRelease,
        step_after(step) == InstallStep::LinkVisible <==> step == InstallStep::LinkCurrent,
        step_after(step) == InstallStep::VerifyBinary <==> step == InstallStep::LinkVisible,
        step_after(step) == InstallStep::Prune <==> step == InstallStep::VerifyBinary,
        step_after(step) == InstallStep::ReleaseLock <==> step == InstallStep::Prune,
        step_after(step) == InstallStep::UpdateUserPath <==> step == InstallStep::ReleaseLock,
        step_after(step) == InstallStep::Finished <==> step == InstallStep::UpdateUserPath || step
            == InstallStep::Finished,
{
}

/// No link points at a release before the release was put in its place: an installation
/// that has come to a link, or past it, took the step that places the release, and that
/// step succeeded. Likewise nothing is done to the releases before the lock was taken.
pub proof fn law_links_follow_the_placed_release(outcomes: Seq<bool>)
    ensures
        reached(outcomes) == Some(InstallStep::LinkCurrent) || reached(outcomes) == Some(
            InstallStep::LinkVisible,
        ) || reached(outcomes) == Some(InstallStep::VerifyBinary) ==> exists|i: int|
            0 <= i < outcomes.len() && reached(#[trigger] outcomes.take(i)) == Some(
                InstallStep::PlaceRelease,
            ) && outcomes[i],
        reached(outcomes) == Some(InstallStep::RemoveStaleStaging) || reached(outcomes) == Some(
            InstallStep::PlaceRelease,
        ) ==> exists|i: int|
            0 <= i < outcomes.len() && reached(#[trigger] outcomes.take(i)) == Some(
                InstallStep::TakeLock,
            ) && outcomes[i],
{
    law_installation_goes_in_order(outcomes);
    let at: int = if reached(outcomes) == Some(InstallStep::RemoveStaleStaging) || reached(outcomes)
        == Some(InstallStep::PlaceRelease) {
        1
    } else {
        3
    };
    if reached(outcomes) is Some && at < outcomes.len() <= 6 {
        lemma_reached_before(outcomes, at);
        law_installation_goes_in_order(outcomes.take(at));
    }
}

/// What an installation had come to earlier, and that the step it took then did not end
/// it.
proof fn lemma_reached_before(outcomes: Seq<bool>, at: int)
    requires
        0 <= at < outcomes.len(),
        reached(outcomes) is Some,
    ensures
        reached(outcomes.take(at)) matches Some(step) && (outcomes[at] || !(fails_under_lock(step)
            || fails_without_lock(step))),
    decreases outcomes.len(),
{
    let front = outcomes.drop_last();
    if at == front.len() {
        assert(outcomes.take(at) =~= front);
    } else {
        lemma_reached_before(front, at);
        assert(front.take(at) =~= outcomes.take(at));
    }
}

/// A step that fails ends the installation, unless it only clears away what is not needed
/// any more. The lock is released by a failure exactly where it is held.
pub proof fn law_failed_step_ends_the_installation(step: InstallStep)
    ensures
        fails_under_lock(step) || fails_without_lock(step) <==> step
            != InstallStep::RemoveStaleStaging && step != InstallStep::Prune && step
            != InstallStep::ReleaseLock && step != InstallStep::Finished,
        !(fails_under_lock(step) && fails_without_lock(step)),
        fails_without_lock(step) ==> step == InstallStep::CreateReleasesDir || step
            == InstallStep::TakeLock || step == InstallStep::UpdateUserPath,
{
}

/// A directory that the environment names is taken as it is named; where it names none,
/// everything goes below the profile, and the command below the application data. Nothing
/// else of the environment matters.
pub proof fn law_named_directories_are_taken(env: InstallEnv)
    ensures
        env.tanuki_home matches Some(home) && home@.len() > 0 ==> home_parts(env) == Some(
            seq![env.tanuki_home->0@],
        ),
        env.tanuki_home is None || env.tanuki_home->0@.len() == 0 ==> home_parts(env) == match (
        env.user_profile) {
            Some(profile) => Some(seq![profile@, ".tanuki"@]),
            None => None,
        },
        env.tanuki_install_dir matches Some(dir) && dir@.len() > 0 ==> bin_parts(env) == Some(
            seq![env.tanuki_install_dir->0@],
        ),
        env.tanuki_install_dir is None || env.tanuki_install_dir->0@.len() == 0 ==> bin_parts(env)
            == match (env.local_app_data) {
            Some(data) => Some(seq![data@, "Programs"@, "Tanuki"@, "bin"@]),
            None => None,
        },
        given(env.tanuki_install_dir) is None <==> env.tanuki_install_dir is None
            || env.tanuki_install_dir->0@.len() == 0,
{
}

/// In the name of a release every letter, digit, dot, underscore and dash of the version
/// stands where it stood, and a dash stands for everything else.
pub proof fn law_version_is_kept_in_place(identity: Seq<char>, i: int)
    requires
        0 <= i < identity.len(),
    ensures
        ({
            let c = identity[i];
            let kept = 'a' <= c <= 'z' || 'A' <= c <= 'Z' || '0' <= c <= '9' || c == '.' || c
                == '_' || c == '-';
            sanitized_version(identity)[i] == if kept {
                c
            } else {
                '-'
            }
        }),
{
}

/// The lock is tried again only where another process holds the file, and for a minute at
/// most.
pub proof fn law_only_a_held_lock_is_waited_for(code: Option<i32>, waited: u64)
    ensures
        lock_retried(code, waited) <==> (code == Some(32i32) || code == Some(5i32)) && waited
            < 60000,
{
}

/// The staging directory of a release is called after the release and the process that puts
/// it together: a fixed beginning, the name of the release, a dot and the number.
pub proof fn law_staging_directory_names_the_release(release: Seq<char>, pid: u32)
    ensures
        ({
            let staging = staging_dir_text(Some(release), pid);
            &&& staging.take(9) == seq!['.', 's', 't', 'a', 'g', 'i', 'n', 'g', '.']
            &&& staging.subrange(9, 9 + release.len() as int) == release
            &&& staging[9 + release.len() as int] == '.'
            &&& staging.skip(10 + release.len() as int) == decimal(pid as nat)
        }),
{
    reveal_strlit(".staging.");
    reveal_strlit(".");
    let staging = staging_dir_text(Some(release), pid);
    assert(staging.take(9) =~= seq!['.', 's', 't', 'a', 'g', 'i', 'n', 'g', '.']);
    assert(staging.subrange(9, 9 + release.len() as int) =~= release);
    assert(staging.skip(10 + release.len() as int) =~= decimal(pid as nat));
}

/// What went wrong is passed on: a failure of an action ends with the reason that was
/// given for it.
pub proof fn law_placement_failure_gives_the_reason(
    last: PlaceActionView,
    err: String,
    release_dir: Seq<char>,
)
    requires
        last is ClearDirectory || last is CreateStaging || last is CopyDownload || last is Place,
    ensures
        match after_place(last, PlaceEvent::Acted(Err(err)), release_dir) {
            PlaceActionView::Fail(message) => err@.is_suffix_of(message),
            PlaceActionView::DropStaging(message) => err@.is_suffix_of(message)
                && after_place(
                PlaceActionView::DropStaging(message),
                PlaceEvent::Acted(Ok(())),
                release_dir,
            ) == PlaceActionView::Fail(message),
            _ => false,
        },
{
    match after_place(last, PlaceEvent::Acted(Err(err)), release_dir) {
        PlaceActionView::Fail(message) => {
            assert(message.skip(message.len() - err@.len()) =~= err@);
        },
        PlaceActionView::DropStaging(message) => {
            assert(message.skip(message.len() - err@.len()) =~= err@);
        },
        _ => {},
    }
}

/// Nothing is done out of turn: the release's directory is removed only when it was just
/// found without its command, a staging directory is created only when the way is free,
/// and the download is copied only into a staging directory that was just created.
pub proof fn law_placement_takes_its_turn(
    last: PlaceActionView,
    event: PlaceEvent,
    release_dir: Seq<char>,
)
    ensures
        ({
            let next = after_place(last, event, release_dir);
            &&& next is ClearDirectory <==> last is InspectDirectory && event == PlaceEvent::Found(
                true,
            )
            &&& next is CreateStaging <==> {
                ||| last is InspectDirectory && event == PlaceEvent::Found(false)
                ||| last is ClearDirectory && (event matches PlaceEvent::Acted(Ok(_)))
            }
            &&& next is CopyDownload <==> last is CreateStaging && (event matches PlaceEvent::Acted(
                Ok(_),
            ))
            &&& next is InspectDirectory <==> last is InspectBinary && event == PlaceEvent::Found(
                false,
            )
            &&& next is DropStaging <==> (last is CopyDownload || last is Place) && (
            event matches PlaceEvent::Acted(Err(_)))
            &&& !(next is InspectBinary)
        }),
{
}

} // verus!
