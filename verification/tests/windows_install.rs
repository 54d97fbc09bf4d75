use std::collections::HashMap;
use tanuki::platform::junction::is_legacy_bin_dir;
use tanuki::platform::junction::migrate_legacy_bin_dir;
use tanuki::platform::junction::normalize_for_compare;
use tanuki::platform::junction::path_starts_with_ignore_case;
use tanuki::platform::junction::paths_equal_ignore_case;
use tanuki::platform::junction::random_suffix;
use tanuki::platform::junction::set_managed_junction;
use tanuki::platform::junction::DirEntry;
use tanuki::platform::junction::JunctionAction;
use tanuki::platform::junction::JunctionEvent;
use tanuki::platform::junction::OsError;
use tanuki::platform::retention::prune_old_releases;
use tanuki::platform::retention::remove_stale_staging_dirs;
use tanuki::platform::retention::ReleaseEntry;
use tanuki::platform::user_path::prepend_path_entry;
use tanuki::platform::user_path::update_user_path;
use tanuki::platform::user_path::wide_null;
use tanuki::platform::windows_install::create_failure;
use tanuki::platform::windows_install::install_windows_update;
use tanuki::platform::windows_install::is_sharing_violation;
use tanuki::platform::windows_install::release_dir_name;
use tanuki::platform::windows_install::sanitize_version_identity;
use tanuki::platform::windows_install::stage_and_place_release;
use tanuki::platform::windows_install::staging_dir_name;
use tanuki::platform::windows_install::verify_installed_binary;
use tanuki::platform::windows_install::with_install_lock;
use tanuki::platform::windows_install::InstallEnv;
use tanuki::platform::windows_install::InstallNext;
use tanuki::platform::windows_install::InstallStep;
use tanuki::platform::windows_install::LockStep;
use tanuki::platform::windows_install::PlaceAction;
use tanuki::platform::windows_install::PlaceEvent;
use tanuki::platform::windows_install::TanukiInstallPaths;

#[test]
fn sanitize_version_identity_replaces_disallowed_chars() {
    assert_eq!(sanitize_version_identity("0.1.4"), "0.1.4");
    assert_eq!(
        sanitize_version_identity("0.1.4-preview.7+abc"),
        "0.1.4-preview.7-abc"
    );
}

#[test]
fn release_dir_name_appends_target_triple() {
    assert_eq!(release_dir_name("0.1.4"), "0.1.4-x86_64-pc-windows-msvc");
}

#[test]
fn prepend_path_entry_dedupes_case_insensitively_and_moves_to_front() {
    let result = prepend_path_entry(
        r"C:\Windows;C:\Users\user\AppData\Local\Programs\Tanuki\bin\;C:\Tools",
        r"C:\Users\user\AppData\Local\Programs\Tanuki\bin",
    );
    assert_eq!(
        result,
        r"C:\Users\user\AppData\Local\Programs\Tanuki\bin;C:\Windows;C:\Tools"
    );
}

#[test]
fn prepend_path_entry_is_a_no_op_when_already_first() {
    let path = r"C:\Users\user\AppData\Local\Programs\Tanuki\bin;C:\Windows";
    assert_eq!(
        prepend_path_entry(path, r"C:\Users\user\AppData\Local\Programs\Tanuki\bin"),
        path
    );
}

#[test]
fn prepending_twice_changes_nothing_and_empty_entries_go() {
    for path in ["", ";;", r"A;b;\;B\;c", r"X\;x;X"] {
        for entry in ["b", r"X\", "new", ""] {
            let once = prepend_path_entry(path, entry);
            assert_eq!(prepend_path_entry(&once, entry), once);
            assert!(once == entry || once.starts_with(&format!("{entry};")));
        }
    }
    assert_eq!(prepend_path_entry(r";a;;B\;c;", "b"), "b;a;c");
}

#[test]
fn the_user_path_is_written_only_when_it_changes() {
    assert_eq!(update_user_path(r"C:\a;C:\b", r"C:\new\"), Some(r"C:\new;C:\a;C:\b".to_string()));
    assert_eq!(update_user_path(r"C:\new;C:\a", r"C:\new\\"), None);
}

#[test]
fn wide_strings_are_utf16_with_a_zero() {
    for s in ["", "Environment", "яя", "a😀b", "\u{ffff}\u{10000}\u{10ffff}"] {
        let mut expected: Vec<u16> = s.encode_utf16().collect();
        expected.push(0);
        assert_eq!(wide_null(s), expected);
    }
}

/// The steps of placing a release, carried out on three facts.
fn place(mut binary: bool, mut dir: bool, fail_at: Option<PlaceAction>) -> (Vec<String>, bool, bool) {
    let mut log = Vec::new();
    let mut action = PlaceAction::InspectBinary;
    loop {
        log.push(format!("{action:?}"));
        let event = match &action {
            PlaceAction::InspectBinary => PlaceEvent::Found(binary),
            PlaceAction::InspectDirectory => PlaceEvent::Found(dir),
            PlaceAction::Done | PlaceAction::Fail(_) => return (log, binary, dir),
            other if Some(other) == fail_at.as_ref() => PlaceEvent::Acted(Err("broken".to_string())),
            PlaceAction::ClearDirectory => {
                dir = false;
                PlaceEvent::Acted(Ok(()))
            }
            PlaceAction::Place => {
                dir = true;
                binary = true;
                PlaceEvent::Acted(Ok(()))
            }
            _ => PlaceEvent::Acted(Ok(())),
        };
        action = stage_and_place_release(action, event, "R");
    }
}

#[test]
fn stage_and_place_release_skips_when_binary_already_exists() {
    let (log, binary, dir) = place(true, true, None);
    // Existing file untouched: the check is for the file, not for a version.
    assert_eq!(log, ["InspectBinary", "Done"]);
    assert!(binary && dir);
}

#[test]
fn stage_and_place_release_places_new_release() {
    let (log, binary, _) = place(false, false, None);
    assert!(binary);
    assert_eq!(
        log,
        ["InspectBinary", "InspectDirectory", "CreateStaging", "CopyDownload", "Place", "Done"]
    );
    let (log, _, _) = place(false, true, None);
    assert_eq!(log[2], "ClearDirectory");
    assert_eq!(staging_dir_name(Some("0.1.4"), 77), ".staging.0.1.4.77");
    assert_eq!(staging_dir_name(None, 0), ".staging.release.0");
}

/// Directories of releases, each with its files.
type Releases = HashMap<String, HashMap<String, Vec<u8>>>;

fn place_on(disk: &mut Releases, release: &str, pid: u32, download: &[u8]) {
    let staging = staging_dir_name(Some(release), pid);
    let mut action = PlaceAction::InspectBinary;
    loop {
        let event = match &action {
            PlaceAction::InspectBinary => PlaceEvent::Found(
                disk.get(release).is_some_and(|files| files.contains_key("tanuki.exe")),
            ),
            PlaceAction::InspectDirectory => PlaceEvent::Found(disk.contains_key(release)),
            PlaceAction::ClearDirectory => {
                disk.remove(release);
                PlaceEvent::Acted(Ok(()))
            }
            PlaceAction::CreateStaging => {
                disk.entry(staging.clone()).or_default();
                PlaceEvent::Acted(Ok(()))
            }
            PlaceAction::CopyDownload => {
                let files = disk.get_mut(&staging).unwrap();
                files.insert("tanuki.exe".to_string(), download.to_vec());
                PlaceEvent::Acted(Ok(()))
            }
            PlaceAction::Place => {
                let files = disk.remove(&staging).unwrap();
                assert!(disk.insert(release.to_string(), files).is_none());
                PlaceEvent::Acted(Ok(()))
            }
            PlaceAction::Done => return,
            other => panic!("{other:?}"),
        };
        action = stage_and_place_release(action, event, release);
    }
}

#[test]
fn a_placed_release_holds_just_the_download_and_stays() {
    let mut disk = Releases::new();
    disk.entry("old".to_string()).or_default().insert("tanuki.exe".to_string(), b"old".to_vec());
    disk.entry("new".to_string()).or_default().insert("junk".to_string(), b"stale".to_vec());
    place_on(&mut disk, "new", 7, b"first");
    assert_eq!(disk.len(), 2);
    assert_eq!(disk["new"].len(), 1);
    assert_eq!(disk["new"]["tanuki.exe"], b"first");
    let after = disk.clone();
    place_on(&mut disk, "new", 8, b"second");
    assert_eq!(disk, after);
    place_on(&mut disk, "old", 7, b"second");
    assert_eq!(disk, after);
}

#[test]
fn failed_placements_leave_no_staging_directory() {
    let last = |at| place(false, true, Some(at)).0;
    assert_eq!(
        last(PlaceAction::CopyDownload)[5..],
        [
            "DropStaging(\"failed to stage downloaded binary: broken\")",
            "Fail(\"failed to stage downloaded binary: broken\")"
        ]
    );
    assert_eq!(
        last(PlaceAction::Place)[6..],
        [
            "DropStaging(\"failed to place release: broken\")",
            "Fail(\"failed to place release: broken\")"
        ]
    );
    assert_eq!(
        last(PlaceAction::CreateStaging)[4..],
        ["Fail(\"failed to create staging dir: broken\")"]
    );
    assert_eq!(
        last(PlaceAction::ClearDirectory)[3..],
        ["Fail(\"failed to clear stale release dir R: broken\")"]
    );
}

#[test]
fn remove_stale_staging_dirs_deletes_only_staging_prefixed_dirs() {
    let names: Vec<String> = [
        ".staging.0.1.4-x86_64-pc-windows-msvc.1234",
        "0.1.3-x86_64-pc-windows-msvc",
        "x.staging.",
        ".staging.",
    ]
    .iter()
    .map(|s| s.to_string())
    .collect();
    assert_eq!(remove_stale_staging_dirs(&names), vec![0, 3]);
}

fn release(name: &str, modified: Option<i128>) -> ReleaseEntry {
    ReleaseEntry {
        path: format!("root/{name}"),
        canonical: format!("/real/{name}"),
        name: name.to_string(),
        is_dir: true,
        modified,
    }
}

#[test]
fn prune_old_releases_keeps_current_and_most_recent() {
    let entries: Vec<ReleaseEntry> =
        (0..5).map(|i| release(&format!("release-{i}"), Some(i))).collect();
    // Treat the *oldest* as current: it must survive whatever its age.
    let removed = prune_old_releases(&entries, "/real/release-0", 2);
    assert_eq!(removed, vec!["root/release-2", "root/release-1"]);
    assert_eq!(prune_old_releases(&entries, "/real/release-4", 2).len(), 3);
    assert!(prune_old_releases(&entries, "/real/release-0", 0).is_empty());
    assert!(prune_old_releases(&entries, "/real/release-0", 9).is_empty());
}

#[test]
fn pruning_looks_at_finished_releases_only() {
    let mut entries = vec![
        release("b", Some(5)),
        release("a", Some(5)),
        release(".staging.x", Some(0)),
        release("unknown", None),
        release("old", Some(-9)),
    ];
    entries.push(ReleaseEntry { is_dir: false, ..release("file", Some(-10)) });
    assert_eq!(prune_old_releases(&entries, "/real/none", 2), vec!["root/old"]);
    // Releases of the same age stay in order: the first ones are kept.
    assert_eq!(prune_old_releases(&entries, "/real/none", 1), vec!["root/a", "root/old"]);
}

/// What is at a link.
#[derive(Debug, Clone, PartialEq)]
enum Link {
    Nothing,
    Junction(String, bool),
    Dir(Vec<(String, bool)>),
    File,
}

/// Carries a change of a junction out.
fn change(link: &mut Link, target: &str, prefix: &str, legacy: bool) -> Result<(), String> {
    let (mut step, mut action) = set_managed_junction(
        "L".to_string(),
        Some("P".to_string()),
        target.to_string(),
        prefix.to_string(),
        legacy,
    );
    loop {
        let event = match action {
            JunctionAction::InspectEntry => JunctionEvent::Entry(match link {
                Link::Nothing => None,
                Link::Junction(..) => Some(true),
                _ => Some(false),
            }),
            JunctionAction::ResolveTarget => JunctionEvent::Resolves(match link {
                Link::Junction(_, resolves) => *resolves,
                _ => true,
            }),
            JunctionAction::InspectJunction => JunctionEvent::IsJunction(match link {
                Link::Junction(..) => Ok(true),
                Link::Dir(_) => Err(OsError {
                    code: Some(4390),
                    message: "The file or directory is not a reparse point".to_string(),
                }),
                _ => Ok(false),
            }),
            JunctionAction::ReadTarget => match link {
                Link::Junction(target, _) => JunctionEvent::Target(Ok(target.clone())),
                _ => panic!("no junction"),
            },
            JunctionAction::InspectDirectory => {
                JunctionEvent::IsDirectory(matches!(link, Link::Dir(_)))
            }
            JunctionAction::InspectContents => match link {
                Link::Dir(entries) => JunctionEvent::HasEntries(Ok(!entries.is_empty())),
                _ => panic!("no directory"),
            },
            JunctionAction::ListContents => match link {
                Link::Dir(entries) => JunctionEvent::Entries(Ok(entries
                    .iter()
                    .map(|(name, is_dir)| DirEntry { name: name.clone(), is_dir: *is_dir })
                    .collect())),
                _ => panic!("no directory"),
            },
            JunctionAction::DeleteJunction => {
                assert!(matches!(link, Link::Junction(..)));
                *link = Link::Dir(vec![]);
                JunctionEvent::Acted(Ok(()))
            }
            JunctionAction::RemoveLeftover | JunctionAction::RemoveEmptyDirectory => {
                assert_eq!(*link, Link::Dir(vec![]));
                *link = Link::Nothing;
                JunctionEvent::Acted(Ok(()))
            }
            JunctionAction::MoveAside => {
                *link = Link::Nothing;
                JunctionEvent::Acted(Ok(()))
            }
            JunctionAction::CreateParent => JunctionEvent::Acted(Ok(())),
            JunctionAction::CreateJunction => {
                assert_eq!(*link, Link::Nothing);
                *link = Link::Junction(target.to_string(), true);
                JunctionEvent::Acted(Ok(()))
            }
            JunctionAction::Done => return Ok(()),
            JunctionAction::Fail(message) => return Err(message),
        };
        action = step.step(event);
    }
}

#[test]
fn set_managed_junction_retargets_existing_valid_junction() {
    let mut link = Link::Junction(r"C:\root\release-0.1.5".to_string(), true);
    change(&mut link, r"C:\root\release-0.1.6", r"C:\root", false)
        .expect("retargets an existing valid junction to a new release");
    assert_eq!(link, Link::Junction(r"C:\root\release-0.1.6".to_string(), true));
}

#[test]
fn set_managed_junction_recreates_dangling_junction() {
    let mut link = Link::Junction(r"C:\root\old-release".to_string(), false);
    change(&mut link, r"C:\root\new-release", r"C:\root", false)
        .expect("recreates a dangling junction instead of erroring");
    assert_eq!(link, Link::Junction(r"C:\root\new-release".to_string(), true));
}

#[test]
fn set_managed_junction_replaces_plain_directory_not_created_as_junction() {
    let mut link = Link::Dir(vec![]);
    change(&mut link, r"C:\root\release-0.1.8", r"C:\root", false)
        .expect("replaces a plain, non-reparse-point directory with a junction");
    assert_eq!(link, Link::Junction(r"C:\root\release-0.1.8".to_string(), true));
}

#[test]
fn set_managed_junction_refuses_to_replace_plain_file() {
    let mut link = Link::File;
    let result = change(&mut link, r"C:\root\target-release", r"C:\root", false);
    assert!(result.is_err());
    assert_eq!(result.unwrap_err(), "refusing to replace file at L with a junction");
    assert_eq!(link, Link::File);
}

#[test]
fn foreign_links_are_left_alone() {
    let mut foreign = Link::Junction(r"D:\other".to_string(), true);
    let before = foreign.clone();
    assert_eq!(
        change(&mut foreign, r"C:\root\r", r"C:\root", true).unwrap_err(),
        "refusing to retarget junction at L because it is not managed by this installer"
    );
    assert_eq!(foreign, before);
    let mut full = Link::Dir(vec![("TANUKI.exe".to_string(), false)]);
    let before = full.clone();
    assert_eq!(
        change(&mut full, r"C:\root\r", r"C:\root", false).unwrap_err(),
        "refusing to replace non-empty directory at L with a junction"
    );
    assert_eq!(full, before);
    // Where that is allowed, an old installation is moved aside.
    change(&mut full, r"C:\root\r", r"C:\root", true).unwrap();
    assert_eq!(full, Link::Junction(r"C:\root\r".to_string(), true));
    let mut mixed = Link::Dir(vec![("tanuki.exe".to_string(), false), ("sub".to_string(), true)]);
    assert!(change(&mut mixed, r"C:\root\r", r"C:\root", true).is_err());
}

#[test]
fn a_correct_link_is_left_as_it_is() {
    let mut link = Link::Junction(r"c:\ROOT\r\".to_string(), true);
    let before = link.clone();
    change(&mut link, r"C:\root\r", r"C:\root\", false).unwrap();
    assert_eq!(link, before);
    let mut missing = Link::Nothing;
    change(&mut missing, "t", "p", false).unwrap();
    assert_eq!(missing, Link::Junction("t".to_string(), true));
}

#[test]
fn failures_of_a_change_are_worded_exactly() {
    let begin = || {
        set_managed_junction("L".into(), Some("P".into()), "t".into(), "p".into(), true).0
    };
    let err = || Err("e".to_string());
    let run = |events: Vec<JunctionEvent>| {
        let mut change = begin();
        let mut last = JunctionAction::InspectEntry;
        for event in events {
            last = change.step(event);
        }
        match last {
            JunctionAction::Fail(message) => message,
            other => panic!("no failure: {other:?}"),
        }
    };
    let entry = |link| JunctionEvent::Entry(Some(link));
    let other_error = OsError { code: Some(5), message: "denied".to_string() };
    assert_eq!(
        run(vec![
            entry(true),
            JunctionEvent::Resolves(true),
            JunctionEvent::IsJunction(Err(other_error))
        ]),
        "failed to inspect L: denied"
    );
    assert_eq!(
        run(vec![
            entry(true),
            JunctionEvent::Resolves(true),
            JunctionEvent::IsJunction(Ok(true)),
            JunctionEvent::Target(Err("e".to_string()))
        ]),
        "failed to read junction target at L: e"
    );
    assert_eq!(
        run(vec![entry(true), JunctionEvent::Resolves(false), JunctionEvent::Acted(err())]),
        "failed to remove stale junction at L: e"
    );
    assert_eq!(
        run(vec![
            entry(true),
            JunctionEvent::Resolves(false),
            JunctionEvent::Acted(Ok(())),
            JunctionEvent::Acted(err())
        ]),
        "failed to remove leftover directory at L after clearing its junction tag: e"
    );
    let plain = |mut rest: Vec<JunctionEvent>| {
        let mut events = vec![
            entry(false),
            JunctionEvent::Resolves(true),
            JunctionEvent::IsJunction(Ok(false)),
            JunctionEvent::IsDirectory(true),
        ];
        events.append(&mut rest);
        run(events)
    };
    assert_eq!(plain(vec![JunctionEvent::HasEntries(Err("e".to_string()))]), "failed to read L: e");
    assert_eq!(
        plain(vec![JunctionEvent::HasEntries(Ok(false)), JunctionEvent::Acted(err())]),
        "failed to remove empty directory at L: e"
    );
    assert_eq!(
        plain(vec![
            JunctionEvent::HasEntries(Ok(true)),
            JunctionEvent::Entries(Err("e".to_string()))
        ]),
        "failed to read L: e"
    );
    let old = vec![DirEntry { name: "tanuki.exe".to_string(), is_dir: false }];
    assert_eq!(
        plain(vec![
            JunctionEvent::HasEntries(Ok(true)),
            JunctionEvent::Entries(Ok(old)),
            JunctionEvent::Acted(err())
        ]),
        "failed to move legacy bin directory aside: e"
    );
    assert_eq!(
        run(vec![JunctionEvent::Entry(None), JunctionEvent::Acted(err())]),
        "failed to create P: e"
    );
    assert_eq!(
        run(vec![
            JunctionEvent::Entry(None),
            JunctionEvent::Acted(Ok(())),
            JunctionEvent::Acted(err())
        ]),
        "failed to create junction at L: e"
    );
    // A dangling entry that is no link is looked at as a directory.
    assert_eq!(
        run(vec![entry(false), JunctionEvent::Resolves(false), JunctionEvent::IsDirectory(false)]),
        "refusing to replace file at L with a junction"
    );
}

#[test]
fn paths_are_compared_without_case_and_trailing_separators() {
    assert_eq!(normalize_for_compare(r"C:\Foo/\\"), r"c:\foo");
    assert!(paths_equal_ignore_case(r"C:\A\", "c:\\a"));
    assert!(!paths_equal_ignore_case("a", "b"));
    assert!(path_starts_with_ignore_case(r"C:\A\b", r"c:\a\"));
    assert!(!path_starts_with_ignore_case(r"C:\A", r"c:\a\b"));
}

#[test]
fn old_installations_are_recognized() {
    let entry = |name: &str, is_dir| DirEntry { name: name.to_string(), is_dir };
    assert!(is_legacy_bin_dir(&[entry("x.dll", false), entry("Tanuki.EXE", false)]));
    assert!(!is_legacy_bin_dir(&[entry("x.dll", false)]));
    assert!(!is_legacy_bin_dir(&[entry("tanuki.exe", false), entry("d", true)]));
    assert!(!is_legacy_bin_dir(&[]));
    assert_eq!(random_suffix(255, 4096), "ff-1000");
    assert_eq!(migrate_legacy_bin_dir(Some("b"), 1, 2), "b.legacy.1-2");
    assert_eq!(migrate_legacy_bin_dir(None, 1, 2), "bin.legacy.1-2");
}

fn env(home: &str, profile: Option<&str>, install: &str, data: Option<&str>) -> InstallEnv {
    InstallEnv {
        tanuki_home: Some(home.to_string()),
        user_profile: profile.map(str::to_string),
        tanuki_install_dir: Some(install.to_string()),
        local_app_data: data.map(str::to_string),
    }
}

#[test]
fn tanuki_install_paths_resolve_honors_overrides() {
    let paths = TanukiInstallPaths::resolve(&env("home", None, "bin", None)).unwrap();
    assert_eq!(paths.standalone_root, ["home", "packages", "standalone"]);
    assert_eq!(paths.visible_bin_dir, ["bin"]);
    assert!(!paths.allow_legacy_bin_migration);
}

#[test]
fn install_paths_have_defaults() {
    let paths = TanukiInstallPaths::resolve(&env("", Some("P"), "", Some("D"))).unwrap();
    assert_eq!(paths.releases_dir, ["P", ".tanuki", "packages", "standalone", "releases"]);
    assert_eq!(paths.current_dir, ["P", ".tanuki", "packages", "standalone", "current"]);
    assert_eq!(paths.lock_path, ["P", ".tanuki", "packages", "standalone", "install.lock"]);
    assert_eq!(paths.visible_bin_dir, ["D", "Programs", "Tanuki", "bin"]);
    assert!(paths.allow_legacy_bin_migration);
    assert_eq!(
        paths.installed_tanuki_exe_path(),
        ["D", "Programs", "Tanuki", "bin", "tanuki.exe"]
    );
    assert_eq!(
        TanukiInstallPaths::resolve(&env("", None, "b", None)).unwrap_err(),
        "USERPROFILE is not set; cannot locate Tanuki install"
    );
    assert_eq!(
        TanukiInstallPaths::resolve(&env("h", None, "", None)).unwrap_err(),
        "LOCALAPPDATA is not set; cannot locate Tanuki install"
    );
}

#[test]
fn the_lock_is_retried_for_a_minute() {
    assert!(is_sharing_violation(Some(32)));
    assert!(is_sharing_violation(Some(5)));
    assert!(!is_sharing_violation(Some(2)));
    assert!(!is_sharing_violation(None));
    let mut waited = 0;
    let mut retries = 0;
    while let LockStep::Retry(total) = with_install_lock("k", Some(32), "busy", waited) {
        waited = total;
        retries += 1;
    }
    assert_eq!((retries, waited), (240, 60000));
    assert_eq!(
        with_install_lock("k", Some(32), "busy", 60000),
        LockStep::Fail("failed to acquire install lock at k: busy".to_string())
    );
    assert_eq!(
        with_install_lock("k", Some(2), "gone", 0),
        LockStep::Fail("failed to acquire install lock at k: gone".to_string())
    );
}

#[test]
fn installed_binaries_are_verified() {
    assert_eq!(verify_installed_binary("t", Ok(true)), Ok(()));
    assert_eq!(
        verify_installed_binary("t", Ok(false)),
        Err("installed Tanuki command failed verification: t --version".to_string())
    );
    assert_eq!(
        verify_installed_binary("t", Err("gone".to_string())),
        Err("installed Tanuki command failed verification: t --version (gone)".to_string())
    );
}

#[test]
fn the_steps_of_an_installation_go_in_order() {
    let mut step = InstallStep::CreateReleasesDir;
    let mut taken = vec![step];
    while step != InstallStep::Finished {
        match install_windows_update(step, Ok(()), "r") {
            InstallNext::Step(next) => step = next,
            other => panic!("{other:?}"),
        }
        taken.push(step);
    }
    assert_eq!(taken.len(), 11);
    assert_eq!(taken[6..8], [InstallStep::VerifyBinary, InstallStep::Prune]);
    assert_eq!(
        install_windows_update(InstallStep::VerifyBinary, Err("bad".to_string()), "r"),
        InstallNext::ReleaseAndFail("bad".to_string())
    );
    assert_eq!(
        install_windows_update(InstallStep::CreateReleasesDir, Err("e".to_string()), "r"),
        InstallNext::Fail("failed to create r: e".to_string())
    );
    assert_eq!(
        install_windows_update(InstallStep::TakeLock, Err("e".to_string()), "r"),
        InstallNext::Fail("e".to_string())
    );
    assert_eq!(
        install_windows_update(InstallStep::Prune, Err("e".to_string()), "r"),
        InstallNext::Step(InstallStep::ReleaseLock)
    );
    assert_eq!(create_failure("d", "e"), "failed to create d: e");
}
