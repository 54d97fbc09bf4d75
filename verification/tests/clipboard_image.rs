use std::collections::HashMap;
use tanuki::server::clipboard_image::cleanup_stale;
use tanuki::server::clipboard_image::ensure_files_staging_dir;
use tanuki::server::clipboard_image::ensure_staging_dir;
use tanuki::server::clipboard_image::files_staging_dir;
use tanuki::server::clipboard_image::restrict_dir_permissions;
use tanuki::server::clipboard_image::restrict_file_options;
use tanuki::server::clipboard_image::sanitize_extension;
use tanuki::server::clipboard_image::sanitize_file_name;
use tanuki::server::clipboard_image::stage;
use tanuki::server::clipboard_image::stage_file;
use tanuki::server::clipboard_image::staging_dir;
use tanuki::server::clipboard_image::truncate_file_name;
use tanuki::server::clipboard_image::Removal;
use tanuki::server::clipboard_image::StageAction;
use tanuki::server::clipboard_image::StageEvent;
use tanuki::server::clipboard_image::StagedEntry;
use tanuki::server::clipboard_image::Staging;
use tanuki::server::clipboard_image::MAX_STAGED_FILE_NAME_BYTES;
use tanuki::server::clipboard_image::STAGED_CLIPBOARD_IMAGE_MAX_AGE;

#[test]
fn sanitize_extension_accepts_known_image_extensions() {
    assert_eq!(sanitize_extension("PNG"), "png");
    assert_eq!(sanitize_extension("jpeg"), "jpg");
    assert_eq!(sanitize_extension("webp"), "webp");
    assert_eq!(sanitize_extension("sh"), "png");
}

#[test]
fn sanitize_extension_knows_every_image_type() {
    assert_eq!(sanitize_extension("JPG"), "jpg");
    assert_eq!(sanitize_extension("Gif"), "gif");
    assert_eq!(sanitize_extension("bMP"), "bmp");
    assert_eq!(sanitize_extension(""), "png");
}

#[test]
fn sanitize_file_name_keeps_only_the_last_component() {
    assert_eq!(sanitize_file_name("report.pdf"), "report.pdf");
    assert_eq!(sanitize_file_name("../../etc/passwd"), "passwd");
    assert_eq!(sanitize_file_name("C:\\Users\\me\\a.txt"), "a.txt");
    assert_eq!(sanitize_file_name("dir/sub\\b.log"), "b.log");
}

#[test]
fn sanitize_file_name_never_yields_dot_names_or_empty() {
    assert_eq!(sanitize_file_name(".."), "file");
    assert_eq!(sanitize_file_name("."), "file");
    assert_eq!(sanitize_file_name(""), "file");
    assert_eq!(sanitize_file_name("dir/"), "file");
    assert_eq!(sanitize_file_name(".bashrc"), "bashrc");
    assert_eq!(sanitize_file_name("...x"), "x");
}

#[test]
fn sanitize_file_name_replaces_spaces_control_and_reserved_chars() {
    assert_eq!(sanitize_file_name("my file (1).png"), "my_file_(1).png");
    assert_eq!(sanitize_file_name("a\tb\nc.txt"), "a_b_c.txt");
    assert_eq!(sanitize_file_name("a<b>:\"c|d?e*.txt"), "a_b__c_d_e_.txt");
    assert_eq!(sanitize_file_name("отчёт.pdf"), "отчёт.pdf");
}

#[test]
fn sanitize_file_name_truncates_long_names_but_keeps_extension() {
    let long = format!("{}.tar.gz", "a".repeat(400));
    let cleaned = sanitize_file_name(&long);
    assert!(cleaned.len() <= MAX_STAGED_FILE_NAME_BYTES);
    assert!(cleaned.ends_with(".gz"));

    // Multi-byte characters must not be split mid-character.
    let multibyte = format!("{}.txt", "я".repeat(200));
    let cleaned = sanitize_file_name(&multibyte);
    assert!(cleaned.len() <= MAX_STAGED_FILE_NAME_BYTES);
    assert!(cleaned.ends_with(".txt"));
}

#[test]
fn truncation_is_exact() {
    assert_eq!(
        sanitize_file_name(&format!("{}.tar.gz", "a".repeat(400))),
        format!("{}.gz", "a".repeat(125))
    );
    assert_eq!(
        sanitize_file_name(&format!("{}.txt", "я".repeat(200))),
        format!("{}.txt", "я".repeat(62))
    );
    // One byte more than fits: the stem gives way.
    assert_eq!(truncate_file_name("abcdefgh.x", 9), "abcdefg.x");
    assert_eq!(truncate_file_name("abcdefgh.x", 10), "abcdefgh.x");
    // Sixteen bytes are an extension, seventeen are not.
    let sixteen = format!("{}.{}", "s".repeat(40), "e".repeat(15));
    assert_eq!(truncate_file_name(&sixteen, 20), format!("ssss.{}", "e".repeat(15)));
    let seventeen = format!("{}.{}", "s".repeat(40), "e".repeat(16));
    assert_eq!(truncate_file_name(&seventeen, 20), "s".repeat(20));
    // An extension alone can be too long for the limit.
    assert_eq!(truncate_file_name("abc.def", 2), ".def");
    assert_eq!(truncate_file_name("я", 1), "");
}

#[test]
fn staged_names_are_safe_and_stay() {
    let long = format!("../{}é.{}", "x".repeat(300), "y".repeat(30));
    for name in [
        "", "..", "a/b\\c", " .hidden", "\u{1}\u{2}", "con:", "日本語 テキスト.png", &long, "a\u{3000}b",
        "...", "/", "\\", "x.", ".x.y.", "\u{85}\u{a0}",
    ] {
        let once = sanitize_file_name(name);
        assert!(!once.is_empty());
        assert!(once.len() <= 128);
        assert!(!once.starts_with('.'));
        assert!(once.chars().all(|c| !c.is_control()
            && !c.is_whitespace()
            && !"/\\<>:\"|?*".contains(c)));
        assert_eq!(sanitize_file_name(&once), once);
    }
}

/// Files and directories by name.
struct Disk {
    files: HashMap<String, Vec<u8>>,
    dirs: Vec<String>,
    full: bool,
}

impl Disk {
    fn new() -> Self {
        Disk { files: HashMap::new(), dirs: Vec::new(), full: false }
    }

    /// Carries one staging out; the path of what was staged.
    fn run(&mut self, mut staging: Staging, data: &[u8]) -> Result<String, String> {
        let mut action = staging.step(StageEvent::Begin);
        let mut claimed = String::new();
        let mut path = String::new();
        loop {
            let event = match action {
                StageAction::CreateFile(name) => {
                    if self.files.contains_key(&name) {
                        StageEvent::Exists
                    } else {
                        self.files.insert(name.clone(), Vec::new());
                        path = name;
                        StageEvent::Done
                    }
                }
                StageAction::CreateDir(name) => {
                    if self.dirs.contains(&name) {
                        StageEvent::Exists
                    } else {
                        self.dirs.push(name.clone());
                        claimed = name;
                        StageEvent::Done
                    }
                }
                StageAction::RestrictDir => StageEvent::Done,
                StageAction::WriteFileInDir(name) => {
                    if self.full {
                        StageEvent::Failed
                    } else {
                        path = format!("{claimed}/{name}");
                        self.files.insert(path.clone(), data.to_vec());
                        StageEvent::Done
                    }
                }
                StageAction::Write => {
                    self.files.insert(path.clone(), data.to_vec());
                    StageEvent::Done
                }
                StageAction::RemoveDir => {
                    self.dirs.retain(|dir| *dir != claimed);
                    return Err("disk full".to_string());
                }
                StageAction::Finished => return Ok(path),
                StageAction::Fail => return Err("failed".to_string()),
                StageAction::GiveUp(message) => return Err(message),
            };
            action = staging.step(event);
        }
    }
}

#[test]
fn stage_file_writes_bytes_under_the_staging_dir_with_the_clean_name() {
    let mut disk = Disk::new();
    let path = disk.run(stage_file(7, "../My Report.pdf", 123), b"pdf-bytes").unwrap();
    assert_eq!(path, "client-7-123-0/My_Report.pdf");
    assert_eq!(disk.files[&path], b"pdf-bytes");
}

#[test]
fn stage_file_never_overwrites_an_earlier_upload_of_the_same_name() {
    let mut disk = Disk::new();
    let first = disk.run(stage_file(1, "a.txt", 55), b"one").unwrap();
    let second = disk.run(stage_file(1, "a.txt", 55), b"two").unwrap();
    assert_ne!(first, second);
    assert_eq!(disk.files[&first], b"one");
    assert_eq!(disk.files[&second], b"two");
    assert_eq!(second, "client-1-55-1/a.txt");
}

#[test]
fn images_are_staged_under_the_first_free_name() {
    let mut disk = Disk::new();
    let first = disk.run(stage(3, "JPEG", 9), b"i").unwrap();
    assert_eq!(first, "client-3-clipboard-9-0.jpg");
    let second = disk.run(stage(3, "jpg", 9), b"j").unwrap();
    assert_eq!(second, "client-3-clipboard-9-1.jpg");
    assert_eq!(disk.files[&first], b"i");
}

#[test]
fn staging_gives_up_after_a_hundred_names() {
    let mut disk = Disk::new();
    for attempt in 0..100 {
        disk.dirs.push(format!("client-1-2-{attempt}"));
        disk.files.insert(format!("client-1-clipboard-2-{attempt}.png"), Vec::new());
    }
    assert_eq!(
        disk.run(stage_file(1, "a", 2), b""),
        Err("failed to allocate unique file staging directory".to_string())
    );
    assert_eq!(
        disk.run(stage(1, "png", 2), b""),
        Err("failed to allocate unique clipboard image staging path".to_string())
    );
    disk.dirs.pop();
    assert_eq!(disk.run(stage_file(1, "a", 2), b"").unwrap(), "client-1-2-99/a");
}

#[test]
fn a_failed_write_takes_its_directory_away() {
    let mut disk = Disk::new();
    disk.full = true;
    assert_eq!(disk.run(stage_file(1, "a", 2), b"x"), Err("disk full".to_string()));
    assert!(disk.dirs.is_empty());
}

#[test]
fn other_errors_end_the_staging() {
    let mut staging = stage_file(1, "a", 2);
    assert_eq!(
        staging.step(StageEvent::Begin),
        StageAction::CreateDir("client-1-2-0".to_string())
    );
    assert_eq!(staging.step(StageEvent::Failed), StageAction::Fail);
    let mut image = stage(1, "png", 2);
    image.step(StageEvent::Begin);
    assert_eq!(image.step(StageEvent::Done), StageAction::Write);
    assert_eq!(image.step(StageEvent::Failed), StageAction::Fail);
    let mut unrestricted = stage_file(1, "a", 2);
    unrestricted.step(StageEvent::Begin);
    assert_eq!(unrestricted.step(StageEvent::Done), StageAction::RestrictDir);
    assert_eq!(unrestricted.step(StageEvent::Failed), StageAction::Fail);
}

#[test]
fn staging_directories_belong_to_the_user() {
    assert_eq!(staging_dir(1000), "tanuki-clipboard-images-1000");
    assert_eq!(files_staging_dir(0), "tanuki-files-0");
    assert_eq!(restrict_dir_permissions(true), Some(0o700));
    assert_eq!(restrict_file_options(true), Some(0o600));
    assert_eq!(restrict_dir_permissions(false), None);
    assert_eq!(restrict_file_options(false), None);
    assert_eq!(ensure_staging_dir(true, "/tmp/x"), Ok(()));
    assert_eq!(
        ensure_staging_dir(false, "/tmp/x"),
        Err("clipboard image staging path is not a directory: /tmp/x".to_string())
    );
    assert_eq!(
        ensure_files_staging_dir(false, "/tmp/y"),
        Err("file staging path is not a directory: /tmp/y".to_string())
    );
}

fn entry(path: &str, modified: Option<i128>, is_dir: bool) -> StagedEntry {
    StagedEntry { path: path.to_string(), modified, is_dir }
}

#[test]
fn only_entries_older_than_a_day_are_removed() {
    let day = STAGED_CLIPBOARD_IMAGE_MAX_AGE;
    let now = 10 * day;
    let entries = vec![
        entry("new", Some(now), false),
        entry("exactly", Some(now - day), false),
        entry("old", Some(now - day - 1), false),
        entry("unknown", None, false),
        entry("olddir", Some(-5), true),
        entry("future", Some(now + 3 * day), true),
    ];
    assert_eq!(
        cleanup_stale(&entries, now),
        vec![Removal::File("old".to_string()), Removal::Dir("olddir".to_string())]
    );
    assert_eq!(cleanup_stale(&[entry("x", Some(i128::MIN), false)], i128::MIN), vec![]);
}

#[test]
fn runs_of_reserved_characters_leave_two_underscores() {
    assert_eq!(sanitize_file_name("a?b"), "a_b");
    assert_eq!(sanitize_file_name("a?:b"), "a__b");
    assert_eq!(sanitize_file_name("a???????b ?c"), "a__b__c");
    assert_eq!(sanitize_file_name("a_?_?_b"), "a_____b");
    // Only reserved characters: every space and every control character leaves its own.
    assert_eq!(sanitize_file_name("a   b.txt"), "a___b.txt");
    assert_eq!(sanitize_file_name("a\t\n\r\u{7}b"), "a____b");
    assert_eq!(sanitize_file_name("a?? ??b"), "a_____b");
}

#[test]
fn uploads_never_touch_what_was_there() {
    let mut disk = Disk::new();
    let mut paths = Vec::new();
    for round in 0..5u8 {
        paths.push(disk.run(stage_file(1, "../My Report.pdf", 9), &[round]).unwrap());
        for (earlier, path) in paths.iter().enumerate() {
            assert_eq!(disk.files[path], [earlier as u8]);
            assert!(path.ends_with("/My_Report.pdf"));
        }
    }
    paths.sort();
    paths.dedup();
    assert_eq!(paths.len(), 5);
}
