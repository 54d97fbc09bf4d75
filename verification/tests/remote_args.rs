use tanuki::remote::extract_cloud_args;
use tanuki::remote::is_remote_auth_error;
use tanuki::remote::remote_error_hint;
use tanuki::remote::shell_quote;
use tanuki::remote::ssh_check_command;
use tanuki::remote::validate_cloud_target;

fn args(list: &[&str]) -> Vec<String> {
    list.iter().map(|s| s.to_string()).collect()
}

#[test]
fn remote_auth_error_matches_ssh_auth_denied() {
    assert!(is_remote_auth_error(
        "remote platform detection failed: user@host: Permission denied (publickey)."
    ));
}

#[test]
fn remote_auth_error_matches_keyboard_interactive_denied() {
    assert!(is_remote_auth_error(
        "remote server status failed: user@host: Permission denied (keyboard-interactive)."
    ));
}

#[test]
fn remote_auth_error_ignores_non_auth_errors() {
    assert!(!is_remote_auth_error(
        "remote platform detection failed: unsupported platform"
    ));
    assert!(!is_remote_auth_error("Permission denied"));
    assert!(!is_remote_auth_error("(password"));
    assert!(is_remote_auth_error("(password) Permission denied"));
}

#[test]
fn ssh_check_command_quotes_remote_target() {
    assert_eq!(ssh_check_command("host name"), "ssh 'host name'");
    assert_eq!(ssh_check_command("user@host"), "ssh user@host");
}

#[test]
fn shell_quote_leaves_plain_words_and_quotes_the_rest() {
    assert_eq!(shell_quote("a@b%c_d+e=f:g,h.i/j-k9Z"), "a@b%c_d+e=f:g,h.i/j-k9Z");
    assert_eq!(shell_quote(""), "''");
    assert_eq!(shell_quote("it's"), "'it'\\''s'");
    assert_eq!(shell_quote("''"), "''\\'''\\'''");
    assert_eq!(shell_quote("a\\b"), "'a\\b'");
    assert_eq!(shell_quote("привет"), "'привет'");
    assert_eq!(shell_quote("$(x)"), "'$(x)'");
}

/// Reads one word as a POSIX shell does.
fn read_word(s: &str) -> String {
    let mut out = String::new();
    let mut quoted = false;
    let mut chars = s.chars();
    while let Some(c) = chars.next() {
        if c == '\'' {
            quoted = !quoted;
        } else if c == '\\' && !quoted {
            out.push(chars.next().unwrap());
        } else {
            out.push(c);
        }
    }
    assert!(!quoted);
    out
}

#[test]
fn quoted_words_read_back() {
    for value in ["", "plain", "two words", "it's", "'", "a'b'c", "\\", "\\'", "\"", "\n"] {
        assert_eq!(read_word(&shell_quote(value)), value);
    }
}

#[test]
fn cloud_flag_is_taken_out_in_both_forms() {
    assert_eq!(
        extract_cloud_args(&args(&["tanuki", "--cloud", "dev-1", "attach"])),
        Ok((args(&["tanuki", "attach"]), Some("dev-1".to_string())))
    );
    assert_eq!(
        extract_cloud_args(&args(&["tanuki", "-v", "--cloud=dev-1"])),
        Ok((args(&["tanuki", "-v"]), Some("dev-1".to_string())))
    );
    assert_eq!(extract_cloud_args(&args(&[])), Ok((args(&[]), None)));
    assert_eq!(
        extract_cloud_args(&args(&["--cloud", "x"])),
        Ok((args(&["--cloud", "x"]), None))
    );
}

#[test]
fn cloud_flag_complaints() {
    assert_eq!(
        extract_cloud_args(&args(&["t", "--cloud"])),
        Err("missing value for --cloud".to_string())
    );
    assert_eq!(
        extract_cloud_args(&args(&["t", "--cloud="])),
        Err("missing value for --cloud".to_string())
    );
    assert_eq!(
        extract_cloud_args(&args(&["t", "--cloud", ""])),
        Err("missing value for --cloud".to_string())
    );
    assert_eq!(
        extract_cloud_args(&args(&["t", "--cloud", "--"])),
        Err("--cloud target must not start with '-'".to_string())
    );
    assert_eq!(
        extract_cloud_args(&args(&["t", "--cloud=-x"])),
        Err("--cloud target must not start with '-'".to_string())
    );
    assert_eq!(
        extract_cloud_args(&args(&["t", "--cloud=a", "--cloud"])),
        Err("--cloud can only be specified once".to_string())
    );
    assert_eq!(
        extract_cloud_args(&args(&["t", "--cloud", "a", "--cloud=b"])),
        Err("--cloud can only be specified once".to_string())
    );
    assert_eq!(validate_cloud_target("dev"), Ok("dev"));
}

#[test]
fn arguments_after_double_dash_are_kept() {
    let line = args(&["t", "run", "--", "--cloud", "x", "--cloud=y"]);
    assert_eq!(extract_cloud_args(&line), Ok((line.clone(), None)));
    assert_eq!(
        extract_cloud_args(&args(&["t", "--cloud", "d", "--", "--cloud"])),
        Ok((args(&["t", "--", "--cloud"]), Some("d".to_string())))
    );
}

#[test]
fn extracting_twice_changes_nothing() {
    let (cleaned, _) = extract_cloud_args(&args(&["t", "a", "--cloud=d", "--cloudy", "b"])).unwrap();
    assert_eq!(cleaned, args(&["t", "a", "--cloudy", "b"]));
    assert_eq!(extract_cloud_args(&cleaned), Ok((cleaned.clone(), None)));
}

#[test]
fn hints_are_given_for_refused_credentials_only() {
    assert_eq!(remote_error_hint("no route to host", "box"), args(&[]));
    assert_eq!(
        remote_error_hint("Permission denied (publickey).", "my box"),
        args(&[
            "hint: verify SSH access first with `ssh 'my box'`.",
            "hint: if your SSH key has a passphrase, load it into ssh-agent with `ssh-add` before running `tanuki --remote`.",
        ])
    );
}
