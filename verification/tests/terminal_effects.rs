use tanuki::noninteractive_process::curl_command;
use tanuki::terminal_effects::write_window_title;

#[test]
fn window_title_strips_terminators_and_defaults_to_tanuki() {
    let mut output = Vec::new();
    write_window_title(&mut output, Some("tanuki\x1b api\u{7}\u{9c}"));
    assert_eq!(output, b"\x1b]0;tanuki api\x07");

    output.clear();
    write_window_title(&mut output, None);
    assert_eq!(output, b"\x1b]0;tanuki\x07");
}

#[test]
fn window_title_keeps_other_text_and_appends() {
    let mut output = b"x".to_vec();
    write_window_title(&mut output, Some("тест"));
    let mut expected = b"x\x1b]0;".to_vec();
    expected.extend_from_slice("тест".as_bytes());
    expected.push(7);
    assert_eq!(output, expected);
    write_window_title(&mut output, Some(""));
    expected.extend_from_slice(b"\x1b]0;\x07");
    assert_eq!(output, expected);
}

#[test]
fn curl_is_held_to_an_older_tls_on_windows() {
    assert_eq!(curl_command(true), vec!["--tlsv1.2", "--tls-max", "1.2"]);
    assert!(curl_command(false).is_empty());
}
