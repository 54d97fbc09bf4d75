use tanuki::client::send::check_metadata;
use tanuki::client::send::read_local_files;
use tanuki::client::send::send_files_over;
use tanuki::client::send::FileMeta;
use tanuki::client::send::FileProbe;
use tanuki::client::send::LocalFile;
use tanuki::client::send::ReplyLimit;
use tanuki::client::send::StagedFile;
use tanuki::client::send::UploadAction;
use tanuki::client::send::UploadEvent;
use tanuki::protocol::ClientKeybindings;
use tanuki::protocol::ClientLaunchMode;
use tanuki::protocol::ClientMessage;
use tanuki::protocol::RenderEncoding;
use tanuki::protocol::ServerMessage;

const PROTOCOL_VERSION: u32 = 19;

fn welcome_ok() -> ServerMessage {
    ServerMessage::Welcome {
        version: PROTOCOL_VERSION,
        encoding: RenderEncoding::TerminalAnsi,
        error: None,
    }
}

fn file(name: &str, data: &[u8]) -> LocalFile {
    LocalFile { name: name.to_owned(), data: data.to_vec() }
}

/// Plays back canned server messages; what was sent, and what came of it.
fn converse(
    messages: Vec<ServerMessage>,
    files: Vec<LocalFile>,
) -> (Vec<ClientMessage>, Result<Vec<StagedFile>, String>) {
    let mut incoming = messages.into_iter();
    let mut sent = Vec::new();
    let (mut upload, mut action) = send_files_over(PROTOCOL_VERSION, files);
    loop {
        let event = match action {
            UploadAction::Send(message) => {
                sent.push(message);
                UploadEvent::Sent(Ok(()))
            }
            UploadAction::Receive(_) => {
                UploadEvent::Received(incoming.next().ok_or("end of stream".to_owned()))
            }
            UploadAction::Finish => return (sent, Ok(upload.into_staged())),
            UploadAction::Fail(message) => return (sent, Err(message)),
            UploadAction::Nothing => panic!("nothing to do"),
        };
        action = upload.step(event);
    }
}

#[test]
fn send_reports_the_staged_path_and_sends_hello_then_file_then_detach() {
    let (sent, result) = converse(
        vec![
            welcome_ok(),
            ServerMessage::FileStaged {
                name: "a.txt".into(),
                path: Some("/tmp/tanuki-files-1/x/a.txt".into()),
                error: None,
            },
        ],
        vec![file("a.txt", b"hello")],
    );

    assert_eq!(
        result.unwrap(),
        vec![StagedFile {
            name: "a.txt".into(),
            result: Ok("/tmp/tanuki-files-1/x/a.txt".into()),
        }]
    );

    let mut sent = sent.into_iter();
    match sent.next().unwrap() {
        ClientMessage::Hello { version, launch_mode, .. } => {
            assert_eq!(version, PROTOCOL_VERSION);
            // Must not be an app client: that would steal foreground and resize the session.
            assert_eq!(launch_mode, ClientLaunchMode::TerminalAttach);
        }
        other => panic!("expected Hello first, got {other:?}"),
    }
    match sent.next().unwrap() {
        ClientMessage::ClipboardFile { name, data, paste } => {
            assert_eq!(name, "a.txt");
            assert_eq!(data, b"hello");
            assert!(!paste, "send must not paste into a pane");
        }
        other => panic!("expected ClipboardFile, got {other:?}"),
    }
    assert!(matches!(sent.next().unwrap(), ClientMessage::Detach));
    assert!(sent.next().is_none());
}

#[test]
fn send_skips_unrelated_server_messages_while_waiting_for_the_reply() {
    let (_, result) = converse(
        vec![
            welcome_ok(),
            ServerMessage::ReloadSoundConfig,
            ServerMessage::MouseCapture { enabled: true },
            ServerMessage::FileStaged {
                name: "other.txt".into(),
                path: Some("/tmp/other".into()),
                error: None,
            },
            ServerMessage::FileStaged {
                name: "a.txt".into(),
                path: Some("/tmp/a".into()),
                error: None,
            },
        ],
        vec![file("a.txt", b"x")],
    );
    let staged = result.unwrap();

    assert_eq!(staged[0].result, Ok("/tmp/a".to_owned()));
}

#[test]
fn send_surfaces_a_server_side_staging_error_per_file() {
    let (_, result) = converse(
        vec![
            welcome_ok(),
            ServerMessage::FileStaged {
                name: "a.txt".into(),
                path: None,
                error: Some("No space left on device".into()),
            },
            ServerMessage::FileStaged {
                name: "b.txt".into(),
                path: Some("/tmp/b".into()),
                error: None,
            },
        ],
        vec![file("a.txt", b"x"), file("b.txt", b"y")],
    );
    let staged = result.unwrap();

    assert_eq!(staged[0].result, Err("No space left on device".to_owned()));
    assert_eq!(staged[1].result, Ok("/tmp/b".to_owned()));
}

#[test]
fn send_fails_clearly_when_the_server_rejects_the_handshake() {
    let (_, result) = converse(
        vec![ServerMessage::Welcome {
            version: 99,
            encoding: RenderEncoding::SemanticFrame,
            error: Some("client version 19 is older than server version 99".into()),
        }],
        vec![file("a.txt", b"x")],
    );
    let err = result.unwrap_err();

    assert!(err.contains("older than server version"));
}

#[test]
fn send_fails_when_the_connection_drops_before_the_reply() {
    let (_, result) = converse(vec![welcome_ok()], vec![file("a.txt", b"x")]);
    let err = result.unwrap_err();

    assert!(err.contains("lost connection"));
}

#[test]
fn send_fails_when_the_server_shuts_down() {
    let (_, result) = converse(
        vec![
            welcome_ok(),
            ServerMessage::ServerShutdown { reason: Some("live update".into()) },
        ],
        vec![file("a.txt", b"x")],
    );
    let err = result.unwrap_err();

    assert!(err.contains("live update"));
}

#[test]
fn failures_are_worded_exactly() {
    let failure = |messages| converse(messages, vec![file("a", b"")]).1.unwrap_err();
    assert_eq!(failure(vec![]), "failed to read welcome: end of stream");
    assert_eq!(
        failure(vec![ServerMessage::ReloadSoundConfig]),
        "expected Welcome from the server"
    );
    assert_eq!(
        failure(vec![ServerMessage::Welcome {
            version: 1,
            encoding: RenderEncoding::TerminalAnsi,
            error: Some("no".into()),
        }]),
        "server rejected the connection: no"
    );
    assert_eq!(failure(vec![welcome_ok()]), "lost connection while sending a: end of stream");
    assert_eq!(
        failure(vec![welcome_ok(), ServerMessage::ServerShutdown { reason: None }]),
        "server is shutting down"
    );
    assert_eq!(
        failure(vec![welcome_ok(), ServerMessage::ServerShutdown { reason: Some("x".into()) }]),
        "server is shutting down: x"
    );

    let (mut upload, _) = send_files_over(1, vec![file("f", b"")]);
    assert_eq!(
        upload.step(UploadEvent::Sent(Err("broken pipe".into()))),
        UploadAction::Fail("failed to send hello: broken pipe".into())
    );
    let (mut upload, _) = send_files_over(1, vec![file("f", b"")]);
    assert_eq!(
        upload.step(UploadEvent::Sent(Ok(()))),
        UploadAction::Receive(ReplyLimit::Frame)
    );
    upload.step(UploadEvent::Received(Ok(welcome_ok())));
    assert_eq!(
        upload.step(UploadEvent::Sent(Err("broken pipe".into()))),
        UploadAction::Fail("failed to send f: broken pipe".into())
    );
    assert_eq!(upload.step(UploadEvent::Sent(Ok(()))), UploadAction::Nothing);
}

#[test]
fn a_reply_without_path_and_error_is_an_error() {
    let (_, result) = converse(
        vec![
            welcome_ok(),
            ServerMessage::FileStaged { name: "a".into(), path: None, error: None },
        ],
        vec![file("a", b"")],
    );
    assert_eq!(
        result.unwrap()[0].result,
        Err("server reported no path and no error".to_owned())
    );
}

#[test]
fn the_whole_conversation_goes_in_order() {
    let (sent, result) = converse(
        vec![
            welcome_ok(),
            ServerMessage::FileStaged { name: "a".into(), path: Some("1".into()), error: None },
            ServerMessage::FileStaged { name: "b".into(), path: Some("2".into()), error: None },
        ],
        vec![file("a", b"A"), file("b", b"B")],
    );
    assert_eq!(
        sent,
        vec![
            ClientMessage::Hello {
                version: PROTOCOL_VERSION,
                cols: 80,
                rows: 24,
                cell_width_px: 0,
                cell_height_px: 0,
                requested_encoding: RenderEncoding::TerminalAnsi,
                keybindings: ClientKeybindings::Server,
                launch_mode: ClientLaunchMode::TerminalAttach,
            },
            ClientMessage::ClipboardFile { name: "a".into(), data: b"A".to_vec(), paste: false },
            ClientMessage::ClipboardFile { name: "b".into(), data: b"B".to_vec(), paste: false },
            ClientMessage::Detach,
        ]
    );
    assert_eq!(result.unwrap().len(), 2);
    // Without files the greeting and the leave remain.
    let (sent, result) = converse(vec![welcome_ok()], vec![]);
    assert_eq!(sent.len(), 2);
    assert_eq!(result.unwrap(), vec![]);
}

fn probe(display: &str, is_file: bool, len: u64, data: &[u8]) -> FileProbe {
    FileProbe {
        display: display.to_owned(),
        file_name: display.rsplit('/').next().map(str::to_owned),
        meta: Ok(FileMeta { is_file, len }),
        content: Ok(data.to_vec()),
    }
}

#[test]
fn read_local_files_uses_the_file_name_and_rejects_missing_and_directories() {
    let files = read_local_files(vec![probe("/tmp/d/note.txt", true, 7, b"content")], 100).unwrap();
    assert_eq!(files, vec![file("note.txt", b"content")]);

    let missing = FileProbe {
        display: "/tmp/d/missing.txt".to_owned(),
        file_name: Some("missing.txt".to_owned()),
        meta: Err("No such file or directory".to_owned()),
        content: Err("unread".to_owned()),
    };
    assert_eq!(
        read_local_files(vec![missing], 100).unwrap_err(),
        "/tmp/d/missing.txt: No such file or directory"
    );
    let err = read_local_files(vec![probe("/tmp/d", false, 0, b"")], 100).unwrap_err();
    assert!(err.contains("not a regular file"));
}

#[test]
fn the_limit_holds_before_and_after_reading() {
    assert_eq!(
        read_local_files(vec![probe("f", true, 11, b"")], 10).unwrap_err(),
        "f: 11 bytes exceeds the 10 byte limit"
    );
    assert_eq!(
        read_local_files(vec![probe("f", true, 10, b"12345678901")], 10).unwrap_err(),
        "f: grew past the 10 byte limit while reading"
    );
    assert_eq!(
        read_local_files(vec![probe("f", true, 10, b"1234567890")], 10).unwrap()[0].data.len(),
        10
    );
    assert_eq!(check_metadata("f", &Ok(FileMeta { is_file: true, len: 3 }), 10), Ok(11));
    assert_eq!(
        check_metadata("f", &Ok(FileMeta { is_file: true, len: 3 }), u64::MAX),
        Ok(u64::MAX as u128 + 1)
    );
    let unreadable = FileProbe { content: Err("denied".to_owned()), ..probe("f", true, 1, b"") };
    assert_eq!(read_local_files(vec![unreadable], 10).unwrap_err(), "f: denied");
    let nameless = FileProbe { file_name: None, ..probe("f", true, 1, b"x") };
    assert_eq!(read_local_files(vec![nameless], 10).unwrap(), vec![file("file", b"x")]);
}

#[test]
fn the_first_bad_path_decides() {
    let list = vec![probe("a", true, 1, b"a"), probe("b", false, 1, b""), probe("c", true, 99, b"")];
    assert_eq!(read_local_files(list, 10).unwrap_err(), "b: not a regular file");
    assert_eq!(read_local_files(vec![], 10).unwrap(), vec![]);
}
