use tanuki::remote::batch::BatchStep;
use tanuki::remote::batch::Batcher;
use tanuki::remote::duplex::CloudDuplex;
use tanuki::remote::duplex::ReadDeadline;
use tanuki::remote::duplex::ReadStep;
use tanuki::remote::host::cloud_ice_servers;
use tanuki::remote::host::CloseStep;
use tanuki::remote::host::CloudHostTransport;
use tanuki::remote::host::Detached;
use tanuki::remote::host::GraceTimer;
use tanuki::remote::host::Heartbeat;
use tanuki::remote::host::InputStep;
use tanuki::remote::host::ReattachRequest;
use tanuki::remote::host::ReattachStep;
use tanuki::remote::legion::home_dir;
use tanuki::remote::legion::home_variable;
use tanuki::remote::legion::incomplete_config;
use tanuki::remote::legion::legion_config_path;
use tanuki::remote::legion::unreadable_config;
use tanuki::remote::reconnect::next_delay;
use tanuki::remote::reconnect::ReconnectAction;
use tanuki::remote::reconnect::ReconnectEvent;
use tanuki::remote::replay::ReplayBuffer;
use tanuki::remote::replay::ReplayError;
use tanuki::remote::replay::REPLAY_BUFFER_CAPACITY;
use tanuki::remote::viewer::attach_deadline;
use tanuki::remote::viewer::attach_timeout_message;
use tanuki::remote::viewer::generate_viewer_session_id;
use tanuki::remote::viewer::signal_attach_result;
use tanuki::remote::viewer::wait_for_attach_result;
use tanuki::remote::viewer::AttachWait;
use tanuki::remote::viewer::CloudViewer;
use tanuki::remote::webrtc_p2p::candidate_type_rank;
use tanuki::remote::webrtc_p2p::default_ice_servers;
use tanuki::remote::webrtc_p2p::parse_candidate_type;
use tanuki::remote::webrtc_p2p::stage_failure;
use tanuki::remote::webrtc_p2p::BestCandidate;
use tanuki::remote::webrtc_p2p::Negotiation;
use tanuki::remote::webrtc_p2p::RemoteSignal;
use tanuki::remote::webrtc_p2p::SignalStep;
use tanuki::remote::webrtc_p2p::Stage;
use tanuki::remote::wire::attach;
use tanuki::remote::wire::encode_bytes_field;
use tanuki::remote::wire::host_bye;
use tanuki::remote::wire::host_hello;
use tanuki::remote::wire::input;
use tanuki::remote::wire::reattach;
use tanuki::remote::wire::reattach_ack;
use tanuki::remote::wire::reattach_error;
use tanuki::remote::wire::JsonContent;
use tanuki::remote::wire::JsonValue;
use tanuki::remote::wire::Payload;

fn string(text: &str) -> JsonValue {
    JsonValue { content: JsonContent::Text(text.into()), json: format!("{text:?}") }
}

fn number(n: u64) -> JsonValue {
    JsonValue { content: JsonContent::Whole(n), json: format!("{n}") }
}

fn object(members: Vec<(&str, JsonValue)>) -> Payload {
    Payload::Text(vec![JsonValue {
        content: JsonContent::Object(members.into_iter().map(|(k, v)| (k.to_string(), v)).collect()),
        json: "{}".into(),
    }])
}

fn viewer_event(sid: &str, session: Option<&str>) -> Payload {
    let mut members = vec![("viewer_sid", string(sid))];
    if let Some(session) = session {
        members.push(("viewer_session_id", string(session)));
    }
    object(members)
}

fn reattach_event(sid: &str, session: &str, last_seq: u64) -> Payload {
    object(vec![
        ("viewer_sid", string(sid)),
        ("viewer_session_id", string(session)),
        ("last_seq", number(last_seq)),
    ])
}

fn frame_event(bytes: &[u8]) -> Payload {
    Payload::Text(vec![string(&encode_bytes_field(bytes))])
}

fn read_all(duplex: &mut CloudDuplex<u8>) -> Vec<u8> {
    match duplex.read(1 << 20, None, 0, false) {
        ReadStep::Data(bytes) => bytes,
        _ => Vec::new(),
    }
}

// Replay

#[test]
fn replay_gives_back_the_stream() {
    let mut buffer = ReplayBuffer::new();
    buffer.push(b"hello ");
    buffer.push(b"");
    buffer.push(b"world");
    assert_eq!(buffer.replay_from(0), Ok((b"hello world".to_vec(), 11)));
    assert_eq!(buffer.replay_from(6), Ok((b"world".to_vec(), 11)));
    assert_eq!(buffer.replay_from(11), Ok((Vec::new(), 11)));
    assert_eq!(buffer.replay_from(12), Err(ReplayError::TooFarBehind));
}

#[test]
fn replay_keeps_the_newest_bytes_only() {
    let mut buffer = ReplayBuffer::new();
    buffer.push(&vec![1; REPLAY_BUFFER_CAPACITY]);
    buffer.push(&[2, 3]);
    let total = REPLAY_BUFFER_CAPACITY as u64 + 2;
    assert_eq!(buffer.replay_from(1), Err(ReplayError::TooFarBehind));
    let (bytes, next) = buffer.replay_from(2).unwrap();
    assert_eq!((bytes.len(), next), (REPLAY_BUFFER_CAPACITY, total));
    assert_eq!(bytes[bytes.len() - 3..], [1, 2, 3]);
    assert_eq!(buffer.replay_from(total - 1), Ok((vec![3], total)));
}

// Duplex

#[test]
fn a_duplex_delivers_in_order_and_ends_when_closed() {
    let mut duplex: CloudDuplex<u8> = CloudDuplex::new(0);
    assert_eq!(duplex.read(0, None, 0, false), ReadStep::Data(vec![]));
    assert_eq!(duplex.read(4, None, 0, false), ReadStep::Wait(None));
    duplex.push(b"abc");
    duplex.push_p2p(b"def");
    assert_eq!(duplex.read(4, None, 0, false), ReadStep::Data(b"abcd".to_vec()));
    duplex.close();
    duplex.push(b"late");
    assert_eq!(duplex.read(4, None, 0, false), ReadStep::Data(b"ef".to_vec()));
    assert_eq!(duplex.read(4, None, 0, false), ReadStep::Eof);
    assert!(duplex.replay_from(0).is_none());
}

#[test]
fn reads_time_out() {
    let mut duplex: CloudDuplex<u8> = CloudDuplex::new(0);
    assert_eq!(duplex.read_deadline(5), None);
    duplex.set_recv_timeout(Some(10));
    let deadline = duplex.read_deadline(5);
    assert_eq!(deadline, Some(ReadDeadline { started: 5, timeout: 10 }));
    assert_eq!(duplex.read(1, deadline, 7, false), ReadStep::Wait(Some(8)));
    assert_eq!(duplex.read(1, deadline, 7, true), ReadStep::TimedOut);
    assert_eq!(duplex.read(1, deadline, 15, false), ReadStep::TimedOut);
    // A time that has run out ends this read only; a time that could never end fits too.
    assert_eq!(duplex.read_deadline(20), Some(ReadDeadline { started: 20, timeout: 10 }));
    duplex.set_recv_timeout(Some(u128::MAX));
    let endless = duplex.read_deadline(u128::MAX);
    assert_eq!(duplex.read(1, endless, u128::MAX, false), ReadStep::Wait(Some(u128::MAX)));
    duplex.push(b"x");
    assert_eq!(duplex.read(1, deadline, 99, true), ReadStep::Data(b"x".to_vec()));
    duplex.set_recv_timeout(None);
    assert_eq!(duplex.read_deadline(5), None);
}

#[test]
fn writes_are_kept_for_replay_whatever_they_go_through() {
    let mut duplex: CloudDuplex<u8> = CloudDuplex::new_with_replay(1);
    assert_eq!(*duplex.write(b"ab"), 1);
    assert_eq!(*duplex.write_fn(), 1);
    duplex.set_write_fn(2);
    assert_eq!(*duplex.write(b"c"), 2);
    assert_eq!(*duplex.write(b"d"), 2);
    assert_eq!(*duplex.write_fn(), 2);
    assert_eq!(duplex.replay_from(1), Some(Ok((b"bcd".to_vec(), 4))));
    assert_eq!(duplex.replay_from(5), Some(Err(ReplayError::TooFarBehind)));
}

// Host

#[test]
fn a_host_registers_and_keeps_registering() {
    let mut host = CloudHostTransport::new();
    assert_eq!(host.heartbeat(), Heartbeat::Skip);
    assert_eq!(host.hello_retry(), None);
    assert_eq!(host.open(), host_hello());
    assert_eq!(host.heartbeat(), Heartbeat::Send(host_hello()));
    assert_eq!(host.hello_rejected(&object(vec![("reason", string("host_already_active"))])), "host_already_active");
    assert_eq!(host.hello_retry(), Some(host_hello()));
    assert_eq!(host.shutdown(), Some(host_bye()));
    assert_eq!(host.heartbeat(), Heartbeat::Stop);
    assert_eq!(host.closed(), CloseStep::Expected);
    let mut early = CloudHostTransport::new();
    assert_eq!(early.shutdown(), None);
    assert!(cloud_ice_servers().is_empty());
}

#[test]
fn viewers_attach_and_send_input() {
    let mut host = CloudHostTransport::new();
    assert!(host.peer_attached(&object(vec![]), 1).is_none());
    let viewer = host.peer_attached(&viewer_event("v1", Some("s1")), 1).unwrap();
    assert_eq!((viewer.viewer_sid.as_str(), viewer.viewer_session_id.as_str()), ("v1", "s1"));
    let older = host.peer_attached(&viewer_event("v2", None), 2).unwrap();
    assert_eq!(older.viewer_session_id, "v2");
    assert_eq!(host.attached_viewer_count(), 2);
    let input = |sid: &str, bytes: &str| {
        object(vec![("viewer_sid", string(sid)), ("bytes", string(bytes))])
    };
    assert_eq!(host.input(&input("v1", "aGk=")), InputStep::Deliver(1, b"hi".to_vec()));
    assert_eq!(host.input(&input("v9", "aGk=")), InputStep::Unknown("v9".to_string()));
    assert_eq!(host.input(&input("v1", "!")), InputStep::Malformed);
    assert_eq!(host.input(&Payload::Other), InputStep::Malformed);
}

#[test]
fn signals_go_to_the_negotiation_of_their_viewer() {
    let mut host = CloudHostTransport::new();
    host.peer_attached(&viewer_event("v1", Some("s1")), 4);
    let offer = object(vec![("viewer_sid", string("v1")), ("sdp", string("o"))]);
    assert_eq!(host.webrtc_offer(&offer), Some((4, RemoteSignal::Offer("o".into()))));
    let ice = object(vec![("viewer_sid", string("v1")), ("candidate", number(3))]);
    assert_eq!(host.webrtc_ice(&ice), Some((4, RemoteSignal::IceCandidate("3".into()))));
    assert_eq!(host.webrtc_ice(&offer), None);
    assert_eq!(host.webrtc_offer(&ice), None);
    assert_eq!(host.peer_detached(&viewer_event("v1", None)).negotiation, Some(4));
    assert_eq!(host.webrtc_offer(&offer), None);
    assert!(host.keeps(4));
}

#[test]
fn an_abandoned_session_is_discarded() {
    let mut host = CloudHostTransport::new();
    host.peer_attached(&viewer_event("v1", Some("s1")), 7);
    let timer = host.peer_detached(&viewer_event("v1", None)).timer.unwrap();
    assert_eq!(timer, GraceTimer { viewer_session_id: "s1".into(), epoch: 1 });
    assert_eq!(host.attached_viewer_count(), 0);
    assert_eq!(host.grace_expired(&timer), Some(7));
    assert_eq!(host.grace_expired(&timer), None);
    assert_eq!(
        host.peer_reattached(&reattach_event("v2", "s1", 0)),
        ReattachStep::Refuse(reattach_error("v2", "unknown_viewer"))
    );
    assert_eq!(
        host.peer_detached(&viewer_event("v9", None)),
        Detached { negotiation: None, timer: None }
    );
    assert_eq!(host.peer_detached(&object(vec![])), Detached { negotiation: None, timer: None });
    assert!(!host.keeps(7));
}

#[test]
fn a_returning_viewer_gets_what_it_missed_and_keeps_its_session() {
    let mut host = CloudHostTransport::new();
    let mut duplex: CloudDuplex<u8> = CloudDuplex::new_with_replay(1);
    host.peer_attached(&viewer_event("v1", Some("s1")), 7);
    duplex.write(b"seen");
    let timer = host.peer_detached(&viewer_event("v1", None)).timer.unwrap();
    duplex.write(b"missed");
    let request = match host.peer_reattached(&reattach_event("v2", "s1", 4)) {
        ReattachStep::Resume(request) => request,
        other => panic!("{other:?}"),
    };
    assert_eq!(
        request,
        ReattachRequest {
            viewer_sid: "v2".into(),
            viewer_session_id: "s1".into(),
            last_seq: 4,
            duplex: 7
        }
    );
    assert_eq!(host.resume(&request, &mut duplex, 2), reattach_ack("v2", b"missed", 10));
    assert_eq!(*duplex.write_fn(), 2);
    assert_eq!(host.attached_viewer_count(), 1);
    // The discard that the detach had set off no longer happens.
    assert_eq!(host.grace_expired(&timer), None);
    assert!(matches!(
        host.peer_reattached(&reattach_event("v3", "s1", 4)),
        ReattachStep::Resume(_)
    ));
    // A later detach sets off one of its own.
    let later = host.peer_detached(&viewer_event("v2", None)).timer.unwrap();
    assert_eq!(later.epoch, 3);
    assert_eq!(host.grace_expired(&timer), None);
    assert_eq!(host.grace_expired(&later), Some(7));
}

#[test]
fn a_viewer_too_far_behind_is_refused() {
    let mut host = CloudHostTransport::new();
    let mut duplex: CloudDuplex<u8> = CloudDuplex::new_with_replay(1);
    host.peer_attached(&viewer_event("v1", Some("s1")), 7);
    duplex.write(b"abc");
    let request = match host.peer_reattached(&reattach_event("v2", "s1", 9)) {
        ReattachStep::Resume(request) => request,
        other => panic!("{other:?}"),
    };
    assert_eq!(
        host.resume(&request, &mut duplex, 2),
        reattach_error("v2", "too_far_behind")
    );
    assert_eq!(*duplex.write_fn(), 1);
    let mut plain: CloudDuplex<u8> = CloudDuplex::new(3);
    assert_eq!(
        host.resume(&request, &mut plain, 4),
        reattach_error("v2", "unknown_viewer")
    );
    assert_eq!(host.attached_viewer_count(), 1);
    assert_eq!(host.peer_reattached(&viewer_event("v2", Some("s1"))), ReattachStep::Ignore);
    assert_eq!(host.peer_reattached(&Payload::Other), ReattachStep::Ignore);
}

#[test]
fn a_host_restores_its_connection_with_growing_waits() {
    let mut host = CloudHostTransport::new();
    host.open();
    host.peer_attached(&viewer_event("v1", Some("s1")), 7);
    assert_eq!(host.closed(), CloseStep::Reconnect);
    assert_eq!(host.closed(), CloseStep::AlreadyReconnecting);
    let mut delay = 0;
    let mut waits = Vec::new();
    let mut action = host.host_reconnect_loop(&mut delay, ReconnectEvent::Started);
    while waits.len() < 7 {
        match action {
            ReconnectAction::Sleep(time) => {
                waits.push(time);
                action = host.host_reconnect_loop(&mut delay, ReconnectEvent::Woke);
            }
            ReconnectAction::Attempt => {
                action = host.host_reconnect_loop(&mut delay, ReconnectEvent::Attempted(false));
            }
            ReconnectAction::Quit => panic!("gave up"),
        }
    }
    assert_eq!(waits, [1000, 2000, 4000, 8000, 16000, 30000, 30000]);
    assert_eq!(
        host.host_reconnect_loop(&mut delay, ReconnectEvent::Attempted(true)),
        ReconnectAction::Quit
    );
    assert_eq!(host.attached_viewer_count(), 1);
    assert_eq!(host.closed(), CloseStep::Reconnect);
    host.shutdown();
    assert_eq!(
        host.host_reconnect_loop(&mut delay, ReconnectEvent::Woke),
        ReconnectAction::Quit
    );
    assert_eq!(next_delay(u64::MAX), 30000);
    assert_eq!(next_delay(14999), 29998);
    assert_eq!(next_delay(15000), 30000);
}

// Viewer

#[test]
fn session_ids_are_hexadecimal() {
    assert_eq!(generate_viewer_session_id(255, 4096, 10), "ff-1000-a");
    assert_ne!(generate_viewer_session_id(1, 0x11, 1), generate_viewer_session_id(0x11, 1, 1));
}

#[test]
fn the_first_answer_to_an_attach_counts() {
    let mut state = None;
    assert_eq!(wait_for_attach_result(&mut state, 10, 3, false), AttachWait::Wait(7));
    assert_eq!(wait_for_attach_result(&mut state, 10, 3, true), AttachWait::TimedOut);
    assert_eq!(wait_for_attach_result(&mut state, 10, 10, false), AttachWait::TimedOut);
    signal_attach_result(&mut state, Err("busy".to_string()));
    signal_attach_result(&mut state, Ok(()));
    assert_eq!(
        wait_for_attach_result(&mut state, 10, 99, true),
        AttachWait::Rejected("cloud viewer: attach rejected: busy".to_string())
    );
    signal_attach_result(&mut state, Ok(()));
    assert_eq!(wait_for_attach_result(&mut state, 10, 99, true), AttachWait::Attached);
    assert_eq!(state, None);
    assert_eq!(attach_deadline(5), 10_000_000_005);
    assert_eq!(
        attach_timeout_message(),
        "cloud viewer: timed out waiting for term:attach:ack/term:attach:error"
    );
}

fn viewer() -> CloudViewer {
    CloudViewer::new("t".into(), "s".into())
}

#[test]
fn a_viewer_attaches_first_and_reattaches_later() {
    let mut duplex: CloudDuplex<u8> = CloudDuplex::new(0);
    let mut v = viewer();
    assert_eq!(v.write(b"x"), Err("cloud viewer: not connected yet".to_string()));
    assert_eq!(v.open(), attach("t", "s"));
    assert_eq!(v.write(b"hi"), Ok(input(b"hi")));
    v.attach_ack();
    assert_eq!(v.attach_result(10, 0, false), AttachWait::Attached);
    assert!(v.frame(&frame_event(b"hello"), &mut duplex));
    assert!(!v.frame(&Payload::Other, &mut duplex));
    assert_eq!(v.open(), reattach("t", "s", 5));
    let ack = object(vec![
        ("resume_seq", number(9)),
        ("replay_bytes", string(&encode_bytes_field(b"more"))),
    ]);
    assert!(v.reattach_ack(&ack, &mut duplex));
    assert_eq!(v.attach_result(10, 0, false), AttachWait::Attached);
    assert_eq!(read_all(&mut duplex), b"hellomore");
    assert_eq!(v.open(), reattach("t", "s", 9));
    // A refused reattach falls back to a new session, which begins at zero.
    let refusal = object(vec![("reason", string("too_far_behind"))]);
    assert_eq!(v.reattach_error(&refusal), ("too_far_behind".to_string(), attach("t", "s")));
    v.attach_ack();
    assert_eq!(v.open(), reattach("t", "s", 0));
}

#[test]
fn bad_answers_are_reported() {
    let mut duplex: CloudDuplex<u8> = CloudDuplex::new(0);
    let rejected = |v: &mut CloudViewer| match v.attach_result(10, 0, false) {
        AttachWait::Rejected(message) => message,
        other => panic!("{other:?}"),
    };
    let mut v = viewer();
    v.attach_error(&object(vec![]));
    assert_eq!(rejected(&mut v), "cloud viewer: attach rejected: unknown");
    v.attach_error(&object(vec![("reason", string("no_host"))]));
    assert_eq!(rejected(&mut v), "cloud viewer: attach rejected: no_host");
    assert!(!v.reattach_ack(&Payload::Other, &mut duplex));
    assert_eq!(rejected(&mut v), "cloud viewer: attach rejected: malformed term:reattach_ack");
    assert!(!v.reattach_ack(&object(vec![]), &mut duplex));
    assert_eq!(
        rejected(&mut v),
        "cloud viewer: attach rejected: term:reattach_ack missing resume_seq"
    );
    v.open_failed("e");
    assert_eq!(
        rejected(&mut v),
        "cloud viewer: attach rejected: failed to send term:attach/term:reattach: e"
    );
    v.fallback_failed("e");
    assert_eq!(
        rejected(&mut v),
        "cloud viewer: attach rejected: failed to send fallback term:attach: e"
    );
}

#[test]
fn a_suspended_host_keeps_the_session_open() {
    let mut duplex: CloudDuplex<u8> = CloudDuplex::new(0);
    let mut v = viewer();
    v.suspended();
    assert!(v.is_suspended());
    assert_eq!(duplex.read(1, None, 0, false), ReadStep::Wait(None));
    v.frame(&frame_event(b"x"), &mut duplex);
    assert!(!v.is_suspended());
    v.suspended();
    v.detached(&mut duplex);
    assert!(!v.is_suspended());
    assert_eq!(read_all(&mut duplex), b"x");
    assert_eq!(duplex.read(1, None, 0, false), ReadStep::Eof);
}

#[test]
fn an_ended_session_is_not_resumed() {
    let mut duplex: CloudDuplex<u8> = CloudDuplex::new(0);
    let mut v = viewer();
    let mut delay = 0;
    assert_eq!(v.closed(), CloseStep::Reconnect);
    assert_eq!(v.closed(), CloseStep::AlreadyReconnecting);
    assert_eq!(
        v.viewer_reconnect_loop(&mut delay, ReconnectEvent::Started),
        ReconnectAction::Sleep(1000)
    );
    assert_eq!(
        v.viewer_reconnect_loop(&mut delay, ReconnectEvent::Woke),
        ReconnectAction::Attempt
    );
    assert_eq!(
        v.viewer_reconnect_loop(&mut delay, ReconnectEvent::Attempted(false)),
        ReconnectAction::Sleep(2000)
    );
    assert_eq!(
        v.viewer_reconnect_loop(&mut delay, ReconnectEvent::Attempted(true)),
        ReconnectAction::Quit
    );
    assert_eq!(v.closed(), CloseStep::Reconnect);
    v.detached(&mut duplex);
    assert_eq!(v.closed(), CloseStep::Expected);
    assert_eq!(
        v.viewer_reconnect_loop(&mut delay, ReconnectEvent::Attempted(false)),
        ReconnectAction::Quit
    );
    assert_eq!(
        v.viewer_reconnect_loop(&mut delay, ReconnectEvent::Started),
        ReconnectAction::Quit
    );
}

#[test]
fn viewer_signals_need_a_negotiation() {
    let mut v = viewer();
    let answer = object(vec![("sdp", string("a"))]);
    let ice = object(vec![("candidate", number(1))]);
    assert_eq!(v.webrtc_answer(&answer), None);
    assert_eq!(v.webrtc_ice(&ice), None);
    v.attach_ack();
    assert_eq!(v.webrtc_answer(&answer), Some(RemoteSignal::Answer("a".into())));
    assert_eq!(v.webrtc_ice(&ice), Some(RemoteSignal::IceCandidate("1".into())));
    assert_eq!(v.webrtc_answer(&ice), None);
    assert_eq!(v.webrtc_ice(&answer), None);
}

#[test]
fn nothing_is_lost_over_a_reconnect() {
    let mut host = CloudHostTransport::new();
    let mut host_side: CloudDuplex<u8> = CloudDuplex::new_with_replay(1);
    let mut viewer_side: CloudDuplex<u8> = CloudDuplex::new(0);
    let mut v = viewer();
    host.peer_attached(&viewer_event("v1", Some("s")), 1);
    v.attach_ack();
    for chunk in [b"one ".as_slice(), b"two "] {
        host_side.write(chunk);
        v.frame(&frame_event(chunk), &mut viewer_side);
    }
    host_side.write(b"three ");
    host_side.write(b"four");
    assert_eq!(v.open(), reattach("t", "s", 8));
    let request = match host.peer_reattached(&reattach_event("v2", "s", 8)) {
        ReattachStep::Resume(request) => request,
        other => panic!("{other:?}"),
    };
    assert_eq!(host.resume(&request, &mut host_side, 2), reattach_ack("v2", b"three four", 18));
    let ack = object(vec![
        ("resume_seq", number(18)),
        ("replay_bytes", string(&encode_bytes_field(b"three four"))),
    ]);
    v.reattach_ack(&ack, &mut viewer_side);
    assert_eq!(read_all(&mut viewer_side), b"one two three four");
    assert_eq!(v.open(), reattach("t", "s", 18));
}

#[test]
fn bytes_over_the_data_channel_are_not_replayed() {
    let mut host = CloudHostTransport::new();
    let mut host_side: CloudDuplex<u8> = CloudDuplex::new_with_replay(1);
    let mut viewer_side: CloudDuplex<u8> = CloudDuplex::new(0);
    let mut v = viewer();
    host.peer_attached(&viewer_event("v1", Some("s")), 1);
    v.attach_ack();
    v.suspended();
    host_side.write(b"relay ");
    v.frame(&frame_event(b"relay "), &mut viewer_side);
    v.suspended();
    host_side.write(b"channel ");
    v.p2p_data(b"chan", &mut viewer_side);
    v.p2p_data(b"nel ", &mut viewer_side);
    assert!(v.is_suspended());
    host_side.write(b"missed");
    assert_eq!(v.open(), reattach("t", "s", 14));
    let request = match host.peer_reattached(&reattach_event("v2", "s", 14)) {
        ReattachStep::Resume(request) => request,
        other => panic!("{other:?}"),
    };
    assert_eq!(host.resume(&request, &mut host_side, 2), reattach_ack("v2", b"missed", 20));
    let ack = object(vec![
        ("resume_seq", number(20)),
        ("replay_bytes", string(&encode_bytes_field(b"missed"))),
    ]);
    v.reattach_ack(&ack, &mut viewer_side);
    assert_eq!(read_all(&mut viewer_side), b"relay channel missed");
}

#[test]
fn a_new_attach_under_the_same_session_id_does_not_cancel_the_discard() {
    let mut host = CloudHostTransport::new();
    host.peer_attached(&viewer_event("v1", Some("s1")), 1);
    let timer = host.peer_detached(&viewer_event("v1", None)).timer.unwrap();
    host.peer_attached(&viewer_event("v2", Some("s1")), 2);
    assert_eq!(host.grace_expired(&timer), Some(2));
    assert_eq!(host.attached_viewer_count(), 1);
}

// Batches

#[test]
fn input_is_sent_in_batches_that_keep_every_byte() {
    let mut batcher = Batcher::new();
    assert_eq!(batcher.step(0), None);
    assert_eq!(batcher.flush(), None);
    batcher.arrived(b"a".to_vec(), 1_000);
    assert_eq!(batcher.step(1_000), Some(BatchStep::Wait(10_000_000)));
    batcher.arrived(b"bc".to_vec(), 5_000);
    assert_eq!(batcher.step(5_000), Some(BatchStep::Wait(9_996_000)));
    assert_eq!(batcher.step(10_001_000), Some(BatchStep::Flush));
    assert_eq!(batcher.flush(), Some(b"abc".to_vec()));
    assert_eq!(batcher.step(0), None);
    batcher.arrived(vec![0; 4095], 0);
    assert_eq!(batcher.step(0), Some(BatchStep::Wait(10_000_000)));
    batcher.arrived(vec![0; 1], 0);
    assert_eq!(batcher.step(0), Some(BatchStep::Flush));
}

// Identity

#[test]
fn the_identity_lies_in_the_home_directory() {
    assert_eq!(home_variable(true), "USERPROFILE");
    assert_eq!(home_variable(false), "HOME");
    assert_eq!(home_dir(false, Some("/h".into())), Ok("/h".to_string()));
    assert_eq!(
        legion_config_path(false, Some("/h".into())),
        Ok(vec!["/h".to_string(), ".legion".to_string(), "config.json".to_string()])
    );
    assert_eq!(
        legion_config_path(false, None),
        Err("HOME is not set; cannot locate ~/.legion".to_string())
    );
    assert_eq!(
        home_dir(true, None),
        Err("USERPROFILE is not set; cannot locate ~/.legion".to_string())
    );
    assert_eq!(
        unreadable_config("p", "e"),
        "cloud relay: failed to read Legion config at p: e"
    );
    assert_eq!(
        incomplete_config("p", "e"),
        "cloud relay: Legion config at p is missing required fields (id/token/serverUrl): e"
    );
}

// Negotiation

#[test]
fn candidate_types_are_parsed_and_ranked() {
    assert_eq!(
        parse_candidate_type("candidate:1 1 udp 2122260223 10.0.0.5 54321 typ host"),
        Some("host".to_string())
    );
    assert_eq!(parse_candidate_type("a\u{3000}typ\n\t srflx raddr"), Some("srflx".to_string()));
    assert_eq!(parse_candidate_type("candidate typ"), None);
    assert_eq!(parse_candidate_type("typ typ typ"), Some("typ".to_string()));
    assert_eq!(parse_candidate_type("xtyp host"), None);
    assert_eq!(parse_candidate_type(""), None);
    assert_eq!(candidate_type_rank("host"), Some((0, "host")));
    assert_eq!(candidate_type_rank("srflx"), Some((1, "srflx")));
    assert_eq!(candidate_type_rank("prflx"), Some((2, "prflx")));
    assert_eq!(candidate_type_rank("relay"), Some((3, "relay")));
    assert_eq!(candidate_type_rank("Host"), None);
}

#[test]
fn the_best_candidate_is_the_most_direct() {
    let mut best = BestCandidate::new();
    assert_eq!(best.outcome(false).best_local_candidate_type, None);
    best.gathered("c typ strange");
    assert_eq!(best.outcome(false).best_local_candidate_type, None);
    for (typ, expected) in
        [("relay", "relay"), ("prflx", "prflx"), ("relay", "prflx"), ("host", "host"), ("srflx", "host")]
    {
        best.gathered(&format!("c typ {typ} x"));
        assert_eq!(best.outcome(true).best_local_candidate_type, Some(expected));
    }
    assert!(best.outcome(true).established);
    assert_eq!(
        default_ice_servers(vec!["turn:x".into()]),
        vec!["stun:stun.l.google.com:19302", "stun:stun1.l.google.com:19302", "turn:x"]
    );
}

#[test]
fn an_answerer_waits_for_the_offer() {
    let mut n = Negotiation::new(false);
    assert!(n.awaits_offer());
    let ice = || Some(RemoteSignal::IceCandidate("c".into()));
    let answer = || Some(RemoteSignal::Answer("a".into()));
    let offer = || Some(RemoteSignal::Offer("o".into()));
    assert_eq!(n.on_signal(ice()), SignalStep::Ignore);
    assert_eq!(n.on_signal(answer()), SignalStep::Ignore);
    assert_eq!(n.on_signal(offer()), SignalStep::AcceptOffer("o".into()));
    assert_eq!(n.on_signal(offer()), SignalStep::Ignore);
    assert_eq!(n.on_signal(answer()), SignalStep::Ignore);
    assert_eq!(n.on_signal(ice()), SignalStep::ApplyCandidate("c".into()));
    assert_eq!(n.on_signal(None), SignalStep::End);
    assert!(n.on_data_channel());
    assert!(!n.on_data_channel());
    assert!(n.on_open());
    assert!(!n.on_open());
    assert_eq!(
        Negotiation::new(false).on_signal(None),
        SignalStep::Fail("signaling channel closed before offer arrived".into())
    );
}

#[test]
fn an_offerer_applies_the_answer() {
    let mut n = Negotiation::new(true);
    assert!(!n.awaits_offer());
    assert!(!n.on_data_channel());
    assert_eq!(
        n.on_signal(Some(RemoteSignal::Answer("a".into()))),
        SignalStep::ApplyAnswer("a".into())
    );
    assert_eq!(n.on_signal(Some(RemoteSignal::Offer("o".into()))), SignalStep::Ignore);
    assert_eq!(
        n.on_signal(Some(RemoteSignal::IceCandidate("c".into()))),
        SignalStep::ApplyCandidate("c".into())
    );
    assert_eq!(n.on_signal(None), SignalStep::End);
    assert_eq!(stage_failure(Stage::CreateOffer, "x"), "create_offer: x");
    assert_eq!(
        stage_failure(Stage::SetLocalAnswer, "x"),
        "set_local_description(answer): x"
    );
    assert_eq!(stage_failure(Stage::InterceptorRegistry, "x"), "interceptor registry: x");
    assert_eq!(stage_failure(Stage::NewPeerConnection, "x"), "new_peer_connection: x");
    assert_eq!(stage_failure(Stage::CreateDataChannel, "x"), "create_data_channel: x");
    assert_eq!(
        stage_failure(Stage::SetLocalOffer, "x"),
        "set_local_description(offer): x"
    );
    assert_eq!(stage_failure(Stage::ParseOffer, "x"), "parse remote offer: x");
    assert_eq!(
        stage_failure(Stage::SetRemoteOffer, "x"),
        "set_remote_description(offer): x"
    );
    assert_eq!(stage_failure(Stage::CreateAnswer, "x"), "create_answer: x");
}
