use tanuki::protocol::CellData;
use tanuki::protocol::CursorState;
use tanuki::protocol::FrameData;
use tanuki::protocol::FramePatchSegment;
use tanuki::protocol::RenderEncoding;
use tanuki::protocol::ServerMessage;
use tanuki::server::render_stream::focused_terminal_owns_host_cursor;
use tanuki::server::render_stream::focused_terminal_suppresses_host_cursor;
use tanuki::server::render_stream::insert_graphics_before_sync_end;
use tanuki::server::render_stream::popup_terminal_cursor;
use tanuki::server::render_stream::render_terminal_cursor;
use tanuki::server::render_stream::render_virtual_cursor;
use tanuki::server::render_stream::rfind_subslice;
use tanuki::server::render_stream::ClientRenderState;
use tanuki::server::render_stream::CursorTracker;
use tanuki::server::render_stream::EncodedBlit;
use tanuki::server::render_stream::PaneFacts;
use tanuki::server::render_stream::RuntimeCursor;

fn test_cell(symbol: &str) -> CellData {
    CellData {
        symbol: symbol.into(),
        fg: 0,
        bg: 0,
        modifier: 0,
        skip: false,
        hyperlink: None,
    }
}

fn filled_frame(width: u16, height: u16, symbol: &str) -> FrameData {
    FrameData {
        is_full: false,
        cells: vec![test_cell(symbol); usize::from(width) * usize::from(height)],
        width,
        height,
        cursor: None,
        hyperlinks: Vec::new(),
        graphics: Vec::new(),
    }
}

fn one_row_patch(
    frame: &FrameData,
    row: u16,
    symbol: &str,
) -> (FrameData, Vec<FramePatchSegment>) {
    let width = usize::from(frame.width);
    let mut target = frame.clone();
    for x in 0..width {
        target.cells[usize::from(row) * width + x] = test_cell(symbol);
    }
    let start = usize::from(row) * width;
    let segment = FramePatchSegment {
        y: row,
        x: 0,
        cells: target.cells[start..start + width].to_vec(),
    };
    (target, vec![segment])
}

#[test]
fn prepare_frame_with_patch_sends_patch_when_baseline_matches() {
    let mut state = ClientRenderState::new(RenderEncoding::SemanticFrame);
    let baseline = filled_frame(10, 4, ".");
    // Prime the baseline via a plain full-frame send, as the first
    // frame to any client always is.
    let prepared = state
        .prepare_frame(baseline.clone(), None)
        .expect("first frame always changed");
    state.commit_sent_frame(prepared);

    let (target, segments) = one_row_patch(&baseline, 1, "x");
    let prepared = state
        .prepare_frame_with_patch(target.clone(), Some((segments.clone(), false)), None)
        .expect("changed frame should produce a prepared render");
    assert!(
        matches!(prepared.message(), ServerMessage::FramePatch { .. }),
        "expected a compact FramePatch once a matching baseline exists"
    );

    // Baseline must converge to the full target frame either way.
    state.commit_sent_frame(prepared);
    assert_eq!(state.last_frame(), Some(&target));
}

#[test]
fn prepare_frame_with_patch_falls_back_to_full_frame_without_baseline() {
    let mut state = ClientRenderState::new(RenderEncoding::SemanticFrame);
    let baseline = filled_frame(10, 4, ".");
    let (target, segments) = one_row_patch(&baseline, 1, "x");

    // No prior frame committed -- must never claim to patch nothing.
    let prepared = state
        .prepare_frame_with_patch(target.clone(), Some((segments, false)), None)
        .expect("first frame always changed");
    assert!(
        matches!(prepared.message(), ServerMessage::Frame(_)),
        "must send a full frame when there is no baseline to patch"
    );
    state.commit_sent_frame(prepared);
    assert_eq!(state.last_frame(), Some(&target));
}

#[test]
fn prepare_frame_with_patch_falls_back_to_full_frame_on_size_mismatch() {
    let mut state = ClientRenderState::new(RenderEncoding::SemanticFrame);
    let baseline = filled_frame(10, 4, ".");
    let prepared = state.prepare_frame(baseline.clone(), None).unwrap();
    state.commit_sent_frame(prepared);

    // A resized frame with segments computed against the old size must
    // never be sent as a patch against the new baseline.
    let resized = filled_frame(12, 4, "y");
    let bogus_segments = vec![FramePatchSegment {
        y: 0,
        x: 0,
        cells: vec![test_cell("y"); 12],
    }];
    let prepared = state
        .prepare_frame_with_patch(resized.clone(), Some((bogus_segments, false)), None)
        .expect("changed frame should produce a prepared render");
    assert!(
        matches!(prepared.message(), ServerMessage::Frame(_)),
        "must not send a patch when frame size differs from the baseline"
    );
    state.commit_sent_frame(prepared);
    assert_eq!(state.last_frame(), Some(&resized));
}

#[test]
fn patch_carries_segments_cursor_and_flag() {
    let mut state = ClientRenderState::new(RenderEncoding::SemanticFrame);
    let baseline = filled_frame(3, 2, ".");
    let prepared = state.prepare_frame(baseline.clone(), None).unwrap();
    state.commit_sent_frame(prepared);
    let (mut target, segments) = one_row_patch(&baseline, 0, "q");
    let cursor = CursorState { x: 1, y: 0, visible: true, shape: 2 };
    target.cursor = Some(cursor);
    let prepared = state
        .prepare_frame_with_patch(target.clone(), Some((segments.clone(), true)), None)
        .unwrap();
    assert_eq!(
        prepared.message(),
        &ServerMessage::FramePatch { segments, cursor: Some(cursor), cursor_changed: true }
    );
    assert_eq!(prepared.into_frame(), Some(target));
}

#[test]
fn a_frame_with_the_same_content_is_not_sent_again() {
    let mut state = ClientRenderState::new(RenderEncoding::SemanticFrame);
    let frame = filled_frame(4, 4, "a");
    let prepared = state.prepare_frame(frame.clone(), None).unwrap();
    state.commit_sent_frame(prepared);
    assert!(state.prepare_frame(frame.clone(), None).is_none());
    let mut full = frame.clone();
    full.is_full = true;
    assert!(state.prepare_frame(full, None).is_none());
    for change in 0..5 {
        let mut other = frame.clone();
        match change {
            0 => other.cells[3].fg = 9,
            1 => other.cursor = Some(CursorState { x: 0, y: 0, visible: true, shape: 0 }),
            2 => other.hyperlinks.push("http://x".to_string()),
            3 => other.graphics.push(1),
            _ => other.cells[15].hyperlink = Some(0),
        }
        assert!(state.prepare_frame(other, None).is_some());
    }
    state.reset_semantic_input_baseline();
    assert_eq!(state.last_frame(), None);
    assert!(state.prepare_frame(frame, None).is_some());
}

#[test]
fn terminal_frames_are_numbered_and_carry_graphics() {
    let mut state = ClientRenderState::new(RenderEncoding::TerminalAnsi);
    assert_eq!(state.terminal_seq(), Some(0));
    let mut frame = filled_frame(2, 1, "z");
    frame.graphics = b"GFX".to_vec();
    assert!(state.prepare_frame(frame.clone(), None).is_none());
    let blit = EncodedBlit { full: true, bytes: b"text\x1b[?2026l".to_vec() };
    let prepared = state.prepare_frame(frame.clone(), Some(blit)).unwrap();
    match prepared.message() {
        ServerMessage::Terminal(sent) => {
            assert_eq!(sent.seq, 1);
            assert_eq!((sent.width, sent.height, sent.full), (2, 1, true));
            assert_eq!(sent.bytes, b"textGFX\x1b[?2026l");
        }
        other => panic!("unexpected {other:?}"),
    }
    state.commit_sent_frame(prepared);
    assert_eq!(state.terminal_seq(), Some(1));
    assert_eq!(state.last_frame(), Some(&frame));
    state.reset_semantic_input_baseline();
    assert_eq!(state.last_frame(), Some(&frame));
    state.reset_baseline();
    assert_eq!(state.last_frame(), None);
    assert_eq!(state.terminal_seq(), Some(1));
}

#[test]
fn graphics_go_before_the_last_end_of_an_update() {
    let end = b"\x1b[?2026l";
    let mut bytes = [b"a".as_slice(), end, b"b", end, b"c"].concat();
    insert_graphics_before_sync_end(&mut bytes, b"GG");
    assert_eq!(bytes, [b"a".as_slice(), end, b"bGG", end, b"c"].concat());
    let mut plain = b"abc".to_vec();
    insert_graphics_before_sync_end(&mut plain, b"GG");
    assert_eq!(plain, b"abcGG");
    insert_graphics_before_sync_end(&mut plain, b"");
    assert_eq!(plain, b"abcGG");
}

#[test]
fn rfind_finds_the_last_occurrence() {
    assert_eq!(rfind_subslice(b"abcabc", b"abc"), Some(3));
    assert_eq!(rfind_subslice(b"aaaa", b"aa"), Some(2));
    assert_eq!(rfind_subslice(b"abc", b""), None);
    assert_eq!(rfind_subslice(b"ab", b"abc"), None);
    assert_eq!(rfind_subslice(b"abc", b"abc"), Some(0));
    assert_eq!(rfind_subslice(b"abc", b"x"), None);
    assert_eq!(rfind_subslice(b"", b"x"), None);
}

#[test]
fn the_cursor_is_where_the_drawing_left_it() {
    let mut tracker = CursorTracker::new();
    assert_eq!(tracker.rendered_cursor(), None);
    tracker.set_cursor_position(3, 4);
    let cursor = CursorState { x: 3, y: 4, visible: true, shape: 0 };
    assert_eq!(tracker.rendered_cursor(), Some(cursor));
    tracker.hide_cursor();
    assert_eq!(tracker.rendered_cursor(), None);
}

#[test]
fn popup_cursor_needs_a_terminal_at_rest_and_room() {
    let cursor = CursorState { x: 1, y: 2, visible: true, shape: 5 };
    let runtime = RuntimeCursor {
        synchronized_output_active: false,
        cursor: Some(cursor),
        scrolled_back: false,
    };
    assert_eq!(popup_terminal_cursor(Some(runtime), true), Some(cursor));
    assert_eq!(popup_terminal_cursor(Some(runtime), false), None);
    assert_eq!(popup_terminal_cursor(None, true), None);
    let updating = RuntimeCursor { synchronized_output_active: true, ..runtime };
    assert_eq!(popup_terminal_cursor(Some(updating), true), None);
    let scrolled = RuntimeCursor { scrolled_back: true, ..runtime };
    assert_eq!(
        popup_terminal_cursor(Some(scrolled), true),
        Some(CursorState { visible: false, ..cursor })
    );
}

#[test]
fn the_focused_terminal_decides_about_the_cursor() {
    let pane = |is_focused, exposes_host_cursor, runtime| PaneFacts {
        is_focused,
        exposes_host_cursor,
        runtime,
    };
    let panes = vec![pane(false, true, Some(false)), pane(true, true, Some(true))];
    assert!(focused_terminal_owns_host_cursor(true, true, &panes));
    assert!(focused_terminal_suppresses_host_cursor(true, true, &panes));
    assert!(!focused_terminal_owns_host_cursor(false, true, &panes));
    assert!(!focused_terminal_suppresses_host_cursor(true, false, &panes));
    let idle = vec![pane(true, true, Some(false)), pane(true, true, Some(true))];
    assert!(focused_terminal_owns_host_cursor(true, true, &idle));
    assert!(!focused_terminal_suppresses_host_cursor(true, true, &idle));
    let hidden = vec![pane(true, false, Some(true))];
    assert!(!focused_terminal_owns_host_cursor(true, true, &hidden));
    let stopped = vec![pane(true, true, None)];
    assert!(!focused_terminal_owns_host_cursor(true, true, &stopped));
    assert!(!focused_terminal_owns_host_cursor(true, true, &[]));
}

#[test]
fn the_cursor_of_a_frame_has_an_order_of_precedence() {
    let a = CursorState { x: 1, y: 1, visible: true, shape: 0 };
    let b = CursorState { x: 2, y: 2, visible: true, shape: 0 };
    assert_eq!(render_virtual_cursor(Some(Some(a)), true, true, Some(b), true, None), Some(a));
    assert_eq!(render_virtual_cursor(Some(None), false, false, Some(b), false, Some(b)), None);
    assert_eq!(render_virtual_cursor(None, true, false, Some(a), false, Some(b)), None);
    assert_eq!(render_virtual_cursor(None, false, true, Some(a), false, Some(b)), None);
    assert_eq!(render_virtual_cursor(None, false, false, Some(a), true, Some(b)), Some(a));
    assert_eq!(render_virtual_cursor(None, false, false, None, true, Some(b)), None);
    assert_eq!(render_virtual_cursor(None, false, false, None, false, Some(b)), Some(b));
}

#[test]
fn the_cursor_of_one_terminal() {
    let own = CursorState { x: 1, y: 1, visible: true, shape: 3 };
    let left = CursorState { x: 2, y: 2, visible: true, shape: 0 };
    let runtime = RuntimeCursor {
        synchronized_output_active: false,
        cursor: Some(own),
        scrolled_back: true,
    };
    assert_eq!(
        render_terminal_cursor(&runtime, Some(left)),
        Some(CursorState { visible: false, ..own })
    );
    let none = RuntimeCursor { cursor: None, ..runtime };
    assert_eq!(render_terminal_cursor(&none, Some(left)), Some(left));
    let updating = RuntimeCursor { synchronized_output_active: true, ..runtime };
    assert_eq!(render_terminal_cursor(&updating, Some(left)), None);
}

#[test]
fn a_message_of_the_other_kind_changes_nothing() {
    let cells = ClientRenderState::new(RenderEncoding::SemanticFrame);
    let prepared = cells.prepare_frame(filled_frame(2, 2, "a"), None).unwrap();
    let mut terminal = ClientRenderState::TerminalAnsi { last_frame: None, seq: u64::MAX };
    terminal.commit_sent_frame(prepared);
    assert_eq!(terminal.terminal_seq(), Some(u64::MAX));
    assert_eq!(terminal.last_frame(), None);
    assert!(terminal.prepare_frame(filled_frame(2, 2, "a"), None).is_none());
}

#[test]
fn terminals_ignore_patches() {
    let state = ClientRenderState::new(RenderEncoding::TerminalAnsi);
    let frame = filled_frame(3, 2, "a");
    let (_, segments) = one_row_patch(&frame, 0, "b");
    let blit = || Some(EncodedBlit { full: false, bytes: b"x".to_vec() });
    assert_eq!(
        state.prepare_frame_with_patch(frame.clone(), Some((segments, true)), blit()),
        state.prepare_frame(frame, blit())
    );
}
