//! What a server sends each client when the screen has changed, and where it puts the
//! cursor.
//!
//! The encoder that turns a frame into escape sequences for a terminal belongs to the
//! program. What it made of a frame comes in with the frame.

use vstd::prelude::*;
use crate::protocol::duplicate_bytes;
use crate::protocol::law_same_content_means_every_cell;
use crate::protocol::segments_view;
use crate::protocol::CursorState;
use crate::protocol::FrameData;
use crate::protocol::FramePatchSegment;
use crate::protocol::FrameView;
use crate::protocol::RenderEncoding;
use crate::protocol::SegmentView;
use crate::protocol::ServerMessage;
use crate::protocol::ServerMessageView;
use crate::protocol::TerminalFrame;

verus! {

// ---------------------------------------------------------------------------
// Graphics
// ---------------------------------------------------------------------------

/// What ends a synchronized update of a terminal: `ESC [ ? 2026 l`.
pub open spec fn sync_output_end() -> Seq<u8> {
    seq![0x1bu8, 0x5bu8, 0x3fu8, 0x32u8, 0x30u8, 0x32u8, 0x36u8, 0x6cu8]
}

fn sync_output_end_bytes() -> (r: Vec<u8>)
    ensures
        r@ == sync_output_end(),
{
    let r: Vec<u8> = vec![0x1bu8, 0x5bu8, 0x3fu8, 0x32u8, 0x30u8, 0x32u8, 0x36u8, 0x6cu8];
    assert(r@ =~= sync_output_end());
    r
}

/// `needle` stands in `haystack` at the given place.
pub open spec fn stands_at(haystack: Seq<u8>, needle: Seq<u8>, at: int) -> bool {
    0 <= at && at + needle.len() <= haystack.len() && haystack.subrange(at, at + needle.len())
        == needle
}

/// The last place before `end` at which `needle` stands in `haystack`.
pub open spec fn last_place(haystack: Seq<u8>, needle: Seq<u8>, end: nat) -> Option<nat>
    decreases end,
{
    if end == 0 {
        None
    } else if stands_at(haystack, needle, end - 1) {
        Some((end - 1) as nat)
    } else {
        last_place(haystack, needle, (end - 1) as nat)
    }
}

/// The last place at which `needle`, if it is not empty, stands in `haystack`.
pub open spec fn last_found(haystack: Seq<u8>, needle: Seq<u8>) -> Option<nat> {
    if needle.len() == 0 {
        None
    } else {
        last_place(haystack, needle, haystack.len())
    }
}

fn matches_at(haystack: &[u8], needle: &[u8], at: usize) -> (r: bool)
    requires
        at + needle@.len() <= haystack@.len(),
    ensures
        r == stands_at(haystack@, needle@, at as int),
{
    let mut i: usize = 0;
    while i < needle.len()
        invariant
            i <= needle@.len(),
            at + needle.len() <= haystack.len(),
            forall|j: int| 0 <= j < i ==> haystack@[at + j] == needle@[j],
        decreases needle@.len() - i,
    {
        if haystack[at + i] != needle[i] {
            assert(haystack@.subrange(at as int, at + needle@.len())[i as int] != needle@[i as int]);
            return false;
        }
        i += 1;
    }
    assert(haystack@.subrange(at as int, at + needle@.len()) =~= needle@);
    true
}

proof fn lemma_no_place_near_end(haystack: Seq<u8>, needle: Seq<u8>, end: nat)
    requires
        needle.len() > 0,
        haystack.len() < end + needle.len(),
        end <= haystack.len(),
    ensures
        last_found(haystack, needle) == last_place(haystack, needle, end),
    decreases haystack.len() - end,
{
    if end < haystack.len() {
        lemma_no_place_near_end(haystack, needle, end + 1);
    }
}

/// The last place at which `needle` stands in `haystack`.
pub fn rfind_subslice(haystack: &[u8], needle: &[u8]) -> (r: Option<usize>)
    ensures
        match r {
            Some(at) => last_found(haystack@, needle@) == Some(at as nat),
            None => last_found(haystack@, needle@) is None,
        },
{
    if needle.len() == 0 {
        return None;
    }
    if needle.len() > haystack.len() {
        proof {
            lemma_no_place_near_end(haystack@, needle@, 0);
        }
        return None;
    }
    let mut end: usize = haystack.len() - needle.len() + 1;
    proof {
        lemma_no_place_near_end(haystack@, needle@, end as nat);
    }
    while end > 0
        invariant
            0 < needle@.len(),
            end + needle@.len() <= haystack@.len() + 1,
            last_found(haystack@, needle@) == last_place(haystack@, needle@, end as nat),
        decreases end,
    {
        if matches_at(haystack, needle, end - 1) {
            return Some(end - 1);
        }
        end -= 1;
    }
    None
}

/// `encoded` with `graphics` in front of the end of its last synchronized update; at the
/// end where there is none.
pub open spec fn with_graphics(encoded: Seq<u8>, graphics: Seq<u8>) -> Seq<u8> {
    match last_found(encoded, sync_output_end()) {
        Some(at) => encoded.take(at as int) + graphics + encoded.skip(at as int),
        None => encoded + graphics,
    }
}

/// Puts graphics into the output for a terminal, within its synchronized update.
pub fn insert_graphics_before_sync_end(encoded: &mut Vec<u8>, graphics: &[u8])
    ensures
        final(encoded)@ == with_graphics(old(encoded)@, graphics@),
{
    let end = sync_output_end_bytes();
    let ghost before = encoded@;
    if graphics.len() == 0 {
        proof {
            lemma_found_inside(before, end@);
            assert(before + graphics@ =~= before);
            if let Some(at) = last_found(before, end@) {
                assert(before.take(at as int) + graphics@ + before.skip(at as int) =~= before);
            }
        }
        return;
    }
    let mut addition = duplicate_bytes(graphics);
    let place = rfind_subslice(encoded, &end);
    match place {
        Some(at) => {
            proof {
                lemma_found_inside(before, end@);
            }
            let mut tail = encoded.split_off(at);
            encoded.append(&mut addition);
            encoded.append(&mut tail);
            assert(encoded@ =~= before.take(at as int) + graphics@ + before.skip(at as int));
        },
        None => {
            encoded.append(&mut addition);
        },
    }
}

proof fn lemma_place_inside(haystack: Seq<u8>, needle: Seq<u8>, end: nat)
    ensures
        last_place(haystack, needle, end) matches Some(at) ==> at < end && stands_at(
            haystack,
            needle,
            at as int,
        ) && forall|j: int| at < j < end ==> !stands_at(haystack, needle, j),
        last_place(haystack, needle, end) is None ==> forall|j: int|
            0 <= j < end ==> !stands_at(haystack, needle, j),
    decreases end,
{
    if end > 0 {
        lemma_place_inside(haystack, needle, (end - 1) as nat);
    }
}

proof fn lemma_found_inside(haystack: Seq<u8>, needle: Seq<u8>)
    ensures
        last_found(haystack, needle) matches Some(at) ==> stands_at(haystack, needle, at as int),
{
    lemma_place_inside(haystack, needle, haystack.len());
}

/// What is found is the last occurrence: the needle stands there, and nowhere behind it.
/// Nothing is found exactly when the needle stands nowhere.
pub proof fn law_found_place_is_the_last(haystack: Seq<u8>, needle: Seq<u8>)
    requires
        needle.len() > 0,
    ensures
        match last_found(haystack, needle) {
            Some(at) => stands_at(haystack, needle, at as int) && forall|j: int|
                j > at ==> !stands_at(haystack, needle, j),
            None => forall|j: int| !stands_at(haystack, needle, j),
        },
{
    lemma_place_inside(haystack, needle, haystack.len());
}

/// Graphics become visible together with the text: in output that ends its synchronized
/// update last, they stand before that end, and nothing else is changed.
pub proof fn law_graphics_stay_within_the_update(body: Seq<u8>, graphics: Seq<u8>)
    ensures
        with_graphics(body + sync_output_end(), graphics) == body + graphics + sync_output_end(),
{
    let end = sync_output_end();
    lemma_found_at_end(body, end);
    assert((body + end).take(body.len() as int) =~= body);
    assert((body + end).skip(body.len() as int) =~= end);
}

proof fn lemma_found_at_end(body: Seq<u8>, end: Seq<u8>)
    requires
        end.len() > 0,
    ensures
        last_found(body + end, end) == Some(body.len()),
{
    let all = body + end;
    assert(all.subrange(body.len() as int, body.len() as int + end.len()) =~= end);
    assert(stands_at(all, end, body.len() as int));
    law_found_place_is_the_last(all, end);
}

// ---------------------------------------------------------------------------
// What a client is sent
// ---------------------------------------------------------------------------

/// What the encoder made of a frame: the output for a terminal, and whether it draws the
/// frame from scratch.
#[derive(Debug, PartialEq, Eq)]
pub struct EncodedBlit {
    pub full: bool,
    pub bytes: Vec<u8>,
}

/// The model of [`EncodedBlit`].
pub struct BlitView {
    pub full: bool,
    pub bytes: Seq<u8>,
}

impl EncodedBlit {
    /// The model of the output.
    pub open spec fn view(&self) -> BlitView {
        BlitView { full: self.full, bytes: self.bytes@ }
    }
}

/// The model of an output that may be missing.
pub open spec fn opt_blit(blit: Option<EncodedBlit>) -> Option<BlitView> {
    match blit {
        Some(blit) => Some(blit@),
        None => None,
    }
}

/// The model of a patch that may be missing.
pub open spec fn opt_patch(patch: Option<(Vec<FramePatchSegment>, bool)>) -> Option<
    (Seq<SegmentView>, bool),
> {
    match patch {
        Some((segments, cursor_changed)) => Some((segments_view(segments@), cursor_changed)),
        None => None,
    }
}

/// The model of a frame that may be missing.
pub open spec fn opt_frame(frame: Option<FrameData>) -> Option<FrameView> {
    match frame {
        Some(frame) => Some(frame@),
        None => None,
    }
}

/// A message for a client, with what becomes the baseline once it was sent.
#[derive(Debug, PartialEq, Eq)]
pub enum PreparedRender {
    Semantic {
        message: ServerMessage,
        /// The complete frame, whether the message holds it or only what has changed.
        frame: FrameData,
    },
    TerminalAnsi { message: ServerMessage, frame: FrameData, encoded: Option<EncodedBlit> },
}

/// The model of [`PreparedRender`].
pub enum PreparedView {
    Semantic { message: ServerMessageView, frame: FrameView },
    TerminalAnsi { message: ServerMessageView, frame: FrameView, encoded: Option<BlitView> },
}

impl PreparedView {
    /// The message to send.
    pub open spec fn message(self) -> ServerMessageView {
        match self {
            PreparedView::Semantic { message, .. } => message,
            PreparedView::TerminalAnsi { message, .. } => message,
        }
    }

    /// The complete frame.
    pub open spec fn frame(self) -> FrameView {
        match self {
            PreparedView::Semantic { frame, .. } => frame,
            PreparedView::TerminalAnsi { frame, .. } => frame,
        }
    }
}

impl PreparedRender {
    /// The model of the prepared message.
    pub open spec fn view(&self) -> PreparedView {
        match self {
            PreparedRender::Semantic { message, frame } => PreparedView::Semantic {
                message: message@,
                frame: frame@,
            },
            PreparedRender::TerminalAnsi { message, frame, encoded } => PreparedView::TerminalAnsi {
                message: message@,
                frame: frame@,
                encoded: opt_blit(*encoded),
            },
        }
    }

    /// The message to send.
    pub fn message(&self) -> (r: &ServerMessage)
        ensures
            r@ == self@.message(),
    {
        match self {
            PreparedRender::Semantic { message, .. } => message,
            PreparedRender::TerminalAnsi { message, .. } => message,
        }
    }

    /// The complete frame.
    pub fn into_frame(self) -> (r: Option<FrameData>)
        ensures
            opt_frame(r) == Some(self@.frame()),
    {
        match self {
            PreparedRender::Semantic { frame, .. } => Some(frame),
            PreparedRender::TerminalAnsi { frame, .. } => Some(frame),
        }
    }
}

/// The model of a prepared message that may be missing.
pub open spec fn opt_prepared(prepared: Option<PreparedRender>) -> Option<PreparedView> {
    match prepared {
        Some(prepared) => Some(prepared@),
        None => None,
    }
}

/// What a client's state stands for: the frame that the client shows, where it is known,
/// and for a terminal how many frames it has been sent.
pub enum RenderView {
    Semantic { last_frame: Option<FrameView> },
    TerminalAnsi { last_frame: Option<FrameView>, seq: u64 },
}

impl RenderView {
    /// A client that has been sent nothing.
    pub open spec fn fresh(encoding: RenderEncoding) -> Self {
        match encoding {
            RenderEncoding::SemanticFrame => RenderView::Semantic { last_frame: None },
            RenderEncoding::TerminalAnsi => RenderView::TerminalAnsi { last_frame: None, seq: 0 },
        }
    }

    /// The frame that the client shows.
    pub open spec fn last_frame(self) -> Option<FrameView> {
        match self {
            RenderView::Semantic { last_frame } => last_frame,
            RenderView::TerminalAnsi { last_frame, .. } => last_frame,
        }
    }

    /// The client, with nothing known of what it shows.
    pub open spec fn forget(self) -> Self {
        match self {
            RenderView::Semantic { .. } => RenderView::Semantic { last_frame: None },
            RenderView::TerminalAnsi { seq, .. } => RenderView::TerminalAnsi {
                last_frame: None,
                seq,
            },
        }
    }

    /// The client can be sent one more frame.
    pub open spec fn has_room(self) -> bool {
        self matches RenderView::TerminalAnsi { seq, .. } ==> seq < u64::MAX
    }

    /// Sending the prepared message makes one more frame that the terminal has been sent.
    pub open spec fn counts(self, prepared: PreparedView) -> bool {
        self is TerminalAnsi && prepared matches PreparedView::TerminalAnsi { encoded: Some(_), .. }
    }

    /// What is sent for `frame`. A client that shows cells is sent nothing where it shows
    /// the same already, the patch where it shows a frame of the same size and a patch is
    /// given, and the whole frame otherwise. A terminal is sent what the encoder made of
    /// the frame, and nothing where the encoder says that it is current.
    pub open spec fn prepare(
        self,
        frame: FrameView,
        patch: Option<(Seq<SegmentView>, bool)>,
        blit: Option<BlitView>,
    ) -> Option<PreparedView> {
        match self {
            RenderView::Semantic { last_frame } => if last_frame matches Some(shown)
                && shown.same_content(frame) {
                None
            } else {
                Some(
                    PreparedView::Semantic {
                        message: match (patch, last_frame) {
                            (Some((segments, cursor_changed)), Some(shown)) => if shown.same_size(
                                frame,
                            ) {
                                ServerMessageView::FramePatch {
                                    segments,
                                    cursor: frame.cursor,
                                    cursor_changed,
                                }
                            } else {
                                ServerMessageView::Frame(frame)
                            },
                            _ => ServerMessageView::Frame(frame),
                        },
                        frame,
                    },
                )
            },
            RenderView::TerminalAnsi { seq, .. } => match blit {
                None => None,
                Some(blit) => {
                    let bytes = with_graphics(blit.bytes, frame.graphics);
                    Some(
                        PreparedView::TerminalAnsi {
                            message: ServerMessageView::Terminal {
                                seq: (seq + 1) as u64,
                                width: frame.width,
                                height: frame.height,
                                full: blit.full,
                                bytes,
                            },
                            frame,
                            encoded: Some(BlitView { full: blit.full, bytes }),
                        },
                    )
                },
            },
        }
    }

    /// The client after a prepared message was sent.
    pub open spec fn commit(self, prepared: PreparedView) -> Self {
        match (self, prepared) {
            (RenderView::Semantic { .. }, PreparedView::Semantic { frame, .. }) =>
                RenderView::Semantic { last_frame: Some(frame) },
            (
                RenderView::TerminalAnsi { seq, .. },
                PreparedView::TerminalAnsi { frame, encoded: Some(_), .. },
            ) => RenderView::TerminalAnsi { last_frame: Some(frame), seq: (seq + 1) as u64 },
            _ => self,
        }
    }
}

/// What the server knows of what a client shows.
pub enum ClientRenderState {
    /// A client that is sent cells.
    Semantic { last_frame: Option<FrameData> },
    /// A client that is sent output for a terminal.
    TerminalAnsi { last_frame: Option<FrameData>, seq: u64 },
}

impl ClientRenderState {
    /// The model of the state.
    pub open spec fn view(&self) -> RenderView {
        match self {
            ClientRenderState::Semantic { last_frame } => RenderView::Semantic {
                last_frame: opt_frame(*last_frame),
            },
            ClientRenderState::TerminalAnsi { last_frame, seq } => RenderView::TerminalAnsi {
                last_frame: opt_frame(*last_frame),
                seq: *seq,
            },
        }
    }

    /// A client that has been sent nothing.
    pub fn new(render_encoding: RenderEncoding) -> (r: Self)
        ensures
            r@ == RenderView::fresh(render_encoding),
    {
        match render_encoding {
            RenderEncoding::SemanticFrame => ClientRenderState::Semantic { last_frame: None },
            RenderEncoding::TerminalAnsi => ClientRenderState::TerminalAnsi {
                last_frame: None,
                seq: 0,
            },
        }
    }

    /// Forgets what the client shows.
    pub fn reset_baseline(&mut self)
        ensures
            final(self)@ == old(self)@.forget(),
    {
        match self {
            ClientRenderState::Semantic { last_frame } => {
                *last_frame = None;
            },
            ClientRenderState::TerminalAnsi { last_frame, .. } => {
                *last_frame = None;
            },
        }
    }

    /// Forgets what the client shows, where it is sent cells.
    pub fn reset_semantic_input_baseline(&mut self)
        ensures
            final(self)@ == if old(self)@ is Semantic {
                old(self)@.forget()
            } else {
                old(self)@
            },
    {
        match self {
            ClientRenderState::Semantic { last_frame } => {
                *last_frame = None;
            },
            ClientRenderState::TerminalAnsi { .. } => {},
        }
    }

    /// What to send for `frame`; `blit` is what the encoder made of it for a terminal,
    /// nothing where the terminal shows it already.
    pub fn prepare_frame(&self, frame: FrameData, blit: Option<EncodedBlit>) -> (r: Option<
        PreparedRender,
    >)
        requires
            blit is Some ==> self@.has_room(),
        ensures
            opt_prepared(r) == self@.prepare(frame@, None, opt_blit(blit)),
    {
        self.prepare_frame_with_patch(frame, None, blit)
    }

    /// Like [`ClientRenderState::prepare_frame`], with a patch that leads from what the
    /// client shows to `frame`. It is sent in place of the frame to a client that is sent
    /// cells and shows a frame of the same size.
    pub fn prepare_frame_with_patch(
        &self,
        frame: FrameData,
        patch: Option<(Vec<FramePatchSegment>, bool)>,
        blit: Option<EncodedBlit>,
    ) -> (r: Option<PreparedRender>)
        requires
            blit is Some ==> self@.has_room(),
        ensures
            opt_prepared(r) == self@.prepare(frame@, opt_patch(patch), opt_blit(blit)),
    {
        match self {
            ClientRenderState::Semantic { last_frame } => {
                let patchable = match last_frame {
                    Some(shown) => {
                        if shown.content_eq(&frame) {
                            return None;
                        }
                        shown.width == frame.width && shown.height == frame.height
                    },
                    None => false,
                };
                let message = match patch {
                    Some((segments, cursor_changed)) => {
                        if patchable {
                            ServerMessage::FramePatch {
                                segments,
                                cursor: frame.cursor,
                                cursor_changed,
                            }
                        } else {
                            ServerMessage::Frame(frame.duplicate())
                        }
                    },
                    None => ServerMessage::Frame(frame.duplicate()),
                };
                Some(PreparedRender::Semantic { message, frame })
            },
            ClientRenderState::TerminalAnsi { seq, .. } => {
                match blit {
                    None => None,
                    Some(blit) => {
                        let mut encoded = blit;
                        insert_graphics_before_sync_end(&mut encoded.bytes, &frame.graphics);
                        Some(
                            PreparedRender::TerminalAnsi {
                                message: ServerMessage::Terminal(
                                    TerminalFrame {
                                        seq: *seq + 1,
                                        width: frame.width,
                                        height: frame.height,
                                        full: encoded.full,
                                        bytes: duplicate_bytes(&encoded.bytes),
                                    },
                                ),
                                frame,
                                encoded: Some(encoded),
                            },
                        )
                    },
                }
            },
        }
    }

    /// The frame that the client shows, where it is known.
    pub fn last_frame(&self) -> (r: Option<&FrameData>)
        ensures
            match r {
                Some(frame) => self@.last_frame() == Some(frame@),
                None => self@.last_frame() is None,
            },
    {
        match self {
            ClientRenderState::Semantic { last_frame } => match last_frame {
                Some(frame) => Some(frame),
                None => None,
            },
            ClientRenderState::TerminalAnsi { last_frame, .. } => match last_frame {
                Some(frame) => Some(frame),
                None => None,
            },
        }
    }

    /// Takes note that a prepared message was sent.
    pub fn commit_sent_frame(&mut self, prepared: PreparedRender)
        requires
            old(self)@.counts(prepared@) ==> old(self)@.has_room(),
        ensures
            final(self)@ == old(self)@.commit(prepared@),
    {
        match self {
            ClientRenderState::Semantic { last_frame } => {
                if let PreparedRender::Semantic { frame, .. } = prepared {
                    *last_frame = Some(frame);
                }
            },
            ClientRenderState::TerminalAnsi { last_frame, seq } => {
                if let PreparedRender::TerminalAnsi { frame, encoded: Some(_), .. } = prepared {
                    *last_frame = Some(frame);
                    *seq = *seq + 1;
                }
            },
        }
    }

    /// How many frames a terminal has been sent.
    pub fn terminal_seq(&self) -> (r: Option<u64>)
        ensures
            r == match self@ {
                RenderView::Semantic { .. } => None,
                RenderView::TerminalAnsi { seq, .. } => Some(seq),
            },
    {
        match self {
            ClientRenderState::Semantic { .. } => None,
            ClientRenderState::TerminalAnsi { seq, .. } => Some(*seq),
        }
    }
}

/// The baseline converges: once what was prepared for a frame has been sent, the frame is
/// what the client shows, whether it was sent whole or as a patch.
pub proof fn law_baseline_becomes_the_frame(
    state: RenderView,
    frame: FrameView,
    patch: Option<(Seq<SegmentView>, bool)>,
    blit: Option<BlitView>,
)
    ensures
        state.prepare(frame, patch, blit) matches Some(prepared) ==> state.commit(
            prepared,
        ).last_frame() == Some(frame),
{
}

/// What is shown already is not sent again: after a frame was sent to a client that is
/// sent cells, a frame with the same content leads to no message.
pub proof fn law_shown_frame_is_not_sent_again(
    state: RenderView,
    frame: FrameView,
    patch: Option<(Seq<SegmentView>, bool)>,
    blit: Option<BlitView>,
    again: FrameView,
    next_patch: Option<(Seq<SegmentView>, bool)>,
)
    requires
        state is Semantic,
        frame.same_content(again),
    ensures
        state.prepare(frame, patch, blit) matches Some(prepared) ==> state.commit(prepared).prepare(
            again,
            next_patch,
            None,
        ) is None,
{
}

/// What a client that is sent cells gets for a frame: nothing exactly when it shows the
/// same already; else the patch exactly when there is one and the client shows a frame of
/// the same size, with the cursor of the frame; else the whole frame.
pub proof fn law_patch_needs_a_matching_baseline(
    state: RenderView,
    frame: FrameView,
    patch: Option<(Seq<SegmentView>, bool)>,
    blit: Option<BlitView>,
)
    requires
        state is Semantic,
    ensures
        state.prepare(frame, patch, blit) is None <==> (state.last_frame() matches Some(shown)
            && shown.same_content(frame)),
        state.prepare(frame, patch, blit) matches Some(prepared) ==> {
            &&& prepared.frame() == frame
            &&& match (patch, state.last_frame()) {
                (Some((segments, cursor_changed)), Some(shown)) => if shown.same_size(frame) {
                    prepared.message() == ServerMessageView::FramePatch {
                        segments,
                        cursor: frame.cursor,
                        cursor_changed,
                    }
                } else {
                    prepared.message() == ServerMessageView::Frame(frame)
                },
                _ => prepared.message() == ServerMessageView::Frame(frame),
            }
        },
        state.forget().prepare(frame, patch, blit) matches Some(prepared) && prepared.message()
            == ServerMessageView::Frame(frame),
{
}

/// A terminal ignores patches: what it is sent is the same for every patch.
pub proof fn law_terminals_ignore_patches(
    state: RenderView,
    frame: FrameView,
    patch: Option<(Seq<SegmentView>, bool)>,
    other: Option<(Seq<SegmentView>, bool)>,
    blit: Option<BlitView>,
)
    requires
        state is TerminalAnsi,
    ensures
        state.prepare(frame, patch, blit) == state.prepare(frame, other, blit),
        state.prepare(frame, patch, blit) is None <==> blit is None,
        state.prepare(frame, patch, blit) matches Some(prepared) ==> prepared.frame() == frame,
{
}

/// A message changes what is known of a client only when it is of the client's encoding;
/// then its frame is what the client shows. For a terminal the message has to hold output,
/// and counts.
pub proof fn law_only_messages_of_the_encoding_count(state: RenderView, prepared: PreparedView)
    requires
        state.has_room(),
    ensures
        match (state, prepared) {
            (RenderView::Semantic { .. }, PreparedView::Semantic { frame, .. }) => state.commit(
                prepared,
            ) == (RenderView::Semantic { last_frame: Some(frame) }),
            (
                RenderView::TerminalAnsi { seq, .. },
                PreparedView::TerminalAnsi { frame, encoded: Some(_), .. },
            ) => state.commit(prepared) matches RenderView::TerminalAnsi {
                last_frame: Some(shown),
                seq: sent,
            } && shown == frame && sent == seq + 1,
            _ => state.commit(prepared) == state,
        },
{
}

/// The frames for a terminal are numbered one after the other, from one on.
pub proof fn law_terminal_frames_are_numbered_in_order(
    state: RenderView,
    frame: FrameView,
    patch: Option<(Seq<SegmentView>, bool)>,
    blit: BlitView,
)
    requires
        state.has_room(),
    ensures
        RenderView::fresh(RenderEncoding::TerminalAnsi) == (RenderView::TerminalAnsi {
            last_frame: None,
            seq: 0,
        }),
        state matches RenderView::TerminalAnsi { seq, .. } ==> {
            let prepared = state.prepare(frame, patch, Some(blit));
            &&& prepared is Some
            &&& prepared->0.message() matches ServerMessageView::Terminal { seq: number, .. }
                && number == seq + 1
            &&& state.commit(prepared->0) matches RenderView::TerminalAnsi { seq: sent, .. } && sent
                == seq + 1
        },
{
}

// ---------------------------------------------------------------------------
// The cursor
// ---------------------------------------------------------------------------

/// Where a drawing leaves the cursor.
pub struct CursorTracker {
    position: Option<(u16, u16)>,
}

impl CursorTracker {
    /// The place that was last set, unless the cursor was hidden since.
    pub closed spec fn view(&self) -> Option<(u16, u16)> {
        self.position
    }

    /// A drawing that has not placed the cursor.
    pub fn new() -> (r: Self)
        ensures
            r@ is None,
    {
        CursorTracker { position: None }
    }

    /// The cursor was hidden.
    pub fn hide_cursor(&mut self)
        ensures
            final(self)@ is None,
    {
        self.position = None;
    }

    /// The cursor was placed.
    pub fn set_cursor_position(&mut self, x: u16, y: u16)
        ensures
            final(self)@ == Some((x, y)),
    {
        self.position = Some((x, y));
    }

    /// The cursor that the drawing asks for.
    pub fn rendered_cursor(&self) -> (r: Option<CursorState>)
        ensures
            r == match self@ {
                Some((x, y)) => Some(CursorState { x, y, visible: true, shape: 0 }),
                None => None,
            },
    {
        match self.position {
            Some((x, y)) => Some(CursorState { x, y, visible: true, shape: 0 }),
            None => None,
        }
    }
}

/// A running terminal, as far as the cursor is concerned.
#[derive(Debug, Clone, Copy, PartialEq, Eq, Structural)]
pub struct RuntimeCursor {
    /// The terminal is in the middle of a synchronized update.
    pub synchronized_output_active: bool,
    pub cursor: Option<CursorState>,
    pub scrolled_back: bool,
}

/// The cursor of a terminal, hidden where the view is scrolled back.
pub open spec fn shown_cursor(runtime: RuntimeCursor) -> Option<CursorState> {
    match runtime.cursor {
        Some(cursor) => Some(
            CursorState { visible: cursor.visible && !runtime.scrolled_back, ..cursor },
        ),
        None => None,
    }
}

fn visible_cursor(runtime: &RuntimeCursor) -> (r: Option<CursorState>)
    ensures
        r == shown_cursor(*runtime),
{
    match runtime.cursor {
        Some(cursor) => Some(
            CursorState {
                x: cursor.x,
                y: cursor.y,
                visible: cursor.visible && !runtime.scrolled_back,
                shape: cursor.shape,
            },
        ),
        None => None,
    }
}

/// The cursor of a popup: that of its terminal, unless the popup has no terminal or no
/// room, or the terminal is in the middle of an update.
pub open spec fn popup_cursor(runtime: Option<RuntimeCursor>, has_area: bool) -> Option<
    CursorState,
> {
    match runtime {
        Some(runtime) => if runtime.synchronized_output_active || !has_area {
            None
        } else {
            shown_cursor(runtime)
        },
        None => None,
    }
}

/// The cursor of a popup, given its terminal and whether there is room for the popup.
pub fn popup_terminal_cursor(runtime: Option<RuntimeCursor>, has_area: bool) -> (r: Option<
    CursorState,
>)
    ensures
        r == popup_cursor(runtime, has_area),
{
    match runtime {
        Some(runtime) => {
            if runtime.synchronized_output_active || !has_area {
                None
            } else {
                visible_cursor(&runtime)
            }
        },
        None => None,
    }
}

/// A pane in view.
pub struct PaneFacts {
    pub is_focused: bool,
    /// The pane shows the cursor of its terminal as the host's cursor.
    pub exposes_host_cursor: bool,
    /// Whether the pane's terminal is in the middle of a synchronized update; nothing
    /// where the pane has no running terminal.
    pub runtime: Option<bool>,
}

/// The first pane that is focused.
pub open spec fn focused_pane(panes: Seq<PaneFacts>) -> Option<PaneFacts>
    decreases panes.len(),
{
    if panes.len() == 0 {
        None
    } else if panes[0].is_focused {
        Some(panes[0])
    } else {
        focused_pane(panes.skip(1))
    }
}

/// The running terminal of the focused pane that shows its cursor as the host's; whether
/// it is in the middle of an update.
pub open spec fn focused_runtime(
    terminal_mode: bool,
    workspace_active: bool,
    panes: Seq<PaneFacts>,
) -> Option<bool> {
    if !terminal_mode || !workspace_active {
        None
    } else {
        match focused_pane(panes) {
            Some(pane) => if pane.exposes_host_cursor {
                pane.runtime
            } else {
                None
            },
            None => None,
        }
    }
}

fn focused_terminal(terminal_mode: bool, workspace_active: bool, panes: &[PaneFacts]) -> (r: Option<
    bool,
>)
    ensures
        r == focused_runtime(terminal_mode, workspace_active, panes@),
{
    if !terminal_mode || !workspace_active {
        return None;
    }
    let mut i: usize = 0;
    assert(panes@.skip(0) =~= panes@);
    while i < panes.len()
        invariant
            terminal_mode && workspace_active,
            i <= panes@.len(),
            focused_pane(panes@) == focused_pane(panes@.skip(i as int)),
        decreases panes@.len() - i,
    {
        assert(panes@.skip(i as int)[0] == panes@[i as int]);
        assert(panes@.skip(i as int).skip(1) =~= panes@.skip(i + 1));
        if panes[i].is_focused {
            return if panes[i].exposes_host_cursor {
                panes[i].runtime
            } else {
                None
            };
        }
        i += 1;
    }
    None
}

/// Whether the focused pane's terminal decides where the host's cursor is.
pub fn focused_terminal_owns_host_cursor(
    terminal_mode: bool,
    workspace_active: bool,
    panes: &[PaneFacts],
) -> (r: bool)
    ensures
        r == (focused_runtime(terminal_mode, workspace_active, panes@) is Some),
{
    focused_terminal(terminal_mode, workspace_active, panes).is_some()
}

/// Whether the focused pane's terminal is in the middle of an update, so that no cursor
/// is shown.
pub fn focused_terminal_suppresses_host_cursor(
    terminal_mode: bool,
    workspace_active: bool,
    panes: &[PaneFacts],
) -> (r: bool)
    ensures
        r == (focused_runtime(terminal_mode, workspace_active, panes@) == Some(true)),
{
    match focused_terminal(terminal_mode, workspace_active, panes) {
        Some(updating) => updating,
        None => false,
    }
}

/// The cursor of a whole frame. A popup's cursor goes before everything else. Without a
/// popup no cursor is shown where the focused terminal was or is in the middle of an
/// update; otherwise that terminal's cursor is shown, and where it has none, the one that
/// the drawing left, unless the terminal owns the cursor.
pub open spec fn frame_cursor(
    popup: Option<Option<CursorState>>,
    suppressed_before: bool,
    suppressed_after: bool,
    focused: Option<CursorState>,
    terminal_owns: bool,
    rendered: Option<CursorState>,
) -> Option<CursorState> {
    match popup {
        Some(cursor) => cursor,
        None => if suppressed_before || suppressed_after {
            None
        } else if focused is Some {
            focused
        } else if terminal_owns {
            None
        } else {
            rendered
        },
    }
}

/// The cursor of a whole frame, from what was known before and after the layout, the
/// cursor of the focused terminal and the one that the drawing left.
pub fn render_virtual_cursor(
    popup: Option<Option<CursorState>>,
    suppressed_before: bool,
    suppressed_after: bool,
    focused: Option<CursorState>,
    terminal_owns: bool,
    rendered: Option<CursorState>,
) -> (r: Option<CursorState>)
    ensures
        r == frame_cursor(
            popup,
            suppressed_before,
            suppressed_after,
            focused,
            terminal_owns,
            rendered,
        ),
{
    match popup {
        Some(cursor) => cursor,
        None => {
            if suppressed_before || suppressed_after {
                None
            } else if focused.is_some() {
                focused
            } else if terminal_owns {
                None
            } else {
                rendered
            }
        },
    }
}

/// The cursor for a client that is attached to one terminal: none in the middle of an
/// update, else the terminal's, else the one that the drawing left.
pub fn render_terminal_cursor(runtime: &RuntimeCursor, rendered: Option<CursorState>) -> (r: Option<
    CursorState,
>)
    ensures
        r == if runtime.synchronized_output_active {
            None
        } else if runtime.cursor is Some {
            shown_cursor(*runtime)
        } else {
            rendered
        },
{
    if runtime.synchronized_output_active {
        return None;
    }
    let own = visible_cursor(runtime);
    if own.is_some() {
        own
    } else {
        rendered
    }
}

/// No cursor is shown in the middle of an update: neither a popup's, nor the focused
/// terminal's, nor the one that the drawing left.
pub proof fn law_no_cursor_during_an_update(
    runtime: RuntimeCursor,
    has_area: bool,
    suppressed_before: bool,
    suppressed_after: bool,
    focused: Option<CursorState>,
    terminal_owns: bool,
    rendered: Option<CursorState>,
)
    ensures
        runtime.synchronized_output_active ==> popup_cursor(Some(runtime), has_area) is None,
        suppressed_before || suppressed_after ==> frame_cursor(
            None,
            suppressed_before,
            suppressed_after,
            focused,
            terminal_owns,
            rendered,
        ) is None,
{
}

// ---------------------------------------------------------------------------
// Laws
// ---------------------------------------------------------------------------

/// A frame that differs from the one shown in anything, be it one field of one cell, is
/// always sent to a client that is sent cells, as is any frame to a client of which it is
/// not known what it shows.
pub proof fn law_every_difference_is_sent(
    shown: FrameData,
    frame: FrameData,
    patch: Option<(Seq<SegmentView>, bool)>,
    blit: Option<BlitView>,
    i: int,
)
    ensures
        ({
            let differs = {
                ||| shown.width != frame.width
                ||| shown.height != frame.height
                ||| shown.cursor != frame.cursor
                ||| shown.graphics@ != frame.graphics@
                ||| shown.hyperlinks@.len() != frame.hyperlinks@.len()
                ||| shown.cells@.len() != frame.cells@.len()
                ||| 0 <= i < shown.hyperlinks@.len() && shown.hyperlinks@[i]@
                    != frame.hyperlinks@[i]@
                ||| 0 <= i < shown.cells@.len() && {
                    ||| shown.cells@[i].symbol@ != frame.cells@[i].symbol@
                    ||| shown.cells@[i].fg != frame.cells@[i].fg
                    ||| shown.cells@[i].bg != frame.cells@[i].bg
                    ||| shown.cells@[i].modifier != frame.cells@[i].modifier
                    ||| shown.cells@[i].skip != frame.cells@[i].skip
                    ||| shown.cells@[i].hyperlink != frame.cells@[i].hyperlink
                }
            };
            let state = RenderView::Semantic { last_frame: Some(shown@) };
            differs ==> state.prepare(frame@, patch, blit) is Some
        }),
        (RenderView::Semantic { last_frame: None }).prepare(frame@, patch, blit) is Some,
{
    law_same_content_means_every_cell(shown, frame);
}

/// A patch is sent with everything that it holds: its segments in order, and whether the
/// cursor has changed.
pub proof fn law_patch_holds_its_segments(segments: Vec<FramePatchSegment>, cursor_changed: bool)
    ensures
        opt_patch(Some((segments, cursor_changed))) matches Some((sent, changed)) && {
            &&& changed == cursor_changed
            &&& sent.len() == segments@.len()
            &&& forall|i: int| 0 <= i < sent.len() ==> #[trigger] sent[i] == segments@[i]@
        },
{
}

/// Graphics are added to the output and nothing is taken from it: they stand right before
/// the end of the last synchronized update, which is `ESC [ ? 2026 l`, and at the end of
/// output that ends none.
pub proof fn law_graphics_are_only_added(encoded: Seq<u8>, graphics: Seq<u8>)
    ensures
        ({
            let end = seq![0x1bu8, 0x5bu8, 0x3fu8, 0x32u8, 0x30u8, 0x32u8, 0x36u8, 0x6cu8];
            &&& forall|at: int|
                #![trigger encoded.take(at)]
                stands_at(encoded, end, at) && (forall|j: int| j > at ==> !stands_at(encoded, end, j))
                    ==> with_graphics(encoded, graphics) == encoded.take(at) + graphics
                    + encoded.skip(at)
            &&& (forall|j: int| !stands_at(encoded, end, j)) ==> with_graphics(encoded, graphics)
                == encoded + graphics
            &&& with_graphics(encoded, graphics).len() == encoded.len() + graphics.len()
        }),
{
    let end = seq![0x1bu8, 0x5bu8, 0x3fu8, 0x32u8, 0x30u8, 0x32u8, 0x36u8, 0x6cu8];
    assert(sync_output_end() =~= end);
    law_found_place_is_the_last(encoded, end);
    if let Some(found) = last_found(encoded, end) {
        assert forall|at: int| #![trigger encoded.take(at)]
            stands_at(encoded, end, at) && (forall|j: int| j > at ==> !stands_at(encoded, end, j))
            implies at == found by {
            assert(stands_at(encoded, end, found as int));
        }
    }
}

/// What a terminal is sent for a frame is what the encoder made of it, with the graphics
/// of the frame, and the size of the frame.
pub proof fn law_terminal_frame_carries_the_output(
    last_frame: Option<FrameView>,
    seq: u64,
    frame: FrameView,
    patch: Option<(Seq<SegmentView>, bool)>,
    blit: BlitView,
)
    ensures
        (RenderView::TerminalAnsi { last_frame, seq }).prepare(frame, patch, Some(blit)) matches Some(
            PreparedView::TerminalAnsi {
                message: ServerMessageView::Terminal { width, height, full, bytes, .. },
                frame: kept,
                encoded: Some(encoded),
            },
        ) && {
            &&& width == frame.width
            &&& height == frame.height
            &&& full == blit.full
            &&& bytes == with_graphics(blit.bytes, frame.graphics)
            &&& frame.graphics.len() == 0 ==> bytes == blit.bytes
            &&& kept == frame
            &&& encoded.full == full
            &&& encoded.bytes == bytes
        },
{
    lemma_found_inside(blit.bytes, sync_output_end());
    if frame.graphics.len() == 0 {
        assert(blit.bytes + frame.graphics =~= blit.bytes);
        if let Some(at) = last_found(blit.bytes, sync_output_end()) {
            assert(blit.bytes.take(at as int) + frame.graphics + blit.bytes.skip(at as int)
                =~= blit.bytes);
        }
    }
}

/// A client of which it is forgotten what it shows stays a client of the same kind, and
/// a terminal keeps its count.
pub proof fn law_forgetting_keeps_the_count(state: RenderView)
    ensures
        state.forget().last_frame() is None,
        state is Semantic <==> state.forget() is Semantic,
        state matches RenderView::TerminalAnsi { seq, .. } ==> (
        state.forget() matches RenderView::TerminalAnsi { seq: kept, .. } && kept == seq),
        RenderView::fresh(RenderEncoding::SemanticFrame) == (RenderView::Semantic {
            last_frame: None,
        }),
{
}

/// The state of a client holds the very frame that it shows.
pub proof fn law_state_holds_the_frame(last_frame: Option<FrameData>, seq: u64)
    ensures
        ({
            let semantic = ClientRenderState::Semantic { last_frame };
            let terminal = ClientRenderState::TerminalAnsi { last_frame, seq };
            &&& semantic@ is Semantic
            &&& terminal@ matches RenderView::TerminalAnsi { seq: sent, .. } && sent == seq
            &&& last_frame is None ==> semantic@.last_frame() is None && terminal@.last_frame() is None
            &&& last_frame matches Some(frame) ==> semantic@.last_frame() == Some(frame@)
                && terminal@.last_frame() == Some(frame@)
        }),
{
}

/// A terminal's cursor is shown where the terminal has it and with the shape it has; it is
/// visible if and only if it is visible there and the view is not scrolled back.
pub proof fn law_cursor_stays_where_it_is(runtime: RuntimeCursor)
    ensures
        runtime.cursor is None <==> shown_cursor(runtime) is None,
        runtime.cursor matches Some(cursor) ==> (shown_cursor(runtime) matches Some(shown) && {
            &&& shown.x == cursor.x
            &&& shown.y == cursor.y
            &&& shown.shape == cursor.shape
            &&& shown.visible <==> cursor.visible && !runtime.scrolled_back
        }),
{
}

/// A popup shows the cursor of its terminal, and none where the terminal is in the middle
/// of an update, where there is no room and where there is no terminal.
pub proof fn law_popup_shows_its_terminals_cursor(runtime: Option<RuntimeCursor>, has_area: bool)
    ensures
        popup_cursor(runtime, has_area) is Some <==> has_area && (runtime matches Some(terminal)
            && !terminal.synchronized_output_active && terminal.cursor is Some),
        popup_cursor(runtime, has_area) matches Some(cursor) ==> cursor.x == runtime->0.cursor->0.x
            && cursor.y == runtime->0.cursor->0.y && cursor.shape == runtime->0.cursor->0.shape && (
        cursor.visible <==> runtime->0.cursor->0.visible && !runtime->0.scrolled_back),
{
}

/// The pane whose terminal may own the cursor is the first one that is focused.
pub proof fn law_first_focused_pane_counts(panes: Seq<PaneFacts>)
    ensures
        focused_pane(panes) is None <==> forall|i: int|
            0 <= i < panes.len() ==> !(#[trigger] panes[i]).is_focused,
        focused_pane(panes) matches Some(pane) ==> exists|i: int|
            0 <= i < panes.len() && #[trigger] panes[i] == pane && pane.is_focused && forall|j: int|
                0 <= j < i ==> !(#[trigger] panes[j]).is_focused,
    decreases panes.len(),
{
    if panes.len() > 0 {
        if panes[0].is_focused {
            assert(panes[0] == focused_pane(panes)->0);
        } else {
            let rest = panes.skip(1);
            law_first_focused_pane_counts(rest);
            if let Some(pane) = focused_pane(rest) {
                let i = choose|i: int|
                    0 <= i < rest.len() && #[trigger] rest[i] == pane && pane.is_focused && forall|
                        j: int,
                    |
                        0 <= j < i ==> !(#[trigger] rest[j]).is_focused;
                assert(panes[i + 1] == pane);
                assert forall|j: int| 0 <= j < i + 1 implies !(#[trigger] panes[j]).is_focused by {
                    if j > 0 {
                        assert(rest[j - 1] == panes[j]);
                    }
                }
            } else {
                assert forall|j: int| 0 <= j < panes.len() implies !(
                #[trigger] panes[j]).is_focused by {
                    if j > 0 {
                        assert(rest[j - 1] == panes[j]);
                    }
                }
            }
        }
    }
}

/// A terminal owns the cursor only in the terminal's mode, in a workspace that is active,
/// and where its pane is focused and lends the cursor out; then it does exactly if it runs.
pub proof fn law_only_a_focused_terminal_owns_the_cursor(
    terminal_mode: bool,
    workspace_active: bool,
    panes: Seq<PaneFacts>,
)
    ensures
        ({
            let runtime = focused_runtime(terminal_mode, workspace_active, panes);
            let lends = terminal_mode && workspace_active && (focused_pane(panes) matches Some(pane)
                && pane.exposes_host_cursor);
            &&& !lends ==> runtime is None
            &&& lends ==> runtime == focused_pane(panes)->0.runtime
        }),
{
}

/// A popup's cursor goes before everything, even if it has none. Without a popup the cursor
/// comes from the focused terminal, or else from the drawing where no terminal owns it; and
/// while the terminal is in the middle of an update there is none.
pub proof fn law_cursor_has_one_source(
    popup: Option<Option<CursorState>>,
    suppressed_before: bool,
    suppressed_after: bool,
    focused: Option<CursorState>,
    terminal_owns: bool,
    rendered: Option<CursorState>,
)
    ensures
        ({
            let cursor = frame_cursor(
                popup,
                suppressed_before,
                suppressed_after,
                focused,
                terminal_owns,
                rendered,
            );
            let quiet = popup is None && !suppressed_before && !suppressed_after;
            &&& popup matches Some(of_popup) ==> cursor == of_popup
            &&& popup is None && (suppressed_before || suppressed_after) ==> cursor is None
            &&& quiet && focused is Some ==> cursor == focused
            &&& quiet && focused is None && terminal_owns ==> cursor is None
            &&& quiet && focused is None && !terminal_owns ==> cursor == rendered
        }),
{
}

/// A client can be sent a frame as long as its count has not run out, and only a message
/// for a terminal that holds output counts.
pub proof fn law_only_the_count_runs_out(state: RenderView, prepared: PreparedView)
    ensures
        state.has_room() <==> !(state matches RenderView::TerminalAnsi { seq, .. } && seq
            == u64::MAX),
        state.counts(prepared) <==> state is TerminalAnsi && (
        prepared matches PreparedView::TerminalAnsi { encoded, .. } && encoded is Some),
{
}

/// A prepared message is modelled with its message, its frame and its output.
pub proof fn law_prepared_message_is_modelled_whole(prepared: PreparedRender, blit: EncodedBlit)
    ensures
        blit@.full == blit.full,
        blit@.bytes == blit.bytes@,
        opt_blit(Some(blit)) == Some(blit@),
        prepared matches PreparedRender::Semantic { message, frame } ==> prepared@
            == (PreparedView::Semantic { message: message@, frame: frame@ }),
        prepared matches PreparedRender::TerminalAnsi { message, frame, encoded } ==> prepared@
            == (PreparedView::TerminalAnsi {
            message: message@,
            frame: frame@,
            encoded: opt_blit(encoded),
        }),
        prepared@ matches PreparedView::Semantic { message, frame } ==> prepared@.message()
            == message && prepared@.frame() == frame,
        prepared@ matches PreparedView::TerminalAnsi { message, frame, .. } ==> prepared@.message()
            == message && prepared@.frame() == frame,
{
}

} // verus!
