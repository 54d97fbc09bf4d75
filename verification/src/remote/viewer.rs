//! Viewing over the cloud relay: attaching to a host, counting what has been received,
//! and coming back to the same session after the connection dropped.

use vstd::prelude::*;
use crate::remote::duplex::CloudDuplex;
use crate::remote::duplex::DuplexView;
use crate::remote::host::CloseStep;
use crate::remote::reconnect::doubled;
use crate::remote::reconnect::next_delay;
use crate::remote::reconnect::ReconnectAction;
use crate::remote::reconnect::ReconnectEvent;
use crate::remote::reconnect::VIEWER_RECONNECT_INITIAL_DELAY;
use crate::remote::replay::law_replay_gives_back_the_stream;
use crate::remote::replay::ReplayView;
use crate::remote::replay::REPLAY_BUFFER_CAPACITY;
use crate::remote::webrtc_p2p::RemoteSignal;
use crate::remote::webrtc_p2p::SignalView;
use crate::remote::wire::attach;
use crate::remote::wire::attach_view;
use crate::remote::wire::bare_bytes;
use crate::remote::wire::encodable;
use crate::remote::wire::extract_bare_bytes;
use crate::remote::wire::extract_bytes_field;
use crate::remote::wire::extract_json_field;
use crate::remote::wire::extract_reason;
use crate::remote::wire::extract_str_field;
use crate::remote::wire::extract_u64_field;
use crate::remote::wire::input;
use crate::remote::wire::input_view;
use crate::remote::wire::payload_as_value;
use crate::remote::wire::reattach;
use crate::remote::wire::reattach_view;
use crate::remote::wire::Emit;
use crate::remote::wire::EmitView;
use crate::remote::wire::Payload;
use crate::text::concat;
use crate::text::copy_of;
use crate::text::hex;
use crate::text::hex_string;
use crate::text::lemma_first_field;
use crate::text::lemma_radix_digits;
use crate::text::lemma_radix_injective;

verus! {

/// How long an attach waits for its answer, in nanoseconds.
pub const ATTACH_TIMEOUT: u128 = 10_000_000_000;

// ---------------------------------------------------------------------------
// Session ids
// ---------------------------------------------------------------------------

/// The session id made of a process id, a time in nanoseconds and a count.
pub open spec fn session_id_text(pid: u32, nanos: u128, counter: u64) -> Seq<char> {
    hex(pid as nat).push('-') + (hex(nanos as nat).push('-') + hex(counter as nat))
}

/// The session id made of a process id, a time in nanoseconds and a count.
pub fn generate_viewer_session_id(pid: u32, nanos: u128, counter: u64) -> (r: String)
    ensures
        r@ == session_id_text(pid, nanos, counter),
{
    let mut out = hex_string(pid as u128);
    out.push('-');
    out.push_str(hex_string(nanos).as_str());
    out.push('-');
    out.push_str(hex_string(counter as u128).as_str());
    assert(out@ =~= session_id_text(pid, nanos, counter));
    out
}

proof fn lemma_hex_has_no_dash(n: nat)
    ensures
        !hex(n).contains('-'),
{
    lemma_radix_digits(n, 16);
    if hex(n).contains('-') {
        let i = choose|i: int| 0 <= i < hex(n).len() && hex(n)[i] == '-';
        assert(hex(n)[i] == '-');
    }
}

/// Two sessions have the same id only if the process, the time and the count are the
/// same.
pub proof fn law_session_ids_are_unique(
    pid_a: u32,
    nanos_a: u128,
    counter_a: u64,
    pid_b: u32,
    nanos_b: u128,
    counter_b: u64,
)
    requires
        session_id_text(pid_a, nanos_a, counter_a) == session_id_text(pid_b, nanos_b, counter_b),
    ensures
        pid_a == pid_b,
        nanos_a == nanos_b,
        counter_a == counter_b,
{
    lemma_hex_has_no_dash(pid_a as nat);
    lemma_hex_has_no_dash(pid_b as nat);
    lemma_hex_has_no_dash(nanos_a as nat);
    lemma_hex_has_no_dash(nanos_b as nat);
    lemma_first_field(
        hex(pid_a as nat),
        hex(nanos_a as nat).push('-') + hex(counter_a as nat),
        hex(pid_b as nat),
        hex(nanos_b as nat).push('-') + hex(counter_b as nat),
        '-',
    );
    lemma_first_field(
        hex(nanos_a as nat),
        hex(counter_a as nat),
        hex(nanos_b as nat),
        hex(counter_b as nat),
        '-',
    );
    lemma_radix_injective(pid_a as nat, pid_b as nat, 16);
    lemma_radix_injective(nanos_a as nat, nanos_b as nat, 16);
    lemma_radix_injective(counter_a as nat, counter_b as nat, 16);
}

// ---------------------------------------------------------------------------
// The answer to an attach
// ---------------------------------------------------------------------------

/// How an attach was answered.
pub type AttachResult = Result<(), String>;

/// The model of an answer that may not have come yet.
pub open spec fn result_view(state: Option<AttachResult>) -> Option<Result<(), Seq<char>>> {
    match state {
        Some(Ok(())) => Some(Ok(())),
        Some(Err(reason)) => Some(Err(reason@)),
        None => None,
    }
}

/// What waiting for the answer comes to.
#[derive(Debug, PartialEq, Eq)]
pub enum AttachWait {
    /// The attach was accepted.
    Attached,
    /// The attach was refused; the message says so and gives the reason.
    Rejected(String),
    /// No answer came in time.
    TimedOut,
    /// Wait for the answer, at most so many nanoseconds.
    Wait(u128),
}

/// Notes the answer to an attach, unless one is noted already.
pub fn signal_attach_result(state: &mut Option<AttachResult>, result: AttachResult)
    ensures
        *final(state) == if *old(state) is None {
            Some(result)
        } else {
            *old(state)
        },
{
    if state.is_none() {
        *state = Some(result);
    }
}

/// The moment until which an attach that begins at `now` waits for its answer.
pub fn attach_deadline(now: u128) -> (r: u128)
    requires
        now + ATTACH_TIMEOUT <= u128::MAX,
    ensures
        r == now + ATTACH_TIMEOUT,
{
    now + ATTACH_TIMEOUT
}

/// Takes the answer to an attach, or says how long to wait for it. `timed_out` says
/// whether the wait before this call ended by its time running out.
pub fn wait_for_attach_result(
    state: &mut Option<AttachResult>,
    deadline: u128,
    now: u128,
    timed_out: bool,
) -> (r: AttachWait)
    ensures
        *final(state) is None,
        match *old(state) {
            Some(Ok(())) => r is Attached,
            Some(Err(reason)) => r matches AttachWait::Rejected(message) && message@
                == "cloud viewer: attach rejected: "@ + reason@,
            None => if timed_out || now >= deadline {
                r is TimedOut
            } else {
                r matches AttachWait::Wait(time) && time == deadline - now
            },
        },
{
    let result = state.take();
    match result {
        Some(Ok(())) => AttachWait::Attached,
        Some(Err(reason)) => AttachWait::Rejected(
            concat("cloud viewer: attach rejected: ", reason.as_str()),
        ),
        None => {
            if timed_out || now >= deadline {
                AttachWait::TimedOut
            } else {
                AttachWait::Wait(deadline - now)
            }
        },
    }
}

/// What is said when no answer came in time.
pub fn attach_timeout_message() -> (r: &'static str)
    ensures
        r@ == "cloud viewer: timed out waiting for term:attach:ack/term:attach:error"@,
{
    "cloud viewer: timed out waiting for term:attach:ack/term:attach:error"
}

// ---------------------------------------------------------------------------
// The viewer
// ---------------------------------------------------------------------------

/// The position after `count` more bytes. Positions start over after 2^64 bytes.
pub open spec fn advanced(seq: u64, count: nat) -> u64 {
    ((seq + count) % 18446744073709551616) as u64
}

/// What a viewer stands for.
#[verifier::ext_equal]
pub struct ViewerView {
    /// The device that is viewed.
    pub target: Seq<char>,
    pub session_id: Seq<char>,
    /// The position up to which the host's output has been received.
    pub last_ack_seq: u64,
    /// The session exists at the host: the next connection asks for it back.
    pub attached_before: bool,
    pub attach_state: Option<Result<(), Seq<char>>>,
    /// The host has ended the session.
    pub detached: bool,
    /// The host has lost its own connection for now.
    pub suspended: bool,
    pub reconnecting: bool,
    pub connected: bool,
    /// There is a negotiation to hand signals to.
    pub negotiating: bool,
}

impl ViewerView {
    /// A viewer that has not connected yet.
    pub open spec fn fresh(target: Seq<char>, session_id: Seq<char>) -> Self {
        ViewerView {
            target,
            session_id,
            last_ack_seq: 0,
            attached_before: false,
            attach_state: None,
            detached: false,
            suspended: false,
            reconnecting: false,
            connected: false,
            negotiating: false,
        }
    }

    /// The viewer after an answer to its attach; the first one counts.
    pub open spec fn signal(self, result: Result<(), Seq<char>>) -> Self {
        ViewerView {
            attach_state: if self.attach_state is None {
                Some(result)
            } else {
                self.attach_state
            },
            ..self
        }
    }

    /// What an open connection asks for: a session, or the session back.
    pub open spec fn opening(self) -> EmitView {
        if self.attached_before {
            reattach_view(self.target, self.session_id, self.last_ack_seq)
        } else {
            attach_view(self.target, self.session_id)
        }
    }

    /// The viewer after its attach was accepted: the stream begins anew.
    pub open spec fn attached(self) -> Self {
        ViewerView {
            attached_before: true,
            last_ack_seq: 0,
            negotiating: true,
            ..self.signal(Ok(()))
        }
    }

    /// The viewer after it got its session back, with the stream going on at `seq`.
    pub open spec fn resumed(self, seq: u64) -> Self {
        ViewerView {
            attached_before: true,
            last_ack_seq: seq,
            negotiating: true,
            ..self.signal(Ok(()))
        }
    }

    /// The viewer after `bytes` of the host's output arrived over the relay.
    pub open spec fn received(self, bytes: Seq<u8>) -> Self {
        ViewerView {
            suspended: false,
            last_ack_seq: advanced(self.last_ack_seq, bytes.len()),
            ..self
        }
    }

    /// The viewer after `bytes` of the host's output arrived over the data channel.
    pub open spec fn received_over_channel(self, bytes: Seq<u8>) -> Self {
        ViewerView { last_ack_seq: advanced(self.last_ack_seq, bytes.len()), ..self }
    }

    /// The viewer after an arrival.
    pub open spec fn arrived(self, arrival: Arrival) -> Self {
        match arrival {
            Arrival::Frame(bytes) => self.received(bytes),
            Arrival::Channel(bytes) => self.received_over_channel(bytes),
        }
    }

    /// The viewer after the arrivals in `arrivals`, the first one first.
    pub open spec fn arrived_all(self, arrivals: Seq<Arrival>) -> Self
        decreases arrivals.len(),
    {
        if arrivals.len() == 0 {
            self
        } else {
            self.arrived_all(arrivals.drop_last()).arrived(arrivals.last())
        }
    }

    /// What the end of the connection leads to.
    pub open spec fn close_step(self) -> CloseStep {
        if self.detached {
            CloseStep::Expected
        } else if self.reconnecting {
            CloseStep::AlreadyReconnecting
        } else {
            CloseStep::Reconnect
        }
    }

    /// What the loop that restores the connection does next.
    pub open spec fn reconnect_action(self, delay: u64, event: ReconnectEvent) -> ReconnectAction {
        match event {
            ReconnectEvent::Started => if self.detached {
                ReconnectAction::Quit
            } else {
                ReconnectAction::Sleep(VIEWER_RECONNECT_INITIAL_DELAY)
            },
            ReconnectEvent::Woke => ReconnectAction::Attempt,
            ReconnectEvent::Attempted(true) => ReconnectAction::Quit,
            ReconnectEvent::Attempted(false) => if self.detached {
                ReconnectAction::Quit
            } else {
                ReconnectAction::Sleep(doubled(delay))
            },
        }
    }

    /// A signal that arrived, where there is a negotiation to hand it to.
    pub open spec fn routed(self, signal: Option<SignalView>) -> Option<SignalView> {
        if self.negotiating {
            signal
        } else {
            None
        }
    }
}

/// Output of the host that reaches a viewer.
pub enum Arrival {
    /// Over the relay.
    Frame(Seq<u8>),
    /// Over the data channel.
    Channel(Seq<u8>),
}

impl Arrival {
    /// The bytes that arrive.
    pub open spec fn bytes(self) -> Seq<u8> {
        match self {
            Arrival::Frame(bytes) => bytes,
            Arrival::Channel(bytes) => bytes,
        }
    }
}

/// The bytes of the arrivals in `arrivals`, joined in order.
pub open spec fn arrived_bytes(arrivals: Seq<Arrival>) -> Seq<u8>
    decreases arrivals.len(),
{
    if arrivals.len() == 0 {
        Seq::empty()
    } else {
        arrived_bytes(arrivals.drop_last()) + arrivals.last().bytes()
    }
}

/// The duplex after the arrivals in `arrivals`, the first one first.
pub open spec fn pushed_all<W>(duplex: DuplexView<W>, arrivals: Seq<Arrival>) -> DuplexView<W>
    decreases arrivals.len(),
{
    if arrivals.len() == 0 {
        duplex
    } else {
        pushed_all(duplex, arrivals.drop_last()).push(arrivals.last().bytes())
    }
}

/// One viewer, for as long as it views: it lasts over every reconnect.
pub struct CloudViewer {
    target: String,
    session_id: String,
    last_ack_seq: u64,
    attached_before: bool,
    attach_state: Option<AttachResult>,
    detached: bool,
    suspended: bool,
    reconnecting: bool,
    connected: bool,
    negotiating: bool,
}

impl CloudViewer {
    /// The model of the viewer.
    pub closed spec fn view(&self) -> ViewerView {
        ViewerView {
            target: self.target@,
            session_id: self.session_id@,
            last_ack_seq: self.last_ack_seq,
            attached_before: self.attached_before,
            attach_state: result_view(self.attach_state),
            detached: self.detached,
            suspended: self.suspended,
            reconnecting: self.reconnecting,
            connected: self.connected,
            negotiating: self.negotiating,
        }
    }

    /// A viewer of the device `target` that has not connected yet.
    pub fn new(target: String, session_id: String) -> (r: Self)
        ensures
            r@ == ViewerView::fresh(target@, session_id@),
    {
        CloudViewer {
            target,
            session_id,
            last_ack_seq: 0,
            attached_before: false,
            attach_state: None,
            detached: false,
            suspended: false,
            reconnecting: false,
            connected: false,
            negotiating: false,
        }
    }

    /// Whether the host has lost its own connection for now.
    pub fn is_suspended(&self) -> (r: bool)
        ensures
            r == self@.suspended,
    {
        self.suspended
    }

    /// A connection is open: the viewer asks for a session, or for its session back.
    pub fn open(&mut self) -> (r: Emit)
        ensures
            final(self)@ == (ViewerView { connected: true, ..old(self)@ }),
            r@ == old(self)@.opening(),
    {
        self.connected = true;
        if self.attached_before {
            reattach(self.target.as_str(), self.session_id.as_str(), self.last_ack_seq)
        } else {
            attach(self.target.as_str(), self.session_id.as_str())
        }
    }

    /// What the viewer asked for on opening could not be sent.
    pub fn open_failed(&mut self, err: &str)
        ensures
            final(self)@ == old(self)@.signal(
                Err("failed to send term:attach/term:reattach: "@ + err@),
            ),
    {
        let message = concat("failed to send term:attach/term:reattach: ", err);
        signal_attach_result(&mut self.attach_state, Err(message));
    }

    /// The host gives the session back. What the viewer missed arrives at the duplex, and
    /// the result says whether to negotiate a data channel: not where the answer does not
    /// say where the stream goes on.
    pub fn reattach_ack<W>(&mut self, payload: &Payload, duplex: &mut CloudDuplex<W>) -> (r: bool)
        requires
            old(duplex).wf(),
        ensures
            final(duplex).wf(),
            r == (payload.whole_field("resume_seq"@) is Some),
            match payload.whole_field("resume_seq"@) {
                Some(seq) => {
                    &&& final(self)@ == old(self)@.resumed(seq)
                    &&& final(duplex)@ == match payload.bytes_field("replay_bytes"@) {
                        Some(missed) => old(duplex)@.push(missed),
                        None => old(duplex)@,
                    }
                },
                None => {
                    &&& final(duplex)@ == old(duplex)@
                    &&& final(self)@ == old(self)@.signal(
                        Err(
                            if payload.value() is None {
                                "malformed term:reattach_ack"@
                            } else {
                                "term:reattach_ack missing resume_seq"@
                            },
                        ),
                    )
                },
            },
    {
        if payload_as_value(payload).is_none() {
            signal_attach_result(
                &mut self.attach_state,
                Err(copy_of("malformed term:reattach_ack")),
            );
            return false;
        }
        let resume_seq: u64 = match extract_u64_field(payload, "resume_seq") {
            Some(seq) => seq,
            None => {
                signal_attach_result(
                    &mut self.attach_state,
                    Err(copy_of("term:reattach_ack missing resume_seq")),
                );
                return false;
            },
        };
        if let Some(replay_bytes) = extract_bytes_field(payload, "replay_bytes") {
            if replay_bytes.len() > 0 {
                duplex.push(&replay_bytes);
            } else {
                assert(duplex@.buffer + replay_bytes@ =~= duplex@.buffer);
                assert(duplex@.push(replay_bytes@) =~= duplex@);
            }
        }
        self.last_ack_seq = resume_seq;
        self.attached_before = true;
        signal_attach_result(&mut self.attach_state, Ok(()));
        self.negotiating = true;
        true
    }

    /// The host does not give the session back: the viewer asks for a new one over the
    /// same connection. The reason comes with it.
    pub fn reattach_error(&self, payload: &Payload) -> (r: (String, Emit))
        ensures
            r.0@ == payload.reason(),
            r.1@ == attach_view(self@.target, self@.session_id),
    {
        (
            extract_reason(payload),
            attach(self.target.as_str(), self.session_id.as_str()),
        )
    }

    /// The wish for a new session could not be sent.
    pub fn fallback_failed(&mut self, err: &str)
        ensures
            final(self)@ == old(self)@.signal(
                Err("failed to send fallback term:attach: "@ + err@),
            ),
    {
        let message = concat("failed to send fallback term:attach: ", err);
        signal_attach_result(&mut self.attach_state, Err(message));
    }

    /// The attach was accepted; a data channel is to be negotiated.
    pub fn attach_ack(&mut self)
        ensures
            final(self)@ == old(self)@.attached(),
    {
        self.attached_before = true;
        self.last_ack_seq = 0;
        signal_attach_result(&mut self.attach_state, Ok(()));
        self.negotiating = true;
    }

    /// The attach was refused.
    pub fn attach_error(&mut self, payload: &Payload)
        ensures
            final(self)@ == old(self)@.signal(Err(payload.reason())),
    {
        let reason = extract_reason(payload);
        signal_attach_result(&mut self.attach_state, Err(reason));
    }

    /// Takes the answer to the attach, or says how long to wait for it.
    pub fn attach_result(&mut self, deadline: u128, now: u128, timed_out: bool) -> (r: AttachWait)
        ensures
            final(self)@ == (ViewerView { attach_state: None, ..old(self)@ }),
            match old(self)@.attach_state {
                Some(Ok(())) => r is Attached,
                Some(Err(reason)) => r matches AttachWait::Rejected(message) && message@
                    == "cloud viewer: attach rejected: "@ + reason,
                None => if timed_out || now >= deadline {
                    r is TimedOut
                } else {
                    r matches AttachWait::Wait(time) && time == deadline - now
                },
            },
    {
        wait_for_attach_result(&mut self.attach_state, deadline, now, timed_out)
    }

    fn advance(&mut self, bytes: usize)
        ensures
            final(self)@ == (ViewerView {
                last_ack_seq: advanced(old(self)@.last_ack_seq, bytes as nat),
                ..old(self)@
            }),
    {
        let count: u64 = bytes as u64;
        self.last_ack_seq = if self.last_ack_seq <= u64::MAX - count {
            self.last_ack_seq + count
        } else {
            count - (u64::MAX - self.last_ack_seq) - 1
        };
    }

    /// Output of the host arrives at the duplex over the data channel. It counts like
    /// output over the relay, since the host keeps both for a replay.
    pub fn p2p_data<W>(&mut self, data: &[u8], duplex: &mut CloudDuplex<W>)
        requires
            old(duplex).wf(),
        ensures
            final(duplex).wf(),
            final(duplex)@ == old(duplex)@.push(data@),
            final(self)@ == old(self)@.received_over_channel(data@),
    {
        self.advance(data.len());
        duplex.push_p2p(data);
    }

    /// Output of the host arrives at the duplex over the relay. Whether the event held any.
    pub fn frame<W>(&mut self, payload: &Payload, duplex: &mut CloudDuplex<W>) -> (r: bool)
        requires
            old(duplex).wf(),
        ensures
            final(duplex).wf(),
            match bare_bytes(*payload) {
                Some(bytes) => {
                    &&& r
                    &&& final(self)@ == old(self)@.received(bytes)
                    &&& final(duplex)@ == old(duplex)@.push(bytes)
                },
                None => !r && final(self)@ == old(self)@ && final(duplex)@ == old(duplex)@,
            },
    {
        match extract_bare_bytes(payload) {
            Some(bytes) => {
                self.suspended = false;
                self.advance(bytes.len());
                duplex.push(&bytes);
                true
            },
            None => false,
        }
    }

    /// The host has lost its own connection for now. The viewer waits for it to resume.
    pub fn suspended(&mut self)
        ensures
            final(self)@ == (ViewerView { suspended: true, ..old(self)@ }),
    {
        self.suspended = true;
    }

    /// The host's session description goes to the negotiation.
    pub fn webrtc_answer(&self, payload: &Payload) -> (r: Option<RemoteSignal>)
        ensures
            signal_view(r) == self@.routed(
                match payload.text_field("sdp"@) {
                    Some(sdp) => Some(SignalView::Answer(sdp)),
                    None => None,
                },
            ),
    {
        match extract_str_field(payload, "sdp") {
            Some(sdp) => {
                if self.negotiating {
                    Some(RemoteSignal::Answer(sdp))
                } else {
                    None
                }
            },
            None => None,
        }
    }

    /// The host's candidate goes to the negotiation.
    pub fn webrtc_ice(&self, payload: &Payload) -> (r: Option<RemoteSignal>)
        ensures
            signal_view(r) == self@.routed(
                match payload.json_field("candidate"@) {
                    Some(json) => Some(SignalView::IceCandidate(json)),
                    None => None,
                },
            ),
    {
        match extract_json_field(payload, "candidate") {
            Some(json) => {
                if self.negotiating {
                    Some(RemoteSignal::IceCandidate(json))
                } else {
                    None
                }
            },
            None => None,
        }
    }

    /// The host has ended the session: the duplex closes, and the connection will not be
    /// restored.
    pub fn detached<W>(&mut self, duplex: &mut CloudDuplex<W>)
        requires
            old(duplex).wf(),
        ensures
            final(duplex).wf(),
            final(self)@ == (ViewerView { detached: true, suspended: false, ..old(self)@ }),
            final(duplex)@ == old(duplex)@.close(),
    {
        self.detached = true;
        self.suspended = false;
        duplex.close();
    }

    /// The connection has closed.
    pub fn closed(&mut self) -> (r: CloseStep)
        ensures
            r == old(self)@.close_step(),
            final(self)@ == (ViewerView {
                reconnecting: old(self)@.reconnecting || !old(self)@.detached,
                ..old(self)@
            }),
    {
        if self.detached {
            return CloseStep::Expected;
        }
        if self.reconnecting {
            return CloseStep::AlreadyReconnecting;
        }
        self.reconnecting = true;
        CloseStep::Reconnect
    }

    /// One step of the loop that restores the connection. It waits before each attempt,
    /// longer after each failure, and ends when an attempt succeeds, or when the host has
    /// ended the session meanwhile.
    pub fn viewer_reconnect_loop(&mut self, delay: &mut u64, event: ReconnectEvent) -> (r:
        ReconnectAction)
        ensures
            *final(delay) == match event {
                ReconnectEvent::Started => VIEWER_RECONNECT_INITIAL_DELAY,
                ReconnectEvent::Woke => *old(delay),
                ReconnectEvent::Attempted(true) => *old(delay),
                ReconnectEvent::Attempted(false) => doubled(*old(delay)),
            },
            r == old(self)@.reconnect_action(*old(delay), event),
            final(self)@ == (ViewerView {
                reconnecting: old(self)@.reconnecting && r != ReconnectAction::Quit,
                ..old(self)@
            }),
    {
        match event {
            ReconnectEvent::Woke => {
                return ReconnectAction::Attempt;
            },
            ReconnectEvent::Started => {
                *delay = VIEWER_RECONNECT_INITIAL_DELAY;
            },
            ReconnectEvent::Attempted(succeeded) => {
                if succeeded {
                    self.reconnecting = false;
                    return ReconnectAction::Quit;
                }
                *delay = next_delay(*delay);
            },
        }
        if self.detached {
            self.reconnecting = false;
            ReconnectAction::Quit
        } else {
            ReconnectAction::Sleep(*delay)
        }
    }

    /// Input for the host.
    pub fn write(&self, data: &[u8]) -> (r: Result<Emit, String>)
        requires
            encodable(data@.len()),
        ensures
            match r {
                Ok(emit) => self@.connected && emit@ == input_view(data@),
                Err(message) => !self@.connected && message@
                    == "cloud viewer: not connected yet"@,
            },
    {
        if self.connected {
            Ok(input(data))
        } else {
            Err(copy_of("cloud viewer: not connected yet"))
        }
    }
}

/// The model of a signal that may be missing.
pub open spec fn signal_view(signal: Option<RemoteSignal>) -> Option<SignalView> {
    match signal {
        Some(signal) => Some(signal@),
        None => None,
    }
}

// ---------------------------------------------------------------------------
// Laws
// ---------------------------------------------------------------------------

proof fn lemma_arrived_all<W>(duplex: DuplexView<W>, arrivals: Seq<Arrival>)
    requires
        !duplex.closed,
    ensures
        pushed_all(duplex, arrivals) == (DuplexView {
            buffer: duplex.buffer + arrived_bytes(arrivals),
            ..duplex
        }),
    decreases arrivals.len(),
{
    if arrivals.len() == 0 {
        assert(duplex.buffer + Seq::<u8>::empty() =~= duplex.buffer);
    } else {
        let front = arrivals.drop_last();
        lemma_arrived_all(duplex, front);
        assert(duplex.buffer + arrived_bytes(front) + arrivals.last().bytes() =~= duplex.buffer
            + arrived_bytes(arrivals));
    }
}

/// Nothing is lost and nothing doubled over a reconnect. The host has written `writes` to
/// the session; the viewer stood at the position `start`, and what has arrived since, over
/// the relay or the data channel in whatever pieces, is the beginning of what follows
/// there. Then the viewer asks for its session back from the very position that it has
/// reached, and with the replay its duplex has been given exactly what the host wrote from
/// `start` on, in order; it counts on where the host does. This holds as long as what it
/// missed is still kept.
pub proof fn law_reattached_viewer_has_the_whole_stream<W>(
    viewer: ViewerView,
    duplex: DuplexView<W>,
    writes: Seq<Seq<u8>>,
    arrivals: Seq<Arrival>,
)
    requires
        viewer.attached_before,
        !duplex.closed,
        viewer.last_ack_seq + arrived_bytes(arrivals).len() <= writes.flatten().len() <= u64::MAX,
        arrived_bytes(arrivals).is_prefix_of(writes.flatten().skip(viewer.last_ack_seq as int)),
        writes.flatten().len() <= viewer.last_ack_seq + arrived_bytes(arrivals).len()
            + REPLAY_BUFFER_CAPACITY,
    ensures
        ({
            let start = viewer.last_ack_seq;
            let before = viewer.arrived_all(arrivals);
            let reached = (start + arrived_bytes(arrivals).len()) as u64;
            let given = pushed_all(duplex, arrivals);
            &&& before.opening() == reattach_view(viewer.target, viewer.session_id, reached)
            &&& ReplayView::after(writes).replay(reached as nat) matches Some((missed, next))
            &&& given.push(missed).buffer == duplex.buffer + writes.flatten().skip(start as int)
            &&& before.resumed(next as u64).last_ack_seq == writes.flatten().len()
        }),
{
    let start = viewer.last_ack_seq as int;
    let seen = arrived_bytes(arrivals);
    let stream = writes.flatten();
    lemma_arrived_all(duplex, arrivals);
    lemma_arrivals_keep(viewer, arrivals);
    law_replay_gives_back_the_stream(writes, (start + seen.len()) as nat);
    assert(seen =~= stream.skip(start).take(seen.len() as int));
    assert(duplex.buffer + seen + stream.skip(start + seen.len()) =~= duplex.buffer + stream.skip(
        start,
    ));
}

/// A viewer that was ever attached asks for its session back on every later connection,
/// from the position that it has reached; a viewer that never was asks for a session.
pub proof fn law_later_connections_ask_for_the_session(
    viewer: ViewerView,
    seq: u64,
    arrivals: Seq<Arrival>,
)
    ensures
        !viewer.attached_before ==> viewer.opening() == attach_view(
            viewer.target,
            viewer.session_id,
        ),
        ({
            let later = viewer.resumed(seq).arrived_all(arrivals);
            later.opening() == reattach_view(
                viewer.target,
                viewer.session_id,
                advanced(seq, arrived_bytes(arrivals).len()),
            )
        }),
        ({
            let later = viewer.attached().arrived_all(arrivals);
            later.opening() == reattach_view(
                viewer.target,
                viewer.session_id,
                advanced(0, arrived_bytes(arrivals).len()),
            )
        }),
{
    lemma_arrivals_keep(viewer.resumed(seq), arrivals);
    lemma_arrivals_keep(viewer.attached(), arrivals);
}

proof fn lemma_arrivals_keep(viewer: ViewerView, arrivals: Seq<Arrival>)
    ensures
        viewer.arrived_all(arrivals).target == viewer.target,
        viewer.arrived_all(arrivals).session_id == viewer.session_id,
        viewer.arrived_all(arrivals).attached_before == viewer.attached_before,
        viewer.arrived_all(arrivals).last_ack_seq == advanced(
            viewer.last_ack_seq,
            arrived_bytes(arrivals).len(),
        ),
    decreases arrivals.len(),
{
    if arrivals.len() > 0 {
        lemma_arrivals_keep(viewer, arrivals.drop_last());
    }
}

/// The first answer to an attach counts: later ones change nothing until it was taken.
pub proof fn law_first_answer_counts(
    viewer: ViewerView,
    first: Result<(), Seq<char>>,
    second: Result<(), Seq<char>>,
)
    requires
        viewer.attach_state is None,
    ensures
        viewer.signal(first).signal(second) == viewer.signal(first),
        viewer.signal(first).attach_state == Some(first),
{
}

/// A session that the host has ended is not resumed: its connection is not restored when
/// it closes, and a loop that was restoring it makes no further attempt after the one in
/// flight.
pub proof fn law_ended_session_is_not_resumed(viewer: ViewerView, delay: u64, succeeded: bool)
    requires
        viewer.detached,
    ensures
        viewer.close_step() == CloseStep::Expected,
        viewer.reconnect_action(delay, ReconnectEvent::Started) == ReconnectAction::Quit,
        viewer.reconnect_action(delay, ReconnectEvent::Attempted(succeeded))
            == ReconnectAction::Quit,
{
}

/// The position moves on by the number of bytes, one arrival after the other; behind the
/// last position it starts over.
pub proof fn law_position_counts_every_byte(seq: u64, first: nat, second: nat)
    ensures
        seq + first <= u64::MAX ==> advanced(seq, first) == seq + first,
        first <= u64::MAX && seq + first > u64::MAX ==> advanced(seq, first) + u64::MAX + 1 == seq
            + first,
        advanced(advanced(seq, first), second) == advanced(seq, first + second),
{
    assert(((seq + first) % 18446744073709551616 + second) % 18446744073709551616 == (seq + (first
        + second)) % 18446744073709551616);
}

/// Output that arrives moves the position on by its bytes. Over the relay it also shows
/// that the host is back; over either way nothing else changes.
pub proof fn law_arrivals_only_move_the_position(viewer: ViewerView, bytes: Seq<u8>)
    ensures
        ({
            let relay = viewer.received(bytes);
            let channel = viewer.received_over_channel(bytes);
            &&& relay == (ViewerView { last_ack_seq: relay.last_ack_seq, suspended: false, ..viewer })
            &&& channel == (ViewerView { last_ack_seq: channel.last_ack_seq, ..viewer })
            &&& relay.last_ack_seq == channel.last_ack_seq
            &&& viewer.last_ack_seq + bytes.len() <= u64::MAX ==> relay.last_ack_seq
                == viewer.last_ack_seq + bytes.len()
        }),
{
}

/// A new session begins at the beginning of its stream, and a session that is given back
/// goes on where the host says. Either way the viewer has a session to ask for from then
/// on, can negotiate, and reports the success unless another answer came first; whom it
/// views and under which id stays.
pub proof fn law_session_begins_or_goes_on(viewer: ViewerView, seq: u64)
    ensures
        viewer.attached().last_ack_seq == 0,
        viewer.resumed(seq).last_ack_seq == seq,
        ({
            let begun = viewer.attached();
            let back = viewer.resumed(seq);
            &&& begun.attached_before && back.attached_before
            &&& begun.negotiating && back.negotiating
            &&& begun.target == viewer.target && back.target == viewer.target
            &&& begun.session_id == viewer.session_id && back.session_id == viewer.session_id
            &&& begun.detached == viewer.detached && back.detached == viewer.detached
            &&& begun.suspended == viewer.suspended && back.suspended == viewer.suspended
            &&& begun.connected == viewer.connected && back.connected == viewer.connected
            &&& begun.reconnecting == viewer.reconnecting && back.reconnecting
                == viewer.reconnecting
            &&& viewer.attach_state is None ==> begun.attach_state == Some(
                Ok::<(), Seq<char>>(()),
            ) && back.attach_state == Some(Ok::<(), Seq<char>>(()))
            &&& viewer.attach_state is Some ==> begun.attach_state == viewer.attach_state
                && back.attach_state == viewer.attach_state
        }),
{
}

/// An answer changes nothing but the answer that is kept.
pub proof fn law_answer_changes_only_the_answer(viewer: ViewerView, result: Result<(), Seq<char>>)
    ensures
        ({
            let after = viewer.signal(result);
            &&& after == (ViewerView { attach_state: after.attach_state, ..viewer })
            &&& after.attach_state is Some
        }),
{
}

/// A connection that closes is restored by one loop at a time, and only while the session
/// lasts; the loop goes on until an attempt succeeds or the session has ended, and waits
/// before every attempt.
pub proof fn law_connection_is_restored_while_the_session_lasts(viewer: ViewerView, delay: u64)
    ensures
        viewer.close_step() == CloseStep::Reconnect <==> !viewer.detached && !viewer.reconnecting,
        viewer.close_step() == CloseStep::Expected <==> viewer.detached,
        viewer.reconnect_action(delay, ReconnectEvent::Woke) == ReconnectAction::Attempt,
        viewer.reconnect_action(delay, ReconnectEvent::Attempted(true)) == ReconnectAction::Quit,
        !viewer.detached ==> viewer.reconnect_action(delay, ReconnectEvent::Started)
            == ReconnectAction::Sleep(1000),
        !viewer.detached ==> (viewer.reconnect_action(
            delay,
            ReconnectEvent::Attempted(false),
        ) matches ReconnectAction::Sleep(wait) && (2 * delay <= 30000 ==> wait == 2 * delay) && (2
            * delay >= 30000 ==> wait == 30000)),
{
}

/// A signal reaches the negotiation as it is, whenever there is one.
pub proof fn law_signals_reach_the_negotiation(viewer: ViewerView, signal: Option<SignalView>)
    ensures
        viewer.negotiating ==> viewer.routed(signal) == signal,
        !viewer.negotiating ==> viewer.routed(signal) is None,
{
}

/// A new viewer has no session yet, has seen nothing and is not connected.
pub proof fn law_new_viewer_has_seen_nothing(target: Seq<char>, session_id: Seq<char>)
    ensures
        ({
            let viewer = ViewerView::fresh(target, session_id);
            &&& viewer.target == target
            &&& viewer.session_id == session_id
            &&& viewer.last_ack_seq == 0
            &&& viewer.attach_state is None
            &&& !viewer.attached_before && !viewer.detached && !viewer.suspended
            &&& !viewer.reconnecting && !viewer.connected && !viewer.negotiating
        }),
{
}

} // verus!
