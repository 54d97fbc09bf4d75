//! Hosting over the cloud relay: which viewers are attached, which sessions are kept for
//! viewers that may come back, and what is answered to each event.
//!
//! A viewer is known by two names. Its `sid` is that of its current connection and
//! changes with every reconnect. Its session id is its own choice and stays. Behind both
//! stands a duplex, which the program keeps under a number; the negotiation for a viewer
//! goes by the number of the duplex it is for.

use vstd::prelude::*;
use crate::remote::duplex::CloudDuplex;
use crate::remote::duplex::DuplexView;
use crate::remote::reconnect::doubled;
use crate::remote::reconnect::next_delay;
use crate::remote::reconnect::ReconnectAction;
use crate::remote::reconnect::ReconnectEvent;
use crate::remote::reconnect::VIEWER_RECONNECT_INITIAL_DELAY;
use crate::remote::replay::law_replay_gives_back_the_stream;
use crate::remote::replay::ReplayView;
use crate::remote::replay::REPLAY_BUFFER_CAPACITY;
use crate::remote::webrtc_p2p::RemoteSignal;
use crate::remote::webrtc_p2p::SignalView;
use crate::remote::wire::extract_json_field;
use crate::remote::wire::extract_reason;
use crate::remote::wire::extract_str_field;
use crate::remote::wire::extract_u64_field;
use crate::remote::wire::extract_viewer_bytes;
use crate::remote::wire::host_bye;
use crate::remote::wire::host_bye_view;
use crate::remote::wire::host_hello;
use crate::remote::wire::host_hello_view;
use crate::remote::wire::reattach_ack;
use crate::remote::wire::reattach_ack_view;
use crate::remote::wire::reattach_error;
use crate::remote::wire::reattach_error_view;
use crate::remote::wire::Emit;
use crate::remote::wire::EmitView;
use crate::remote::wire::Payload;
use crate::string_map::StringMap;
use crate::text::copy_of;

verus! {

/// How often the host renews its registration, in milliseconds.
pub const HOST_HEARTBEAT_INTERVAL: u64 = 15000;

/// How long the host waits before it registers again after a refusal, in milliseconds.
pub const HOST_HELLO_RETRY_DELAY: u64 = 5000;

/// How long the session of a detached viewer is kept, in milliseconds.
pub const VIEWER_SESSION_GRACE_PERIOD: u64 = 30000;

/// How long a negotiation may take until the data channel is open, in milliseconds.
pub const P2P_NEGOTIATION_TIMEOUT: u64 = 10000;

/// Servers to gather candidates through besides the usual ones: none so far.
pub fn cloud_ice_servers() -> (r: Vec<String>)
    ensures
        r@ == Seq::<String>::empty(),
{
    Vec::new()
}

/// What a heartbeat does.
#[derive(Debug, PartialEq, Eq)]
pub enum Heartbeat {
    /// Hosting has ended, and so do the heartbeats.
    Stop,
    /// There is no connection yet.
    Skip,
    /// Renew the registration.
    Send(Emit),
}

/// A viewer that has attached.
#[derive(Debug, PartialEq, Eq)]
pub struct Attached {
    pub viewer_sid: String,
    pub viewer_session_id: String,
}

/// A session that is to be discarded after the grace period, unless its viewer returns.
#[derive(Debug, PartialEq, Eq)]
pub struct GraceTimer {
    pub viewer_session_id: String,
    pub epoch: u64,
}

/// What a viewer that has detached leaves behind.
#[derive(Debug, PartialEq, Eq)]
pub struct Detached {
    /// Its negotiation, which ends.
    pub negotiation: Option<u64>,
    /// The discard of its session, where it had one.
    pub timer: Option<GraceTimer>,
}

/// A viewer that wants its session back, and the duplex of that session.
#[derive(Debug, PartialEq, Eq)]
pub struct ReattachRequest {
    pub viewer_sid: String,
    pub viewer_session_id: String,
    pub last_seq: u64,
    pub duplex: u64,
}

/// What becomes of a viewer's wish to have its session back.
#[derive(Debug, PartialEq, Eq)]
pub enum ReattachStep {
    /// The event does not say who wants what.
    Ignore,
    /// There is no such session.
    Refuse(Emit),
    /// Go on with the duplex of the session.
    Resume(ReattachRequest),
}

/// What becomes of a viewer's input.
#[derive(Debug, PartialEq, Eq)]
pub enum InputStep {
    /// The event does not hold a viewer and bytes.
    Malformed,
    /// No viewer of that name is attached.
    Unknown(String),
    /// The bytes arrive at the duplex with this number.
    Deliver(u64, Vec<u8>),
}

/// What the end of the connection leads to.
#[derive(Debug, Clone, Copy, PartialEq, Eq, Structural)]
pub enum CloseStep {
    /// The end was intended.
    Expected,
    /// The connection is being restored already.
    AlreadyReconnecting,
    /// The connection has to be restored.
    Reconnect,
}

/// The count behind `epoch`.
pub open spec fn bumped(epoch: u64) -> u64 {
    if epoch == u64::MAX {
        0
    } else {
        (epoch + 1) as u64
    }
}

/// How many counts there are.
#[verifier::inline]
pub open spec fn epochs() -> int {
    18446744073709551616int
}

/// What a host stands for.
#[verifier::ext_equal]
pub struct HostView {
    /// The duplex of every attached viewer, by `sid`.
    pub viewers: Map<Seq<char>, u64>,
    /// The duplex of every session that is kept, by session id.
    pub sessions: Map<Seq<char>, u64>,
    /// The session of every attached viewer, by `sid`.
    pub sid_to_session: Map<Seq<char>, Seq<char>>,
    /// How often each session has been detached or taken back.
    pub detach_epoch: Map<Seq<char>, u64>,
    /// The negotiation of every attached viewer that has one, by `sid`.
    pub negotiations: Map<Seq<char>, u64>,
    pub connected: bool,
    pub reconnecting: bool,
    pub stop: bool,
}

impl HostView {
    /// A host that has not connected yet.
    pub open spec fn fresh() -> Self {
        HostView {
            viewers: Map::empty(),
            sessions: Map::empty(),
            sid_to_session: Map::empty(),
            detach_epoch: Map::empty(),
            negotiations: Map::empty(),
            connected: false,
            reconnecting: false,
            stop: false,
        }
    }

    /// The session id under which a viewer attaches: the one it gives, or its `sid`.
    pub open spec fn session_id(payload: Payload, sid: Seq<char>) -> Seq<char> {
        match payload.text_field("viewer_session_id"@) {
            Some(session) => session,
            None => sid,
        }
    }

    /// The host after a viewer attached whose duplex has the number `duplex`.
    pub open spec fn attach(self, sid: Seq<char>, session: Seq<char>, duplex: u64) -> Self {
        HostView {
            viewers: self.viewers.insert(sid, duplex),
            sessions: self.sessions.insert(session, duplex),
            sid_to_session: self.sid_to_session.insert(sid, session),
            negotiations: self.negotiations.insert(sid, duplex),
            ..self
        }
    }

    /// The count of a session.
    pub open spec fn epoch(self, session: Seq<char>) -> u64 {
        if self.detach_epoch.contains_key(session) {
            self.detach_epoch[session]
        } else {
            0
        }
    }

    /// The counts after the session was detached or taken back once more.
    pub open spec fn bump(self, session: Seq<char>) -> Map<Seq<char>, u64> {
        self.detach_epoch.insert(session, bumped(self.epoch(session)))
    }

    /// The host after a viewer detached. Nothing is routed to the viewer any more, while
    /// its session is kept.
    pub open spec fn detach(self, sid: Seq<char>) -> Self {
        HostView {
            viewers: self.viewers.remove(sid),
            negotiations: self.negotiations.remove(sid),
            sid_to_session: self.sid_to_session.remove(sid),
            detach_epoch: if self.sid_to_session.contains_key(sid) {
                self.bump(self.sid_to_session[sid])
            } else {
                self.detach_epoch
            },
            ..self
        }
    }

    /// The discard set off by the detach that was counted `epoch` is still due.
    pub open spec fn pending(self, session: Seq<char>, epoch: u64) -> bool {
        self.detach_epoch.contains_key(session) && self.detach_epoch[session] == epoch
    }

    /// The host after the grace period of a detached session.
    pub open spec fn expire(self, session: Seq<char>, epoch: u64) -> Self {
        if self.pending(session, epoch) {
            HostView { sessions: self.sessions.remove(session), ..self }
        } else {
            self
        }
    }

    /// The host after a viewer took its session back under a new `sid`.
    pub open spec fn reattach(self, sid: Seq<char>, session: Seq<char>, duplex: u64) -> Self {
        HostView {
            viewers: self.viewers.insert(sid, duplex),
            sid_to_session: self.sid_to_session.insert(sid, session),
            detach_epoch: self.bump(session),
            ..self
        }
    }

    /// What the end of the connection leads to.
    pub open spec fn close_step(self) -> CloseStep {
        if self.stop {
            CloseStep::Expected
        } else if self.reconnecting {
            CloseStep::AlreadyReconnecting
        } else {
            CloseStep::Reconnect
        }
    }

    /// What the loop that restores the connection does next.
    pub open spec fn reconnect_action(self, delay: u64, event: ReconnectEvent) -> ReconnectAction {
        match event {
            ReconnectEvent::Started => ReconnectAction::Sleep(VIEWER_RECONNECT_INITIAL_DELAY),
            ReconnectEvent::Woke => if self.stop {
                ReconnectAction::Quit
            } else {
                ReconnectAction::Attempt
            },
            ReconnectEvent::Attempted(true) => ReconnectAction::Quit,
            ReconnectEvent::Attempted(false) => ReconnectAction::Sleep(doubled(delay)),
        }
    }

    /// The host after an event.
    pub open spec fn after(self, event: HostEvent) -> Self {
        match event {
            HostEvent::Attach(sid, session, duplex) => self.attach(sid, session, duplex),
            HostEvent::Detach(sid) => self.detach(sid),
            HostEvent::Expire(session, epoch) => self.expire(session, epoch),
            HostEvent::Reattach(sid, session, duplex) => self.reattach(sid, session, duplex),
        }
    }

    /// The host after the events in `events`, the first one first.
    pub open spec fn run(self, events: Seq<HostEvent>) -> Self
        decreases events.len(),
    {
        if events.len() == 0 {
            self
        } else {
            self.run(events.drop_last()).after(events.last())
        }
    }

    /// The event detaches a viewer from the session, or gives a viewer the session back.
    pub open spec fn touches(self, event: HostEvent, session: Seq<char>) -> bool {
        match event {
            HostEvent::Detach(sid) => self.sid_to_session.contains_key(sid)
                && self.sid_to_session[sid] == session,
            HostEvent::Reattach(_, other, _) => other == session,
            HostEvent::Attach(_, _, _) => false,
            HostEvent::Expire(_, _) => false,
        }
    }

    /// How many of `events` touch the session.
    pub open spec fn touch_count(self, events: Seq<HostEvent>, session: Seq<char>) -> nat
        decreases events.len(),
    {
        if events.len() == 0 {
            0
        } else {
            let front = events.drop_last();
            self.touch_count(front, session) + if self.run(front).touches(events.last(), session) {
                1nat
            } else {
                0
            }
        }
    }
}

/// What changes which viewers and sessions a host has.
pub enum HostEvent {
    /// A viewer attaches: its `sid`, its session and the number of its duplex.
    Attach(Seq<char>, Seq<char>, u64),
    /// A viewer detaches: its `sid`.
    Detach(Seq<char>),
    /// The grace period of a session is over: the session, and what its detach counted.
    Expire(Seq<char>, u64),
    /// A viewer takes its session back: its `sid`, the session and the session's duplex.
    Reattach(Seq<char>, Seq<char>, u64),
}

/// One host, for as long as it hosts: it lasts over every reconnect.
pub struct CloudHostTransport {
    viewers: StringMap<u64>,
    sessions: StringMap<u64>,
    sid_to_session: StringMap<String>,
    detach_epoch: StringMap<u64>,
    negotiations: StringMap<u64>,
    connected: bool,
    reconnecting: bool,
    stop: bool,
}

impl CloudHostTransport {
    /// The model of the host.
    pub closed spec fn view(&self) -> HostView {
        HostView {
            viewers: self.viewers@,
            sessions: self.sessions@,
            sid_to_session: self.sid_to_session@.map_values(|s: String| s@),
            detach_epoch: self.detach_epoch@,
            negotiations: self.negotiations@,
            connected: self.connected,
            reconnecting: self.reconnecting,
            stop: self.stop,
        }
    }

    /// Every attached viewer has a session, and only attached viewers have one or a
    /// negotiation.
    pub closed spec fn wf(&self) -> bool {
        &&& self.viewers.wf()
        &&& self.sessions.wf()
        &&& self.sid_to_session.wf()
        &&& self.detach_epoch.wf()
        &&& self.negotiations.wf()
        &&& self@.viewers.dom() == self@.sid_to_session.dom()
        &&& self@.negotiations.dom().subset_of(self@.viewers.dom())
    }

    /// In every host that is well-formed, each attached viewer has a session, and only
    /// attached viewers have one or a negotiation.
    pub proof fn law_attached_viewers_have_sessions(&self)
        requires
            self.wf(),
        ensures
            self@.viewers.dom() == self@.sid_to_session.dom(),
            self@.negotiations.dom().subset_of(self@.viewers.dom()),
    {
    }

    /// A host that has not connected yet.
    pub fn new() -> (r: Self)
        ensures
            r.wf(),
            r@ == HostView::fresh(),
    {
        let r = CloudHostTransport {
            viewers: StringMap::new(),
            sessions: StringMap::new(),
            sid_to_session: StringMap::new(),
            detach_epoch: StringMap::new(),
            negotiations: StringMap::new(),
            connected: false,
            reconnecting: false,
            stop: false,
        };
        assert(r@.sid_to_session =~= Map::<Seq<char>, Seq<char>>::empty());
        r
    }

    /// A connection is open: the host registers itself.
    pub fn open(&mut self) -> (r: Emit)
        requires
            old(self).wf(),
        ensures
            final(self).wf(),
            final(self)@ == (HostView { connected: true, ..old(self)@ }),
            r@ == host_hello_view(),
    {
        self.connected = true;
        host_hello()
    }

    /// A heartbeat is due.
    pub fn heartbeat(&self) -> (r: Heartbeat)
        ensures
            r is Stop <==> self@.stop,
            r is Skip <==> !self@.stop && !self@.connected,
            r matches Heartbeat::Send(emit) ==> emit@ == host_hello_view(),
    {
        if self.stop {
            Heartbeat::Stop
        } else if !self.connected {
            Heartbeat::Skip
        } else {
            Heartbeat::Send(host_hello())
        }
    }

    /// The registration was refused, for the returned reason. It is tried again after
    /// [`HOST_HELLO_RETRY_DELAY`].
    pub fn hello_rejected(&self, payload: &Payload) -> (r: String)
        ensures
            r@ == payload.reason(),
    {
        extract_reason(payload)
    }

    /// The wait after a refused registration is over.
    pub fn hello_retry(&self) -> (r: Option<Emit>)
        ensures
            match r {
                Some(emit) => self@.connected && emit@ == host_hello_view(),
                None => !self@.connected,
            },
    {
        if self.connected {
            Some(host_hello())
        } else {
            None
        }
    }

    /// Ends the hosting: there will be no further heartbeat and no reconnect. Over an
    /// open connection the host takes its leave.
    pub fn shutdown(&mut self) -> (r: Option<Emit>)
        requires
            old(self).wf(),
        ensures
            final(self).wf(),
            final(self)@ == (HostView { stop: true, ..old(self)@ }),
            match r {
                Some(emit) => old(self)@.connected && emit@ == host_bye_view(),
                None => !old(self)@.connected,
            },
    {
        self.stop = true;
        if self.connected {
            Some(host_bye())
        } else {
            None
        }
    }

    /// A viewer attaches. Its duplex and its negotiation get the number `duplex`. Nothing
    /// where the event does not say who the viewer is.
    pub fn peer_attached(&mut self, payload: &Payload, duplex: u64) -> (r: Option<Attached>)
        requires
            old(self).wf(),
        ensures
            final(self).wf(),
            match r {
                Some(viewer) => {
                    &&& payload.text_field("viewer_sid"@) == Some(viewer.viewer_sid@)
                    &&& viewer.viewer_session_id@ == HostView::session_id(
                        *payload,
                        viewer.viewer_sid@,
                    )
                    &&& final(self)@ == old(self)@.attach(
                        viewer.viewer_sid@,
                        viewer.viewer_session_id@,
                        duplex,
                    )
                },
                None => payload.text_field("viewer_sid"@) is None && final(self)@ == old(self)@,
            },
    {
        let viewer_sid = match extract_str_field(payload, "viewer_sid") {
            Some(sid) => sid,
            None => {
                return None;
            },
        };
        let viewer_session_id = match extract_str_field(payload, "viewer_session_id") {
            Some(session) => session,
            None => viewer_sid.clone(),
        };
        self.viewers.insert(viewer_sid.clone(), duplex);
        self.sessions.insert(viewer_session_id.clone(), duplex);
        self.sid_to_session.insert(viewer_sid.clone(), viewer_session_id.clone());
        self.negotiations.insert(viewer_sid.clone(), duplex);
        proof {
            let after = old(self)@.attach(viewer_sid@, viewer_session_id@, duplex);
            assert(self@.sid_to_session =~= after.sid_to_session);
            assert(self@.viewers.dom() =~= self@.sid_to_session.dom());
        }
        Some(Attached { viewer_sid, viewer_session_id })
    }

    fn bump_epoch(&mut self, session: &str) -> (r: u64)
        requires
            old(self).wf(),
        ensures
            final(self).wf(),
            final(self)@ == (HostView { detach_epoch: old(self)@.bump(session@), ..old(self)@ }),
            r == bumped(old(self)@.epoch(session@)),
    {
        let current: u64 = match self.detach_epoch.get(session) {
            Some(epoch) => *epoch,
            None => 0,
        };
        let epoch: u64 = if current == u64::MAX {
            0
        } else {
            current + 1
        };
        self.detach_epoch.insert(copy_of(session), epoch);
        epoch
    }

    /// A viewer detaches. Its negotiation ends, while its session is kept; the timer tells
    /// which session to discard when [`VIEWER_SESSION_GRACE_PERIOD`] is over.
    pub fn peer_detached(&mut self, payload: &Payload) -> (r: Detached)
        requires
            old(self).wf(),
        ensures
            final(self).wf(),
            match payload.text_field("viewer_sid"@) {
                Some(sid) => {
                    &&& final(self)@ == old(self)@.detach(sid)
                    &&& match r.negotiation {
                        Some(negotiation) => old(self)@.negotiations.contains_key(sid)
                            && negotiation == old(self)@.negotiations[sid],
                        None => !old(self)@.negotiations.contains_key(sid),
                    }
                    &&& match r.timer {
                        Some(timer) => {
                            &&& old(self)@.sid_to_session.contains_key(sid)
                            &&& timer.viewer_session_id@ == old(self)@.sid_to_session[sid]
                            &&& timer.epoch == bumped(old(self)@.epoch(timer.viewer_session_id@))
                        },
                        None => !old(self)@.sid_to_session.contains_key(sid),
                    }
                },
                None => final(self)@ == old(self)@ && r.negotiation is None && r.timer is None,
            },
    {
        let viewer_sid = match extract_str_field(payload, "viewer_sid") {
            Some(sid) => sid,
            None => {
                return Detached { negotiation: None, timer: None };
            },
        };
        let _ = self.viewers.remove(viewer_sid.as_str());
        let negotiation = self.negotiations.remove(viewer_sid.as_str());
        let session = self.sid_to_session.remove(viewer_sid.as_str());
        proof {
            assert(self@.sid_to_session =~= old(self)@.sid_to_session.remove(viewer_sid@));
            assert(self@.viewers.dom() =~= self@.sid_to_session.dom());
        }
        match session {
            Some(viewer_session_id) => {
                let epoch = self.bump_epoch(viewer_session_id.as_str());
                Detached { negotiation, timer: Some(GraceTimer { viewer_session_id, epoch }) }
            },
            None => Detached { negotiation, timer: None },
        }
    }

    /// The grace period of a detached session is over. The session is discarded, and the
    /// duplex with the returned number closed, unless the session was taken back or
    /// detached again since. A viewer that merely attaches anew under the same session id
    /// does not keep the session from being discarded.
    pub fn grace_expired(&mut self, timer: &GraceTimer) -> (r: Option<u64>)
        requires
            old(self).wf(),
        ensures
            final(self).wf(),
            final(self)@ == old(self)@.expire(timer.viewer_session_id@, timer.epoch),
            match r {
                Some(duplex) => {
                    &&& old(self)@.pending(timer.viewer_session_id@, timer.epoch)
                    &&& old(self)@.sessions.contains_key(timer.viewer_session_id@)
                    &&& duplex == old(self)@.sessions[timer.viewer_session_id@]
                },
                None => !old(self)@.pending(timer.viewer_session_id@, timer.epoch)
                    || !old(self)@.sessions.contains_key(timer.viewer_session_id@),
            },
    {
        let still_pending = match self.detach_epoch.get(timer.viewer_session_id.as_str()) {
            Some(epoch) => *epoch == timer.epoch,
            None => false,
        };
        if !still_pending {
            return None;
        }
        self.sessions.remove(timer.viewer_session_id.as_str())
    }

    /// A viewer wants its session back.
    pub fn peer_reattached(&self, payload: &Payload) -> (r: ReattachStep)
        requires
            self.wf(),
        ensures
            match (
                payload.text_field("viewer_sid"@),
                payload.text_field("viewer_session_id"@),
                payload.whole_field("last_seq"@),
            ) {
                (Some(sid), Some(session), Some(last_seq)) => if self@.sessions.contains_key(
                    session,
                ) {
                    r matches ReattachStep::Resume(request) && {
                        &&& request.viewer_sid@ == sid
                        &&& request.viewer_session_id@ == session
                        &&& request.last_seq == last_seq
                        &&& request.duplex == self@.sessions[session]
                    }
                } else {
                    r matches ReattachStep::Refuse(emit) && emit@ == reattach_error_view(
                        sid,
                        "unknown_viewer"@,
                    )
                },
                _ => r is Ignore,
            },
    {
        let viewer_sid = match extract_str_field(payload, "viewer_sid") {
            Some(sid) => sid,
            None => {
                return ReattachStep::Ignore;
            },
        };
        let viewer_session_id = match extract_str_field(payload, "viewer_session_id") {
            Some(session) => session,
            None => {
                return ReattachStep::Ignore;
            },
        };
        let last_seq: u64 = match extract_u64_field(payload, "last_seq") {
            Some(seq) => seq,
            None => {
                return ReattachStep::Ignore;
            },
        };
        match self.sessions.get(viewer_session_id.as_str()) {
            Some(duplex) => ReattachStep::Resume(
                ReattachRequest { viewer_sid, viewer_session_id, last_seq, duplex: *duplex },
            ),
            None => ReattachStep::Refuse(reattach_error(viewer_sid.as_str(), "unknown_viewer")),
        }
    }

    /// Gives a viewer its session back, given the duplex of that session and what now
    /// writes to the viewer. The answer carries what the viewer missed, or says why the
    /// session cannot be resumed.
    pub fn resume<W>(
        &mut self,
        request: &ReattachRequest,
        duplex: &mut CloudDuplex<W>,
        write_fn: W,
    ) -> (r: Emit)
        requires
            old(self).wf(),
            old(duplex).wf(),
        ensures
            final(self).wf(),
            final(duplex).wf(),
            r@ == resume_answer(*request, old(duplex)@),
            if resumable(*request, old(duplex)@) {
                &&& final(self)@ == old(self)@.reattach(
                    request.viewer_sid@,
                    request.viewer_session_id@,
                    request.duplex,
                )
                &&& final(duplex)@ == (DuplexView { write_fn, ..old(duplex)@ })
                &&& final(self)@.viewers == old(self)@.viewers.insert(
                    request.viewer_sid@,
                    request.duplex,
                )
                &&& final(self)@.sid_to_session == old(self)@.sid_to_session.insert(
                    request.viewer_sid@,
                    request.viewer_session_id@,
                )
                &&& final(self)@.sessions == old(self)@.sessions
                &&& final(self)@.negotiations == old(self)@.negotiations
            } else {
                final(self)@ == old(self)@ && final(duplex)@ == old(duplex)@
            },
    {
        match duplex.replay_from(request.last_seq) {
            None => reattach_error(request.viewer_sid.as_str(), "unknown_viewer"),
            Some(Err(_)) => reattach_error(request.viewer_sid.as_str(), "too_far_behind"),
            Some(Ok((replay_bytes, resume_seq))) => {
                duplex.set_write_fn(write_fn);
                self.viewers.insert(request.viewer_sid.clone(), request.duplex);
                self.sid_to_session.insert(
                    request.viewer_sid.clone(),
                    request.viewer_session_id.clone(),
                );
                proof {
                    assert(self@.sid_to_session =~= old(self)@.sid_to_session.insert(
                        request.viewer_sid@,
                        request.viewer_session_id@,
                    ));
                    assert(self@.viewers.dom() =~= self@.sid_to_session.dom());
                }
                let _ = self.bump_epoch(request.viewer_session_id.as_str());
                reattach_ack(request.viewer_sid.as_str(), &replay_bytes, resume_seq)
            },
        }
    }

    fn signal(&self, sid: &str, signal: RemoteSignal) -> (r: Option<(u64, RemoteSignal)>)
        requires
            self.wf(),
        ensures
            routed(self@, Some(sid@), Some(signal@), r),
    {
        match self.negotiations.get(sid) {
            Some(negotiation) => Some((*negotiation, signal)),
            None => None,
        }
    }

    /// A viewer's session description goes to the viewer's negotiation.
    pub fn webrtc_offer(&self, payload: &Payload) -> (r: Option<(u64, RemoteSignal)>)
        requires
            self.wf(),
        ensures
            routed(
                self@,
                payload.text_field("viewer_sid"@),
                match payload.text_field("sdp"@) {
                    Some(sdp) => Some(SignalView::Offer(sdp)),
                    None => None,
                },
                r,
            ),
    {
        match extract_str_field(payload, "viewer_sid") {
            Some(sid) => match extract_str_field(payload, "sdp") {
                Some(sdp) => self.signal(sid.as_str(), RemoteSignal::Offer(sdp)),
                None => None,
            },
            None => None,
        }
    }

    /// A viewer's candidate goes to the viewer's negotiation.
    pub fn webrtc_ice(&self, payload: &Payload) -> (r: Option<(u64, RemoteSignal)>)
        requires
            self.wf(),
        ensures
            routed(
                self@,
                payload.text_field("viewer_sid"@),
                match payload.json_field("candidate"@) {
                    Some(json) => Some(SignalView::IceCandidate(json)),
                    None => None,
                },
                r,
            ),
    {
        match extract_str_field(payload, "viewer_sid") {
            Some(sid) => match extract_json_field(payload, "candidate") {
                Some(json) => self.signal(sid.as_str(), RemoteSignal::IceCandidate(json)),
                None => None,
            },
            None => None,
        }
    }

    /// Input of a viewer.
    pub fn input(&self, payload: &Payload) -> (r: InputStep)
        requires
            self.wf(),
        ensures
            match (payload.text_field("viewer_sid"@), payload.bytes_field("bytes"@)) {
                (Some(sid), Some(bytes)) => if self@.viewers.contains_key(sid) {
                    r matches InputStep::Deliver(duplex, data) && duplex == self@.viewers[sid]
                        && data@ == bytes
                } else {
                    r matches InputStep::Unknown(name) && name@ == sid
                },
                _ => r is Malformed,
            },
    {
        match extract_viewer_bytes(payload) {
            Some((sid, bytes)) => match self.viewers.get(sid.as_str()) {
                Some(duplex) => InputStep::Deliver(*duplex, bytes),
                None => InputStep::Unknown(sid),
            },
            None => InputStep::Malformed,
        }
    }

    /// The connection has closed.
    pub fn closed(&mut self) -> (r: CloseStep)
        requires
            old(self).wf(),
        ensures
            final(self).wf(),
            r == old(self)@.close_step(),
            final(self)@ == (HostView {
                reconnecting: old(self)@.reconnecting || !old(self)@.stop,
                ..old(self)@
            }),
    {
        if self.stop {
            return CloseStep::Expected;
        }
        if self.reconnecting {
            return CloseStep::AlreadyReconnecting;
        }
        self.reconnecting = true;
        CloseStep::Reconnect
    }

    /// One step of the loop that restores the connection. It waits before each attempt,
    /// longer after each failure, and ends when an attempt succeeds, or when hosting has
    /// ended meanwhile.
    pub fn host_reconnect_loop(&mut self, delay: &mut u64, event: ReconnectEvent) -> (r:
        ReconnectAction)
        requires
            old(self).wf(),
        ensures
            final(self).wf(),
            *final(delay) == match event {
                ReconnectEvent::Started => VIEWER_RECONNECT_INITIAL_DELAY,
                ReconnectEvent::Woke => *old(delay),
                ReconnectEvent::Attempted(true) => *old(delay),
                ReconnectEvent::Attempted(false) => doubled(*old(delay)),
            },
            r == old(self)@.reconnect_action(*old(delay), event),
            final(self)@ == (HostView {
                reconnecting: old(self)@.reconnecting && r != ReconnectAction::Quit,
                ..old(self)@
            }),
    {
        match event {
            ReconnectEvent::Started => {
                *delay = VIEWER_RECONNECT_INITIAL_DELAY;
                ReconnectAction::Sleep(*delay)
            },
            ReconnectEvent::Woke => {
                if self.stop {
                    self.reconnecting = false;
                    ReconnectAction::Quit
                } else {
                    ReconnectAction::Attempt
                }
            },
            ReconnectEvent::Attempted(succeeded) => {
                if succeeded {
                    self.reconnecting = false;
                    ReconnectAction::Quit
                } else {
                    *delay = next_delay(*delay);
                    ReconnectAction::Sleep(*delay)
                }
            },
        }
    }

    /// Whether a viewer or a session still uses the duplex with this number.
    pub fn keeps(&self, duplex: u64) -> (r: bool)
        requires
            self.wf(),
        ensures
            r == (self@.viewers.contains_value(duplex) || self@.sessions.contains_value(duplex)),
    {
        self.viewers.has_value(duplex) || self.sessions.has_value(duplex)
    }

    /// How many viewers are attached.
    pub fn attached_viewer_count(&self) -> (r: usize)
        requires
            self.wf(),
        ensures
            r == self@.viewers.dom().len(),
    {
        self.viewers.len()
    }
}

/// What is handed to a negotiation: the signal, where the event holds one and names a
/// viewer that has a negotiation.
pub open spec fn routed(
    host: HostView,
    sid: Option<Seq<char>>,
    signal: Option<SignalView>,
    r: Option<(u64, RemoteSignal)>,
) -> bool {
    match (sid, signal) {
        (Some(sid), Some(signal)) => if host.negotiations.contains_key(sid) {
            r matches Some((negotiation, handed)) && negotiation == host.negotiations[sid]
                && handed@ == signal
        } else {
            r is None
        },
        _ => r is None,
    }
}

/// The duplex still keeps everything that the viewer missed.
pub open spec fn resumable<W>(request: ReattachRequest, duplex: DuplexView<W>) -> bool {
    duplex.replay matches Some(replay) && replay.replay(request.last_seq as nat) is Some
}

/// What is answered to a viewer that wants its session back.
pub open spec fn resume_answer<W>(request: ReattachRequest, duplex: DuplexView<W>) -> EmitView {
    match duplex.replay {
        None => reattach_error_view(request.viewer_sid@, "unknown_viewer"@),
        Some(replay) => match replay.replay(request.last_seq as nat) {
            None => reattach_error_view(request.viewer_sid@, "too_far_behind"@),
            Some((missed, next)) => reattach_ack_view(request.viewer_sid@, missed, next as u64),
        },
    }
}

proof fn lemma_epoch_counts_touches(host: HostView, events: Seq<HostEvent>, session: Seq<char>)
    ensures
        host.run(events).epoch(session) == (host.epoch(session) + host.touch_count(
            events,
            session,
        )) % epochs(),
        host.detach_epoch.contains_key(session) ==> host.run(events).detach_epoch.contains_key(
            session,
        ),
    decreases events.len(),
{
    if events.len() > 0 {
        let front = events.drop_last();
        lemma_epoch_counts_touches(host, front, session);
        let before = host.run(front);
        let after = before.after(events.last());
        if before.touches(events.last(), session) {
            assert(after.epoch(session) == bumped(before.epoch(session)));
        } else {
            assert(after.epoch(session) == before.epoch(session));
        }
    }
}

/// A viewer that comes back keeps its session: when the grace period that its detach set
/// off is over, nothing happens if the session was taken back or detached again in the
/// meantime. (The count of a session starts over after 2^64 such events.)
pub proof fn law_return_cancels_the_discard(
    host: HostView,
    session: Seq<char>,
    epoch: u64,
    events: Seq<HostEvent>,
)
    requires
        host.pending(session, epoch),
        0 < host.touch_count(events, session) < epochs(),
    ensures
        host.run(events).expire(session, epoch) == host.run(events),
{
    lemma_epoch_counts_touches(host, events, session);
    let later = host.run(events);
    let count = host.touch_count(events, session);
    assert(later.epoch(session) != epoch) by {
        let sum = epoch + count;
        if sum < epochs() {
            assert(sum % epochs() == sum);
        } else {
            assert(sum % epochs() == sum - epochs());
        }
    }
}

/// A viewer that does not come back loses its session: when the grace period is over and
/// nothing has touched the session, the session is gone.
pub proof fn law_abandoned_session_is_discarded(
    host: HostView,
    session: Seq<char>,
    epoch: u64,
    events: Seq<HostEvent>,
)
    requires
        host.pending(session, epoch),
        host.touch_count(events, session) == 0,
    ensures
        !host.run(events).expire(session, epoch).sessions.contains_key(session),
{
    lemma_epoch_counts_touches(host, events, session);
    assert((host.epoch(session) as int) % epochs() == host.epoch(session));
}

/// Detaching sets the discard off and stops the routing to the viewer, but the session
/// stays, until a grace period of its own is over.
pub proof fn law_detached_session_is_kept(host: HostView, sid: Seq<char>, events: Seq<HostEvent>)
    requires
        host.sid_to_session.contains_key(sid),
        host.sessions.contains_key(host.sid_to_session[sid]),
        forall|i: int|
            0 <= i < events.len() ==> !(#[trigger] events[i] matches HostEvent::Expire(session, _)
                && session == host.sid_to_session[sid]),
    ensures
        ({
            let session = host.sid_to_session[sid];
            let detached = host.detach(sid);
            &&& detached.pending(session, bumped(host.epoch(session)))
            &&& !detached.viewers.contains_key(sid)
            &&& !detached.negotiations.contains_key(sid)
            &&& detached.sessions == host.sessions
            &&& detached.run(events).sessions.contains_key(session)
        }),
    decreases events.len(),
{
    if events.len() > 0 {
        let front = events.drop_last();
        assert forall|i: int| 0 <= i < front.len() implies !(
        #[trigger] front[i] matches HostEvent::Expire(session, _) && session
            == host.sid_to_session[sid]) by {
            assert(front[i] == events[i]);
        }
        law_detached_session_is_kept(host, sid, front);
        assert(events[events.len() - 1] == events.last());
    }
}

/// A host that was shut down stays down: no event brings it back, its connection is not
/// restored when it closes, and a loop that was restoring it ends.
pub proof fn law_shutdown_is_final(host: HostView, events: Seq<HostEvent>, delay: u64)
    requires
        host.stop,
    ensures
        host.run(events).stop,
        host.run(events).close_step() == CloseStep::Expected,
        host.run(events).reconnect_action(delay, ReconnectEvent::Woke) == ReconnectAction::Quit,
    decreases events.len(),
{
    if events.len() > 0 {
        law_shutdown_is_final(host, events.drop_last(), delay);
    }
}

/// A viewer that comes back gets exactly what it missed: of everything that was written
/// to its session, what follows the bytes that it has seen, with the place where the
/// stream goes on. This holds as long as it missed no more than is kept.
pub proof fn law_returning_viewer_gets_what_it_missed<W>(
    request: ReattachRequest,
    duplex: DuplexView<W>,
    writes: Seq<Seq<u8>>,
)
    requires
        duplex.replay == Some(ReplayView::after(writes)),
        request.last_seq <= writes.flatten().len(),
        writes.flatten().len() <= request.last_seq + REPLAY_BUFFER_CAPACITY,
    ensures
        resumable(request, duplex),
        resume_answer(request, duplex) == reattach_ack_view(
            request.viewer_sid@,
            writes.flatten().skip(request.last_seq as int),
            writes.flatten().len() as u64,
        ),
{
    law_replay_gives_back_the_stream(writes, request.last_seq as nat);
}

/// A viewer that took its session back is routed to the duplex that is kept for the
/// session: its input goes there, and it counts as the session's viewer. The session
/// itself, the negotiations and every other viewer stay as they were, and a discard that
/// was pending is off.
pub proof fn law_returning_viewer_is_routed_to_its_session(
    host: HostView,
    sid: Seq<char>,
    session: Seq<char>,
    duplex: u64,
)
    requires
        host.sessions.contains_key(session),
        host.sessions[session] == duplex,
    ensures
        ({
            let back = host.reattach(sid, session, duplex);
            &&& back.viewers.contains_key(sid)
            &&& back.viewers[sid] == host.sessions[session]
            &&& back.sid_to_session.contains_key(sid)
            &&& back.sid_to_session[sid] == session
            &&& back.sessions == host.sessions
            &&& back.negotiations == host.negotiations
            &&& back.connected == host.connected
            &&& back.reconnecting == host.reconnecting
            &&& back.stop == host.stop
            &&& back.detach_epoch.contains_key(session)
            &&& back.detach_epoch[session] != host.epoch(session)
            &&& forall|other: Seq<char>|
                other != sid ==> {
                    &&& (#[trigger] back.viewers.contains_key(other))
                        == host.viewers.contains_key(other)
                    &&& back.viewers[other] == host.viewers[other]
                    &&& back.sid_to_session.contains_key(other)
                        == host.sid_to_session.contains_key(other)
                    &&& back.sid_to_session[other] == host.sid_to_session[other]
                }
            &&& forall|other: Seq<char>|
                other != session ==> {
                    &&& (#[trigger] back.detach_epoch.contains_key(other))
                        == host.detach_epoch.contains_key(other)
                    &&& back.detach_epoch[other] == host.detach_epoch[other]
                }
        }),
{
}

/// A viewer that attaches is routed to the new duplex, under its session id and in its
/// negotiation alike. Every other viewer, session and negotiation stays as it was, and so
/// does every count.
pub proof fn law_attached_viewer_is_routed_to_its_duplex(
    host: HostView,
    sid: Seq<char>,
    session: Seq<char>,
    duplex: u64,
)
    ensures
        ({
            let after = host.attach(sid, session, duplex);
            &&& after.viewers.contains_key(sid) && after.viewers[sid] == duplex
            &&& after.sessions.contains_key(session) && after.sessions[session] == duplex
            &&& after.negotiations.contains_key(sid) && after.negotiations[sid] == duplex
            &&& after.sid_to_session.contains_key(sid) && after.sid_to_session[sid] == session
            &&& after.detach_epoch == host.detach_epoch
            &&& after.connected == host.connected
            &&& after.reconnecting == host.reconnecting
            &&& after.stop == host.stop
            &&& forall|other: Seq<char>|
                other != sid ==> {
                    &&& (#[trigger] after.viewers.contains_key(other))
                        == host.viewers.contains_key(other)
                    &&& after.viewers[other] == host.viewers[other]
                    &&& after.sid_to_session.contains_key(other)
                        == host.sid_to_session.contains_key(other)
                    &&& after.sid_to_session[other] == host.sid_to_session[other]
                    &&& after.negotiations.contains_key(other)
                        == host.negotiations.contains_key(other)
                    &&& after.negotiations[other] == host.negotiations[other]
                }
            &&& forall|other: Seq<char>|
                other != session ==> {
                    &&& (#[trigger] after.sessions.contains_key(other))
                        == host.sessions.contains_key(other)
                    &&& after.sessions[other] == host.sessions[other]
                }
        }),
{
}

/// A viewer attaches under the session id that it gives, and under its own `sid` only
/// where it gives none.
pub proof fn law_viewer_chooses_its_session(payload: Payload, sid: Seq<char>)
    ensures
        forall|session: Seq<char>|
            payload.text_field("viewer_session_id"@) == Some(session) ==> HostView::session_id(
                payload,
                sid,
            ) == session,
        payload.text_field("viewer_session_id"@) is None ==> HostView::session_id(payload, sid)
            == sid,
{
}

/// A detach concerns one viewer: nothing is routed to it any more, and every other viewer
/// keeps its duplex, its session and its negotiation. No session is discarded, and only
/// the count of the viewer's own session changes.
pub proof fn law_detach_concerns_one_viewer(host: HostView, sid: Seq<char>)
    ensures
        ({
            let after = host.detach(sid);
            &&& !after.viewers.contains_key(sid)
            &&& !after.negotiations.contains_key(sid)
            &&& !after.sid_to_session.contains_key(sid)
            &&& after.sessions == host.sessions
            &&& after.connected == host.connected
            &&& after.reconnecting == host.reconnecting
            &&& after.stop == host.stop
            &&& forall|other: Seq<char>|
                other != sid ==> {
                    &&& (#[trigger] after.viewers.contains_key(other))
                        == host.viewers.contains_key(other)
                    &&& after.viewers[other] == host.viewers[other]
                    &&& after.sid_to_session.contains_key(other)
                        == host.sid_to_session.contains_key(other)
                    &&& after.sid_to_session[other] == host.sid_to_session[other]
                    &&& after.negotiations.contains_key(other)
                        == host.negotiations.contains_key(other)
                    &&& after.negotiations[other] == host.negotiations[other]
                }
            &&& host.sid_to_session.contains_key(sid) ==> after.epoch(host.sid_to_session[sid])
                != host.epoch(host.sid_to_session[sid])
            &&& forall|session: Seq<char>|
                !(host.sid_to_session.contains_key(sid) && host.sid_to_session[sid] == session)
                    ==> {
                    &&& (#[trigger] after.detach_epoch.contains_key(session))
                        == host.detach_epoch.contains_key(session)
                    &&& after.detach_epoch[session] == host.detach_epoch[session]
                }
        }),
{
}

/// The end of a grace period concerns one session: no viewer, no count and no other
/// session changes.
pub proof fn law_discard_concerns_one_session(host: HostView, session: Seq<char>, epoch: u64)
    ensures
        ({
            let after = host.expire(session, epoch);
            &&& after.viewers == host.viewers
            &&& after.sid_to_session == host.sid_to_session
            &&& after.negotiations == host.negotiations
            &&& after.detach_epoch == host.detach_epoch
            &&& after.connected == host.connected
            &&& after.reconnecting == host.reconnecting
            &&& after.stop == host.stop
            &&& forall|other: Seq<char>|
                other != session ==> {
                    &&& (#[trigger] after.sessions.contains_key(other))
                        == host.sessions.contains_key(other)
                    &&& after.sessions[other] == host.sessions[other]
                }
            &&& after.sessions.contains_key(session) ==> after.sessions[session]
                == host.sessions[session]
            &&& host.sessions.contains_key(session) ==> (after.sessions.contains_key(session)
                <==> !(host.detach_epoch.contains_key(session) && host.detach_epoch[session]
                == epoch))
        }),
{
}

/// A connection that closes is restored by one loop at a time, and only while the host is
/// meant to run.
pub proof fn law_lost_connection_is_restored_once(host: HostView)
    ensures
        host.close_step() == CloseStep::Reconnect <==> !host.stop && !host.reconnecting,
        host.close_step() == CloseStep::Expected <==> host.stop,
{
}

/// The loop that restores the connection goes on until an attempt succeeds or the host is
/// shut down. It waits before every attempt, and after a failure not shorter than before.
pub proof fn law_connection_is_tried_again(host: HostView, delay: u64)
    ensures
        host.reconnect_action(delay, ReconnectEvent::Attempted(true)) == ReconnectAction::Quit,
        host.reconnect_action(delay, ReconnectEvent::Woke) == ReconnectAction::Attempt
            <==> !host.stop,
        host.reconnect_action(delay, ReconnectEvent::Woke) == ReconnectAction::Quit <==> host.stop,
        host.reconnect_action(delay, ReconnectEvent::Started) matches ReconnectAction::Sleep(wait)
            && wait == 1000,
        host.reconnect_action(delay, ReconnectEvent::Attempted(false)) matches
            ReconnectAction::Sleep(wait) && (delay <= 30000 ==> delay <= wait <= 30000) && (2
            * delay <= 30000 ==> wait == 2 * delay),
{
}

/// A signal of a viewer reaches the viewer's own negotiation as it was sent, and gets lost
/// only where it names no viewer that has one.
pub proof fn law_signals_reach_their_negotiation(
    host: HostView,
    sid: Option<Seq<char>>,
    signal: Option<SignalView>,
    r: Option<(u64, RemoteSignal)>,
)
    requires
        routed(host, sid, signal, r),
    ensures
        r is Some <==> sid is Some && signal is Some && host.negotiations.contains_key(sid->0),
        r matches Some((negotiation, handed)) ==> negotiation == host.negotiations[sid->0]
            && handed@ == signal->0,
{
}

/// A viewer whose session has moved on too far, or that claims to have seen what was never
/// written, is told so, and a duplex that keeps nothing has no such viewer. Only a viewer
/// that is given its session back is sent an acknowledgement.
pub proof fn law_refused_return_says_why<W>(request: ReattachRequest, duplex: DuplexView<W>)
    ensures
        duplex.replay is None ==> !resumable(request, duplex) && resume_answer(request, duplex)
            == reattach_error_view(request.viewer_sid@, "unknown_viewer"@),
        duplex.replay matches Some(replay) ==> {
            &&& resumable(request, duplex) <==> replay.start <= request.last_seq
                <= replay.start + replay.data.len()
            &&& !resumable(request, duplex) ==> resume_answer(request, duplex)
                == reattach_error_view(request.viewer_sid@, "too_far_behind"@)
            &&& resumable(request, duplex) ==> resume_answer(request, duplex) == reattach_ack_view(
                request.viewer_sid@,
                replay.data.skip(request.last_seq - replay.start),
                (replay.start + replay.data.len()) as u64,
            )
        },
{
}

/// A new host has no viewer and no session, is not connected, and is meant to run.
pub proof fn law_new_host_serves_nobody(name: Seq<char>)
    ensures
        ({
            let host = HostView::fresh();
            &&& !host.viewers.contains_key(name)
            &&& !host.sessions.contains_key(name)
            &&& !host.sid_to_session.contains_key(name)
            &&& !host.detach_epoch.contains_key(name)
            &&& !host.negotiations.contains_key(name)
            &&& !host.connected && !host.reconnecting && !host.stop
        }),
{
}

/// A viewer that detaches and takes its session back under another `sid` is routed to the
/// very duplex that it had, and its session is as it was.
pub proof fn law_detached_viewer_gets_its_duplex_back(
    host: HostView,
    sid: Seq<char>,
    new_sid: Seq<char>,
)
    requires
        host.sid_to_session.contains_key(sid),
        host.sessions.contains_key(host.sid_to_session[sid]),
        host.viewers.contains_key(sid),
        host.viewers[sid] == host.sessions[host.sid_to_session[sid]],
    ensures
        ({
            let session = host.sid_to_session[sid];
            let gone = host.detach(sid);
            let back = gone.reattach(new_sid, session, gone.sessions[session]);
            &&& back.viewers.contains_key(new_sid)
            &&& back.viewers[new_sid] == host.viewers[sid]
            &&& back.sid_to_session[new_sid] == session
            &&& back.sessions == host.sessions
            &&& sid != new_sid ==> !back.viewers.contains_key(sid)
            &&& !back.pending(session, gone.epoch(session))
        }),
{
}

} // verus!
