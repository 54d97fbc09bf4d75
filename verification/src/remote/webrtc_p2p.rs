//! The decisions of a peer-to-peer negotiation: which signals are applied and when, when
//! the data channel takes over, and what is reported afterwards. The program around it
//! drives the peer connection.

use vstd::prelude::*;
use crate::text::chars_of;
use crate::text::concat;
use crate::text::copy_of;
use crate::text::is_whitespace;
use crate::text::opt_text;
use crate::text::same_text;
use crate::text::string_of;
use crate::text::texts;
use crate::text::whitespace;

verus! {

// ---------------------------------------------------------------------------
// Candidate types
// ---------------------------------------------------------------------------

/// How direct a candidate type is; lower is more direct. Nothing for an unknown type.
pub open spec fn type_rank(typ: Seq<char>) -> Option<u8> {
    if typ == "host"@ {
        Some(0)
    } else if typ == "srflx"@ {
        Some(1)
    } else if typ == "prflx"@ {
        Some(2)
    } else if typ == "relay"@ {
        Some(3)
    } else {
        None
    }
}

/// How direct a candidate type is, with the type's name.
pub fn candidate_type_rank(typ: &str) -> (r: Option<(u8, &'static str)>)
    ensures
        match r {
            Some((rank, name)) => type_rank(typ@) == Some(rank) && name@ == typ@,
            None => type_rank(typ@) is None,
        },
{
    if same_text(typ, "host") {
        Some((0, "host"))
    } else if same_text(typ, "srflx") {
        Some((1, "srflx"))
    } else if same_text(typ, "prflx") {
        Some((2, "prflx"))
    } else if same_text(typ, "relay") {
        Some((3, "relay"))
    } else {
        None
    }
}

/// The words of `s` that a whitespace has ended, and the run of other characters that
/// `s` ends with.
pub open spec fn words_and_rest(s: Seq<char>) -> (Seq<Seq<char>>, Seq<char>)
    decreases s.len(),
{
    if s.len() == 0 {
        (Seq::empty(), Seq::empty())
    } else {
        let (words, rest) = words_and_rest(s.drop_last());
        if !whitespace(s.last()) {
            (words, rest.push(s.last()))
        } else if rest.len() > 0 {
            (words.push(rest), Seq::empty())
        } else {
            (words, rest)
        }
    }
}

/// The runs of characters other than whitespace in `s`, in order.
pub open spec fn words(s: Seq<char>) -> Seq<Seq<char>> {
    let (words, rest) = words_and_rest(s);
    if rest.len() > 0 {
        words.push(rest)
    } else {
        words
    }
}

/// Words are runs of characters other than whitespace: none is empty, and none holds any.
pub proof fn law_words_hold_no_whitespace(s: Seq<char>)
    ensures
        forall|i: int|
            0 <= i < words(s).len() ==> (#[trigger] words(s)[i]).len() > 0 && !holds_whitespace(
                words(s)[i],
            ),
{
    lemma_words_and_rest(s);
}

/// Some character of `s` is whitespace.
pub open spec fn holds_whitespace(s: Seq<char>) -> bool {
    exists|i: int| 0 <= i < s.len() && whitespace(#[trigger] s[i])
}

proof fn lemma_words_and_rest(s: Seq<char>)
    ensures
        !holds_whitespace(words_and_rest(s).1),
        forall|i: int|
            0 <= i < words_and_rest(s).0.len() ==> (#[trigger] words_and_rest(s).0[i]).len() > 0
                && !holds_whitespace(words_and_rest(s).0[i]),
    decreases s.len(),
{
    if s.len() > 0 {
        lemma_words_and_rest(s.drop_last());
        let (before, rest) = words_and_rest(s.drop_last());
        let (after, tail) = words_and_rest(s);
        if !whitespace(s.last()) {
            assert forall|i: int| 0 <= i < tail.len() implies !whitespace(#[trigger] tail[i]) by {
                if i < rest.len() {
                    assert(tail[i] == rest[i]);
                }
            }
        }
        assert forall|i: int| 0 <= i < after.len() implies (#[trigger] after[i]).len() > 0
            && !holds_whitespace(after[i]) by {
            if i < before.len() {
                assert(after[i] == before[i]);
            }
        }
    }
}

/// The word behind the first word `typ`.
pub open spec fn word_after_typ(words: Seq<Seq<char>>) -> Option<Seq<char>>
    decreases words.len(),
{
    if words.len() == 0 {
        None
    } else if words[0] == "typ"@ {
        if words.len() > 1 {
            Some(words[1])
        } else {
            None
        }
    } else {
        word_after_typ(words.skip(1))
    }
}

fn words_of(s: &str) -> (r: Vec<String>)
    ensures
        texts(r@) == words(s@),
{
    let chars = chars_of(s);
    let mut done: Vec<String> = Vec::new();
    let mut rest: Vec<char> = Vec::new();
    let mut i: usize = 0;
    assert(texts(done@) =~= Seq::<Seq<char>>::empty());
    assert(chars@.take(0) =~= Seq::<char>::empty());
    while i < chars.len()
        invariant
            i <= chars@.len(),
            (texts(done@), rest@) == words_and_rest(chars@.take(i as int)),
        decreases chars@.len() - i,
    {
        let c = chars[i];
        let ghost before = texts(done@);
        assert(chars@.take(i + 1).drop_last() =~= chars@.take(i as int));
        if !is_whitespace(c) {
            rest.push(c);
        } else if rest.len() > 0 {
            done.push(string_of(&rest));
            assert(texts(done@) =~= before.push(rest@));
            rest = Vec::new();
            assert(rest@ =~= Seq::<char>::empty());
        }
        i += 1;
    }
    assert(chars@.take(i as int) =~= chars@);
    if rest.len() > 0 {
        let ghost before = texts(done@);
        done.push(string_of(&rest));
        assert(texts(done@) =~= before.push(rest@));
    }
    done
}

/// The candidate type in the SDP line of a candidate: the word behind `typ`.
pub fn parse_candidate_type(candidate_sdp: &str) -> (r: Option<String>)
    ensures
        opt_text(r) == word_after_typ(words(candidate_sdp@)),
{
    let list = words_of(candidate_sdp);
    let ghost all = texts(list@);
    let mut i: usize = 0;
    assert(all.skip(0) =~= all);
    while i < list.len()
        invariant
            i <= list@.len(),
            all == texts(list@),
            all == words(candidate_sdp@),
            word_after_typ(all) == word_after_typ(all.skip(i as int)),
        decreases list@.len() - i,
    {
        assert(all.skip(i as int)[0] == list@[i as int]@);
        assert(all.skip(i as int).skip(1) =~= all.skip(i + 1));
        if same_text(list[i].as_str(), "typ") {
            if i + 1 < list.len() {
                assert(all.skip(i as int)[1] == list@[i + 1]@);
                return Some(list[i + 1].clone());
            }
            return None;
        }
        i += 1;
    }
    None
}

/// The rank of the type that the SDP line of a candidate names.
pub open spec fn candidate_rank(candidate_sdp: Seq<char>) -> Option<u8> {
    match word_after_typ(words(candidate_sdp)) {
        Some(typ) => type_rank(typ),
        None => None,
    }
}

/// The better of two ranks, where nothing is worse than any rank.
pub open spec fn better(best: Option<u8>, rank: Option<u8>) -> Option<u8> {
    match (best, rank) {
        (None, _) => rank,
        (_, None) => best,
        (Some(b), Some(r)) => if r < b {
            rank
        } else {
            best
        },
    }
}

/// The best rank among the candidates gathered, the first one first.
pub open spec fn best_of(candidates: Seq<Seq<char>>) -> Option<u8>
    decreases candidates.len(),
{
    if candidates.len() == 0 {
        None
    } else {
        better(best_of(candidates.drop_last()), candidate_rank(candidates.last()))
    }
}

/// The most direct candidate type gathered so far.
pub struct BestCandidate {
    best: Option<(u8, &'static str)>,
}

impl BestCandidate {
    /// The rank of the best type; nothing while no candidate had a known type.
    pub closed spec fn view(&self) -> Option<u8> {
        match self.best {
            Some((rank, _)) => Some(rank),
            None => None,
        }
    }

    /// The name belongs to the rank.
    pub closed spec fn wf(&self) -> bool {
        self.best matches Some((rank, name)) ==> type_rank(name@) == Some(rank)
    }

    /// No candidate yet.
    pub fn new() -> (r: Self)
        ensures
            r.wf(),
            r@ is None,
    {
        BestCandidate { best: None }
    }

    /// Takes note of one more gathered candidate.
    pub fn gathered(&mut self, candidate_sdp: &str)
        requires
            old(self).wf(),
        ensures
            final(self).wf(),
            final(self)@ == better(old(self)@, candidate_rank(candidate_sdp@)),
    {
        if let Some(typ) = parse_candidate_type(candidate_sdp) {
            if let Some(ranked) = candidate_type_rank(typ.as_str()) {
                let should_replace = match self.best {
                    Some((rank, _)) => ranked.0 < rank,
                    None => true,
                };
                if should_replace {
                    self.best = Some(ranked);
                }
            }
        }
    }

    /// What is reported at the end: whether the channel was established, and the name of
    /// the best type.
    pub fn outcome(&self, established: bool) -> (r: NegotiationOutcome)
        requires
            self.wf(),
        ensures
            r.established == established,
            match r.best_local_candidate_type {
                Some(name) => self@ is Some && type_rank(name@) == self@,
                None => self@ is None,
            },
    {
        NegotiationOutcome {
            established,
            best_local_candidate_type: match self.best {
                Some((_, name)) => Some(name),
                None => None,
            },
        }
    }
}

/// How a negotiation ended.
pub struct NegotiationOutcome {
    pub established: bool,
    /// The most direct candidate type that this side gathered.
    pub best_local_candidate_type: Option<&'static str>,
}

/// What is reported is the most direct type gathered: some gathered candidate has its
/// rank, and none has a lower one. Nothing is reported exactly when no candidate had a
/// known type.
pub proof fn law_best_candidate_is_the_most_direct(candidates: Seq<Seq<char>>)
    ensures
        match best_of(candidates) {
            Some(best) => {
                &&& exists|i: int|
                    0 <= i < candidates.len() && #[trigger] candidate_rank(candidates[i]) == Some(
                        best,
                    )
                &&& forall|i: int|
                    0 <= i < candidates.len() ==> (#[trigger] candidate_rank(
                        candidates[i],
                    ) matches Some(rank) ==> best <= rank)
            },
            None => forall|i: int|
                0 <= i < candidates.len() ==> #[trigger] candidate_rank(candidates[i]) is None,
        },
    decreases candidates.len(),
{
    if candidates.len() > 0 {
        let front = candidates.drop_last();
        let last = candidates.len() - 1;
        law_best_candidate_is_the_most_direct(front);
        assert forall|i: int| 0 <= i < front.len() implies candidate_rank(candidates[i])
            == candidate_rank(#[trigger] front[i]) by {}
        match best_of(candidates) {
            Some(best) => {
                if best_of(front) == Some(best) {
                    let i = choose|i: int|
                        0 <= i < front.len() && #[trigger] candidate_rank(front[i]) == Some(best);
                    assert(candidate_rank(candidates[i]) == Some(best));
                } else {
                    assert(candidate_rank(candidates[last]) == Some(best));
                }
                assert forall|i: int| 0 <= i < candidates.len() implies (
                #[trigger] candidate_rank(candidates[i]) matches Some(rank) ==> best <= rank) by {
                    if i < last {
                        assert(candidate_rank(front[i]) == candidate_rank(candidates[i]));
                    }
                }
            },
            None => {
                assert forall|i: int| 0 <= i < candidates.len() implies #[trigger] candidate_rank(
                    candidates[i],
                ) is None by {
                    if i < last {
                        assert(candidate_rank(front[i]) is None);
                    }
                }
            },
        }
    }
}

// ---------------------------------------------------------------------------
// Servers
// ---------------------------------------------------------------------------

/// The addresses to gather candidates through: two STUN servers, then the extra ones.
pub fn default_ice_servers(extra: Vec<String>) -> (r: Vec<String>)
    ensures
        texts(r@) == seq!["stun:stun.l.google.com:19302"@, "stun:stun1.l.google.com:19302"@]
            + texts(extra@),
{
    let mut urls: Vec<String> = Vec::new();
    urls.push(copy_of("stun:stun.l.google.com:19302"));
    urls.push(copy_of("stun:stun1.l.google.com:19302"));
    let ghost wanted = texts(extra@);
    let mut extra = extra;
    urls.append(&mut extra);
    assert(texts(urls@) =~= seq![
        "stun:stun.l.google.com:19302"@,
        "stun:stun1.l.google.com:19302"@,
    ] + wanted);
    urls
}

// ---------------------------------------------------------------------------
// Signals
// ---------------------------------------------------------------------------

/// A signal that arrived over the relay for a negotiation in progress.
#[derive(Debug, PartialEq, Eq)]
pub enum RemoteSignal {
    /// The offerer's session description.
    Offer(String),
    /// The answerer's session description.
    Answer(String),
    /// One candidate, as JSON.
    IceCandidate(String),
}

/// The model of [`RemoteSignal`].
pub enum SignalView {
    Offer(Seq<char>),
    Answer(Seq<char>),
    IceCandidate(Seq<char>),
}

impl RemoteSignal {
    /// The model of the signal.
    pub open spec fn view(&self) -> SignalView {
        match self {
            RemoteSignal::Offer(sdp) => SignalView::Offer(sdp@),
            RemoteSignal::Answer(sdp) => SignalView::Answer(sdp@),
            RemoteSignal::IceCandidate(json) => SignalView::IceCandidate(json@),
        }
    }
}

/// What a negotiation does with what it received.
#[derive(Debug, PartialEq, Eq)]
pub enum SignalStep {
    /// Take the offer as the remote description, then create, apply and send an answer.
    AcceptOffer(String),
    /// Take the answer as the remote description.
    ApplyAnswer(String),
    /// Add the candidate.
    ApplyCandidate(String),
    /// Nothing.
    Ignore,
    /// Give the negotiation up.
    Fail(String),
    /// Stop listening for signals.
    End,
}

/// The model of [`SignalStep`].
pub enum StepView {
    AcceptOffer(Seq<char>),
    ApplyAnswer(Seq<char>),
    ApplyCandidate(Seq<char>),
    Ignore,
    Fail(Seq<char>),
    End,
}

impl SignalStep {
    /// The model of the step.
    pub open spec fn view(&self) -> StepView {
        match self {
            SignalStep::AcceptOffer(sdp) => StepView::AcceptOffer(sdp@),
            SignalStep::ApplyAnswer(sdp) => StepView::ApplyAnswer(sdp@),
            SignalStep::ApplyCandidate(json) => StepView::ApplyCandidate(json@),
            SignalStep::Ignore => StepView::Ignore,
            SignalStep::Fail(message) => StepView::Fail(message@),
            SignalStep::End => StepView::End,
        }
    }
}

/// What a negotiation stands for.
#[verifier::ext_equal]
pub struct NegotiationView {
    /// This side creates the data channel and sends the offer.
    pub is_offerer: bool,
    /// The offer has not come yet, and this side waits for it.
    pub awaiting_offer: bool,
    /// The data channel to use is known.
    pub channel_known: bool,
    /// The data channel was handed out.
    pub ready: bool,
}

impl NegotiationView {
    /// A negotiation that begins. The offerer knows its channel: it creates it.
    pub open spec fn begun(is_offerer: bool) -> Self {
        NegotiationView {
            is_offerer,
            awaiting_offer: !is_offerer,
            channel_known: is_offerer,
            ready: false,
        }
    }

    /// What is done with a signal, or with the end of the signals.
    pub open spec fn step(self, signal: Option<SignalView>) -> StepView {
        if self.awaiting_offer {
            match signal {
                None => StepView::Fail("signaling channel closed before offer arrived"@),
                Some(SignalView::Offer(sdp)) => StepView::AcceptOffer(sdp),
                Some(_) => StepView::Ignore,
            }
        } else {
            match signal {
                None => StepView::End,
                Some(SignalView::Answer(sdp)) => if self.is_offerer {
                    StepView::ApplyAnswer(sdp)
                } else {
                    StepView::Ignore
                },
                Some(SignalView::IceCandidate(json)) => StepView::ApplyCandidate(json),
                Some(SignalView::Offer(_)) => StepView::Ignore,
            }
        }
    }

    /// The negotiation after a signal, or after the end of the signals.
    pub open spec fn after(self, signal: Option<SignalView>) -> Self {
        NegotiationView {
            awaiting_offer: self.awaiting_offer && !(signal matches Some(SignalView::Offer(_))),
            ..self
        }
    }

    /// The negotiation after a channel of the other side appeared, and whether it is the
    /// one to use.
    pub open spec fn offered_channel(self) -> (Self, bool) {
        (NegotiationView { channel_known: true, ..self }, !self.channel_known)
    }

    /// The negotiation after a channel opened, and whether it is handed out.
    pub open spec fn opened_channel(self) -> (Self, bool) {
        (NegotiationView { ready: true, ..self }, !self.ready)
    }

    /// How often a channel is handed out when channels open `times` times.
    pub open spec fn hand_outs(self, times: nat) -> nat
        decreases times,
    {
        if times == 0 {
            0
        } else {
            let (next, handed) = self.opened_channel();
            next.hand_outs((times - 1) as nat) + if handed {
                1nat
            } else {
                0
            }
        }
    }

    /// What is done with each of `signals`, the first one first.
    pub open spec fn steps(self, signals: Seq<SignalView>) -> Seq<StepView>
        decreases signals.len(),
    {
        if signals.len() == 0 {
            Seq::empty()
        } else {
            seq![self.step(Some(signals[0]))] + self.after(Some(signals[0])).steps(signals.skip(1))
        }
    }
}

/// One side of a negotiation.
pub struct Negotiation {
    is_offerer: bool,
    awaiting_offer: bool,
    channel_known: bool,
    ready: bool,
}

impl Negotiation {
    /// The model of the negotiation.
    pub closed spec fn view(&self) -> NegotiationView {
        NegotiationView {
            is_offerer: self.is_offerer,
            awaiting_offer: self.awaiting_offer,
            channel_known: self.channel_known,
            ready: self.ready,
        }
    }

    /// A negotiation that begins. The offerer goes on to create its channel and to send
    /// its offer; the answerer waits for the offer.
    pub fn new(is_offerer: bool) -> (r: Self)
        ensures
            r@ == NegotiationView::begun(is_offerer),
    {
        Negotiation {
            is_offerer,
            awaiting_offer: !is_offerer,
            channel_known: is_offerer,
            ready: false,
        }
    }

    /// Whether this side still waits for the offer.
    pub fn awaits_offer(&self) -> (r: bool)
        ensures
            r == self@.awaiting_offer,
    {
        self.awaiting_offer
    }

    /// What to do with a signal that arrived; with `None`, with the end of the signals.
    pub fn on_signal(&mut self, signal: Option<RemoteSignal>) -> (r: SignalStep)
        ensures
            r@ == old(self)@.step(
                match signal {
                    Some(signal) => Some(signal@),
                    None => None,
                },
            ),
            final(self)@ == old(self)@.after(
                match signal {
                    Some(signal) => Some(signal@),
                    None => None,
                },
            ),
    {
        if self.awaiting_offer {
            match signal {
                None => SignalStep::Fail(copy_of("signaling channel closed before offer arrived")),
                Some(RemoteSignal::Offer(sdp)) => {
                    self.awaiting_offer = false;
                    SignalStep::AcceptOffer(sdp)
                },
                Some(RemoteSignal::IceCandidate(_)) => SignalStep::Ignore,
                Some(RemoteSignal::Answer(_)) => SignalStep::Ignore,
            }
        } else {
            match signal {
                None => SignalStep::End,
                Some(RemoteSignal::Answer(sdp)) => {
                    if self.is_offerer {
                        SignalStep::ApplyAnswer(sdp)
                    } else {
                        SignalStep::Ignore
                    }
                },
                Some(RemoteSignal::IceCandidate(json)) => SignalStep::ApplyCandidate(json),
                Some(RemoteSignal::Offer(_)) => SignalStep::Ignore,
            }
        }
    }

    /// Whether a data channel that the other side opened is the one to use: the first.
    pub fn on_data_channel(&mut self) -> (r: bool)
        ensures
            (final(self)@, r) == old(self)@.offered_channel(),
    {
        let first = !self.channel_known;
        self.channel_known = true;
        first
    }

    /// Whether a channel that has opened is to be handed out: it is, once.
    pub fn on_open(&mut self) -> (r: bool)
        ensures
            (final(self)@, r) == old(self)@.opened_channel(),
    {
        let first = !self.ready;
        self.ready = true;
        first
    }
}

/// Where a negotiation can fail.
#[derive(Debug, Clone, Copy, PartialEq, Eq, Structural)]
pub enum Stage {
    InterceptorRegistry,
    NewPeerConnection,
    CreateDataChannel,
    CreateOffer,
    SetLocalOffer,
    ParseOffer,
    SetRemoteOffer,
    CreateAnswer,
    SetLocalAnswer,
}

/// How a failure at `stage` is introduced.
pub open spec fn stage_text(stage: Stage) -> Seq<char> {
    match stage {
        Stage::InterceptorRegistry => "interceptor registry: "@,
        Stage::NewPeerConnection => "new_peer_connection: "@,
        Stage::CreateDataChannel => "create_data_channel: "@,
        Stage::CreateOffer => "create_offer: "@,
        Stage::SetLocalOffer => "set_local_description(offer): "@,
        Stage::ParseOffer => "parse remote offer: "@,
        Stage::SetRemoteOffer => "set_remote_description(offer): "@,
        Stage::CreateAnswer => "create_answer: "@,
        Stage::SetLocalAnswer => "set_local_description(answer): "@,
    }
}

/// The message of a negotiation that failed at `stage` with `err`.
pub fn stage_failure(stage: Stage, err: &str) -> (r: String)
    ensures
        r@ == stage_text(stage) + err@,
{
    let start = match stage {
        Stage::InterceptorRegistry => "interceptor registry: ",
        Stage::NewPeerConnection => "new_peer_connection: ",
        Stage::CreateDataChannel => "create_data_channel: ",
        Stage::CreateOffer => "create_offer: ",
        Stage::SetLocalOffer => "set_local_description(offer): ",
        Stage::ParseOffer => "parse remote offer: ",
        Stage::SetRemoteOffer => "set_remote_description(offer): ",
        Stage::CreateAnswer => "create_answer: ",
        Stage::SetLocalAnswer => "set_local_description(answer): ",
    };
    concat(start, err)
}

/// An answerer does nothing before the offer: whatever comes before the first offer is
/// ignored, the first offer is accepted, and after it every candidate is applied and
/// everything else is ignored.
pub proof fn law_answerer_accepts_one_offer(
    before: Seq<SignalView>,
    sdp: Seq<char>,
    after: Seq<SignalView>,
)
    requires
        forall|i: int| 0 <= i < before.len() ==> !(#[trigger] before[i] is Offer),
    ensures
        ({
            let steps = NegotiationView::begun(false).steps(
                before + seq![SignalView::Offer(sdp)] + after,
            );
            &&& steps.len() == before.len() + 1 + after.len()
            &&& forall|i: int| 0 <= i < before.len() ==> #[trigger] steps[i] is Ignore
            &&& steps[before.len() as int] == StepView::AcceptOffer(sdp)
            &&& forall|i: int|
                0 <= i < after.len() ==> #[trigger] steps[before.len() + 1 + i] == match after[i] {
                    SignalView::IceCandidate(json) => StepView::ApplyCandidate(json),
                    _ => StepView::Ignore,
                }
        }),
    decreases before.len(),
{
    let begun = NegotiationView::begun(false);
    let signals = before + seq![SignalView::Offer(sdp)] + after;
    if before.len() == 0 {
        assert(signals[0] == SignalView::Offer(sdp));
        assert(signals.skip(1) =~= after);
        lemma_ordinary_steps(begun.after(Some(signals[0])), after);
    } else {
        assert(signals[0] == before[0]);
        assert(!(before[0] is Offer));
        let rest = before.skip(1);
        assert forall|i: int| 0 <= i < rest.len() implies !(#[trigger] rest[i] is Offer) by {
            assert(rest[i] == before[i + 1]);
        }
        assert(signals.skip(1) =~= rest + seq![SignalView::Offer(sdp)] + after);
        law_answerer_accepts_one_offer(rest, sdp, after);
        assert(begun.after(Some(signals[0])) =~= begun);
        let steps = begun.steps(signals);
        let tail = begun.steps(signals.skip(1));
        assert(steps =~= seq![begun.step(Some(signals[0]))] + tail);
        assert forall|i: int| 0 <= i < before.len() implies #[trigger] steps[i] is Ignore by {
            if i > 0 {
                assert(steps[i] == tail[i - 1]);
            }
        }
        assert(steps[before.len() as int] == tail[rest.len() as int]);
        assert forall|i: int| 0 <= i < after.len() implies #[trigger] steps[before.len() + 1 + i]
            == match after[i] {
            SignalView::IceCandidate(json) => StepView::ApplyCandidate(json),
            _ => StepView::Ignore,
        } by {
            assert(steps[before.len() + 1 + i] == tail[rest.len() + 1 + i]);
        }
    }
}

/// What a negotiation that does not wait for an offer does with a signal.
pub open spec fn ordinary_step(is_offerer: bool, signal: SignalView) -> StepView {
    match signal {
        SignalView::Answer(sdp) => if is_offerer {
            StepView::ApplyAnswer(sdp)
        } else {
            StepView::Ignore
        },
        SignalView::IceCandidate(json) => StepView::ApplyCandidate(json),
        SignalView::Offer(_) => StepView::Ignore,
    }
}

proof fn lemma_ordinary_steps(v: NegotiationView, signals: Seq<SignalView>)
    requires
        !v.awaiting_offer,
    ensures
        v.steps(signals).len() == signals.len(),
        forall|i: int|
            0 <= i < signals.len() ==> #[trigger] v.steps(signals)[i] == ordinary_step(
                v.is_offerer,
                signals[i],
            ),
    decreases signals.len(),
{
    if signals.len() > 0 {
        assert(v.after(Some(signals[0])) =~= v);
        lemma_ordinary_steps(v, signals.skip(1));
        assert forall|i: int| 0 <= i < signals.len() implies #[trigger] v.steps(signals)[i]
            == ordinary_step(v.is_offerer, signals[i]) by {
            if i > 0 {
                assert(v.steps(signals)[i] == v.steps(signals.skip(1))[i - 1]);
                assert(signals[i] == signals.skip(1)[i - 1]);
            }
        }
    }
}

/// An offerer applies every answer and every candidate, in order, and never takes an
/// offer.
pub proof fn law_offerer_applies_answers_and_candidates(signals: Seq<SignalView>)
    ensures
        ({
            let steps = NegotiationView::begun(true).steps(signals);
            &&& steps.len() == signals.len()
            &&& forall|i: int|
                0 <= i < signals.len() ==> #[trigger] steps[i] == match signals[i] {
                    SignalView::Answer(sdp) => StepView::ApplyAnswer(sdp),
                    SignalView::IceCandidate(json) => StepView::ApplyCandidate(json),
                    SignalView::Offer(_) => StepView::Ignore,
                }
        }),
{
    lemma_ordinary_steps(NegotiationView::begun(true), signals);
}

/// A data channel is handed out once, however often channels open.
pub proof fn law_channel_is_handed_out_once(is_offerer: bool, times: nat)
    requires
        times > 0,
    ensures
        NegotiationView::begun(is_offerer).hand_outs(times) == 1,
{
    let opened = NegotiationView::begun(is_offerer).opened_channel().0;
    lemma_no_further_hand_outs(opened, (times - 1) as nat);
}

proof fn lemma_no_further_hand_outs(v: NegotiationView, times: nat)
    requires
        v.ready,
    ensures
        v.hand_outs(times) == 0,
    decreases times,
{
    if times > 0 {
        lemma_no_further_hand_outs(v.opened_channel().0, (times - 1) as nat);
    }
}

/// A host candidate is more direct than one seen by a server, that is more direct than one
/// seen by the peer, and that is more direct than a relay; other types have no rank.
pub proof fn law_direct_candidates_rank_first(typ: Seq<char>)
    ensures
        type_rank("host"@) matches Some(host) && type_rank("srflx"@) matches Some(server)
            && type_rank("prflx"@) matches Some(peer) && type_rank("relay"@) matches Some(relay)
            && host < server < peer < relay,
        type_rank(typ) is Some <==> typ == "host"@ || typ == "srflx"@ || typ == "prflx"@ || typ
            == "relay"@,
{
    reveal_strlit("host");
    reveal_strlit("srflx");
    reveal_strlit("prflx");
    reveal_strlit("relay");
    assert("host"@.len() == 4);
    assert("srflx"@.len() == 5 && "srflx"@[0] == 's');
    assert("prflx"@.len() == 5 && "prflx"@[0] == 'p');
    assert("relay"@.len() == 5 && "relay"@[0] == 'r');
}

/// The words of a text are read one by one: whitespace ends a word and is otherwise
/// dropped, and a run of other characters behind it is the next word, whole.
pub proof fn law_words_are_read_one_by_one(s: Seq<char>, c: char, word: Seq<char>)
    ensures
        words(Seq::<char>::empty()) == Seq::<Seq<char>>::empty(),
        whitespace(c) ==> words(s.push(c)) == words(s),
        (s.len() == 0 || whitespace(s.last())) && word.len() > 0 && !holds_whitespace(word)
            ==> words(s + word) == words(s).push(word),
{
    assert(s.push(c).drop_last() =~= s);
    if (s.len() == 0 || whitespace(s.last())) && word.len() > 0 && !holds_whitespace(word) {
        lemma_word_at_the_end(s, word);
    }
}

proof fn lemma_word_at_the_end(s: Seq<char>, word: Seq<char>)
    requires
        s.len() == 0 || whitespace(s.last()),
        !holds_whitespace(word),
    ensures
        words_and_rest(s + word) == (words(s), word),
    decreases word.len(),
{
    if word.len() == 0 {
        assert(s + word =~= s);
        assert(words_and_rest(s).1 =~= word);
    } else {
        let front = word.drop_last();
        assert forall|i: int| 0 <= i < front.len() implies !whitespace(#[trigger] front[i]) by {
            assert(front[i] == word[i]);
        }
        assert(!whitespace(word[word.len() - 1]));
        lemma_word_at_the_end(s, front);
        assert((s + word).drop_last() =~= s + front);
        assert(front.push(word.last()) =~= word);
    }
}

/// The type of a candidate is the word right behind the first `typ`, and there is none
/// without that word or with nothing behind it.
pub proof fn law_type_stands_behind_typ(
    before: Seq<Seq<char>>,
    typ: Seq<char>,
    after: Seq<Seq<char>>,
)
    requires
        !before.contains("typ"@),
    ensures
        word_after_typ(before + (seq!["typ"@, typ] + after)) == Some(typ),
        word_after_typ(before + seq!["typ"@]) is None,
        word_after_typ(before) is None,
    decreases before.len(),
{
    let full = before + (seq!["typ"@, typ] + after);
    let bare = before + seq!["typ"@];
    if before.len() == 0 {
        assert(full[0] == "typ"@ && full[1] == typ);
        assert(bare[0] == "typ"@ && bare.len() == 1);
    } else {
        let rest = before.skip(1);
        assert(before[0] != "typ"@);
        assert forall|i: int| 0 <= i < rest.len() implies rest[i] != "typ"@ by {
            assert(rest[i] == before[i + 1]);
        }
        law_type_stands_behind_typ(rest, typ, after);
        assert(full[0] == before[0] && bare[0] == before[0]);
        assert(full.skip(1) =~= rest + (seq!["typ"@, typ] + after));
        assert(bare.skip(1) =~= rest + seq!["typ"@]);
    }
}

/// The rank of a candidate is that of the type that it names.
pub proof fn law_candidate_is_ranked_by_its_type(candidate: Seq<char>)
    ensures
        word_after_typ(words(candidate)) is None ==> candidate_rank(candidate) is None,
        word_after_typ(words(candidate)) is Some ==> candidate_rank(candidate) == type_rank(
            word_after_typ(words(candidate))->0,
        ),
{
}

/// When the signals end, a side that still waits for the offer fails, and any other side
/// only stops listening.
pub proof fn law_missing_offer_is_a_failure(negotiation: NegotiationView)
    ensures
        negotiation.step(None) is Fail <==> negotiation.awaiting_offer,
        negotiation.step(None) is End <==> !negotiation.awaiting_offer,
        NegotiationView::begun(true).step(None) is End,
        NegotiationView::begun(false).step(None) is Fail,
{
}

/// An offerer uses the channel that it creates and no other; an answerer uses the first
/// channel that the other side opens, and none after it.
pub proof fn law_first_channel_is_used(is_offerer: bool)
    ensures
        ({
            let begun = NegotiationView::begun(is_offerer);
            let (known, used) = begun.offered_channel();
            &&& used <==> !is_offerer
            &&& !known.offered_channel().1
            &&& known.is_offerer == begun.is_offerer
            &&& known.awaiting_offer == begun.awaiting_offer
            &&& known.ready == begun.ready
            &&& !begun.ready
            &&& begun.opened_channel().1
        }),
{
}

/// A signal decides nothing but whether the offer is still awaited, and only an offer
/// ends that.
pub proof fn law_only_an_offer_ends_the_wait(
    negotiation: NegotiationView,
    signal: Option<SignalView>,
)
    ensures
        ({
            let after = negotiation.after(signal);
            &&& after.is_offerer == negotiation.is_offerer
            &&& after.channel_known == negotiation.channel_known
            &&& after.ready == negotiation.ready
            &&& after.awaiting_offer <==> negotiation.awaiting_offer && !(signal is Some
                && signal->0 is Offer)
        }),
{
}

/// A signal and what is done with it are modelled with the whole text that they carry.
pub proof fn law_signals_are_modelled_whole(signal: RemoteSignal, step: SignalStep)
    ensures
        signal matches RemoteSignal::Offer(sdp) ==> signal@ == SignalView::Offer(sdp@),
        signal matches RemoteSignal::Answer(sdp) ==> signal@ == SignalView::Answer(sdp@),
        signal matches RemoteSignal::IceCandidate(json) ==> signal@ == SignalView::IceCandidate(
            json@,
        ),
        step matches SignalStep::AcceptOffer(sdp) ==> step@ == StepView::AcceptOffer(sdp@),
        step matches SignalStep::ApplyAnswer(sdp) ==> step@ == StepView::ApplyAnswer(sdp@),
        step matches SignalStep::ApplyCandidate(json) ==> step@ == StepView::ApplyCandidate(json@),
        step matches SignalStep::Fail(message) ==> step@ == StepView::Fail(message@),
        step is Ignore <==> step@ is Ignore,
        step is End <==> step@ is End,
{
}

} // verus!
