//! What travels over the relay: the payloads that arrive, the messages that go out, and
//! how bytes are carried in a JSON string.

use base64::Engine as _;
use vstd::prelude::*;
use crate::text::copy_of;
use crate::text::opt_str;
use crate::text::same_text;

verus! {

// ---------------------------------------------------------------------------
// Bytes in a JSON string
// ---------------------------------------------------------------------------

/// The text that `base64::engine::general_purpose::STANDARD` encodes bytes to.
pub uninterp spec fn base64_text(bytes: Seq<u8>) -> Seq<char>;

/// The bytes that `base64::engine::general_purpose::STANDARD` decodes a text to; nothing
/// where the text is not the padded, canonical base64 of any bytes.
pub uninterp spec fn base64_bytes(text: Seq<char>) -> Option<Seq<u8>>;

/// A text that holds `count` bytes in base64 is no longer than a buffer can be.
pub open spec fn encodable(count: nat) -> bool {
    4 * ((count + 2) / 3) <= isize::MAX
}

/// `Engine::encode` of `base64::engine::general_purpose::STANDARD`: the base64 text of
/// the bytes, with padding. It is a function of the bytes alone, and decoding the text
/// gives the bytes back. It panics where the text would be longer than a buffer can be.
#[verifier::external_body]
fn base64_encode(bytes: &[u8]) -> (r: String)
    requires
        encodable(bytes@.len()),
    ensures
        r@ == base64_text(bytes@),
        base64_bytes(r@) == Some(bytes@),
{
    base64::engine::general_purpose::STANDARD.encode(bytes)
}

/// `Engine::decode` of `base64::engine::general_purpose::STANDARD`, with its error
/// dropped. It is a function of the text alone.
#[verifier::external_body]
fn base64_decode(text: &str) -> (r: Option<Vec<u8>>)
    ensures
        match r {
            Some(bytes) => base64_bytes(text@) == Some(bytes@),
            None => base64_bytes(text@) is None,
        },
{
    base64::engine::general_purpose::STANDARD.decode(text).ok()
}

/// Whether `serde_json::from_str` reads a text as one JSON value.
pub uninterp spec fn json_text(text: Seq<char>) -> bool;

/// `serde_json::from_str::<serde_json::Value>`: whether it succeeds, which depends on
/// the text alone.
#[verifier::external_body]
fn is_json_text(text: &str) -> (r: bool)
    ensures
        r == json_text(text@),
{
    serde_json::from_str::<serde_json::Value>(text).is_ok()
}

// ---------------------------------------------------------------------------
// What arrives
// ---------------------------------------------------------------------------

/// What a JSON value holds, as far as the relay looks at it.
pub enum JsonContent {
    /// A string.
    Text(String),
    /// A whole number that is not negative and fits.
    Whole(u64),
    /// An object: its members, each key once.
    Object(Vec<(String, JsonValue)>),
    /// Anything else.
    Other,
}

/// A JSON value, with its own text.
pub struct JsonValue {
    pub content: JsonContent,
    /// The value written as JSON.
    pub json: String,
}

/// The payload of an event.
pub enum Payload {
    /// JSON values.
    Text(Vec<JsonValue>),
    /// Anything else.
    Other,
}

/// The value under the key `field` in a list of members.
pub open spec fn member(members: Seq<(String, JsonValue)>, field: Seq<char>) -> Option<JsonValue>
    decreases members.len(),
{
    if members.len() == 0 {
        None
    } else if members[0].0@ == field {
        Some(members[0].1)
    } else {
        member(members.skip(1), field)
    }
}

impl JsonValue {
    /// The member `field`, where this is an object that has it.
    pub open spec fn spec_get(&self, field: Seq<char>) -> Option<JsonValue> {
        match self.content {
            JsonContent::Object(members) => member(members@, field),
            _ => None,
        }
    }

    /// The characters, where this is a string.
    pub open spec fn spec_text(&self) -> Option<Seq<char>> {
        match self.content {
            JsonContent::Text(text) => Some(text@),
            _ => None,
        }
    }

    /// The number, where this is one that fits.
    pub open spec fn spec_whole(&self) -> Option<u64> {
        match self.content {
            JsonContent::Whole(n) => Some(n),
            _ => None,
        }
    }

    /// The member `field`, where this is an object that has it.
    pub fn get(&self, field: &str) -> (r: Option<&JsonValue>)
        ensures
            match r {
                Some(value) => self.spec_get(field@) == Some(*value),
                None => self.spec_get(field@) is None,
            },
    {
        match &self.content {
            JsonContent::Object(members) => {
                let mut i: usize = 0;
                assert(members@.skip(0) =~= members@);
                while i < members.len()
                    invariant
                        i <= members@.len(),
                        self.spec_get(field@) == member(members@, field@),
                        member(members@, field@) == member(members@.skip(i as int), field@),
                    decreases members@.len() - i,
                {
                    assert(members@.skip(i as int)[0] == members@[i as int]);
                    assert(members@.skip(i as int).skip(1) =~= members@.skip(i + 1));
                    if same_text(members[i].0.as_str(), field) {
                        return Some(&members[i].1);
                    }
                    i += 1;
                }
                None
            },
            _ => None,
        }
    }

    /// The characters, where this is a string.
    pub fn as_str(&self) -> (r: Option<&str>)
        ensures
            match r {
                Some(text) => self.spec_text() == Some(text@),
                None => self.spec_text() is None,
            },
    {
        match &self.content {
            JsonContent::Text(text) => Some(text.as_str()),
            _ => None,
        }
    }

    /// The number, where this is one that fits.
    pub fn as_u64(&self) -> (r: Option<u64>)
        ensures
            r == self.spec_whole(),
    {
        match &self.content {
            JsonContent::Whole(n) => Some(*n),
            _ => None,
        }
    }
}

impl Payload {
    /// The value that a payload carries: the first, where it holds any.
    pub open spec fn value(&self) -> Option<JsonValue> {
        match self {
            Payload::Text(values) => if values@.len() > 0 {
                Some(values@[0])
            } else {
                None
            },
            Payload::Other => None,
        }
    }

    /// The string under `field` in the carried value.
    pub open spec fn text_field(&self, field: Seq<char>) -> Option<Seq<char>> {
        match self.value() {
            Some(value) => match value.spec_get(field) {
                Some(inner) => inner.spec_text(),
                None => None,
            },
            None => None,
        }
    }

    /// The number under `field` in the carried value.
    pub open spec fn whole_field(&self, field: Seq<char>) -> Option<u64> {
        match self.value() {
            Some(value) => match value.spec_get(field) {
                Some(inner) => inner.spec_whole(),
                None => None,
            },
            None => None,
        }
    }

    /// The value under `field`, written as JSON.
    pub open spec fn json_field(&self, field: Seq<char>) -> Option<Seq<char>> {
        match self.value() {
            Some(value) => match value.spec_get(field) {
                Some(inner) => Some(inner.json@),
                None => None,
            },
            None => None,
        }
    }

    /// The bytes under `field` in the carried value.
    pub open spec fn bytes_field(&self, field: Seq<char>) -> Option<Seq<u8>> {
        match self.value() {
            Some(value) => match value.spec_get(field) {
                Some(inner) => decoded_field(inner),
                None => None,
            },
            None => None,
        }
    }

    /// The reason that a refusal gives, `unknown` where it gives none.
    pub open spec fn reason(&self) -> Seq<char> {
        match self.text_field("reason"@) {
            Some(reason) => reason,
            None => "unknown"@,
        }
    }
}

/// The bytes that a JSON value stands for: those of a string that holds base64.
pub open spec fn decoded_field(value: JsonValue) -> Option<Seq<u8>> {
    match value.spec_text() {
        Some(text) => base64_bytes(text),
        None => None,
    }
}

/// The text that carries `bytes`. Decoding it gives them back.
pub fn encode_bytes_field(bytes: &[u8]) -> (r: String)
    requires
        encodable(bytes@.len()),
    ensures
        r@ == base64_text(bytes@),
        forall|value: JsonValue|
            value.spec_text() == Some(r@) ==> #[trigger] decoded_field(value) == Some(bytes@),
{
    base64_encode(bytes)
}

/// The bytes that a JSON value stands for, where it is a string that holds base64.
pub fn decode_bytes_field(value: &JsonValue) -> (r: Option<Vec<u8>>)
    ensures
        match r {
            Some(bytes) => decoded_field(*value) == Some(bytes@),
            None => decoded_field(*value) is None,
        },
{
    match value.as_str() {
        Some(text) => base64_decode(text),
        None => None,
    }
}

/// The value that a payload carries.
pub fn payload_as_value(payload: &Payload) -> (r: Option<&JsonValue>)
    ensures
        match r {
            Some(value) => payload.value() == Some(*value),
            None => payload.value() is None,
        },
{
    match payload {
        Payload::Text(values) => {
            if values.len() > 0 {
                Some(&values[0])
            } else {
                None
            }
        },
        Payload::Other => None,
    }
}

/// The string under `field` in what a payload carries.
pub fn extract_str_field(payload: &Payload, field: &str) -> (r: Option<String>)
    ensures
        match r {
            Some(text) => payload.text_field(field@) == Some(text@),
            None => payload.text_field(field@) is None,
        },
{
    match payload_as_value(payload) {
        Some(value) => match value.get(field) {
            Some(inner) => match inner.as_str() {
                Some(text) => Some(copy_of(text)),
                None => None,
            },
            None => None,
        },
        None => None,
    }
}

/// The number under `field` in what a payload carries.
pub fn extract_u64_field(payload: &Payload, field: &str) -> (r: Option<u64>)
    ensures
        r == payload.whole_field(field@),
{
    match payload_as_value(payload) {
        Some(value) => match value.get(field) {
            Some(inner) => inner.as_u64(),
            None => None,
        },
        None => None,
    }
}

/// The value under `field` in what a payload carries, written as JSON.
pub fn extract_json_field(payload: &Payload, field: &str) -> (r: Option<String>)
    ensures
        match r {
            Some(text) => payload.json_field(field@) == Some(text@),
            None => payload.json_field(field@) is None,
        },
{
    match payload_as_value(payload) {
        Some(value) => match value.get(field) {
            Some(inner) => Some(inner.json.clone()),
            None => None,
        },
        None => None,
    }
}

/// The bytes under `field` in what a payload carries.
pub fn extract_bytes_field(payload: &Payload, field: &str) -> (r: Option<Vec<u8>>)
    ensures
        match r {
            Some(bytes) => payload.bytes_field(field@) == Some(bytes@),
            None => payload.bytes_field(field@) is None,
        },
{
    match payload_as_value(payload) {
        Some(value) => match value.get(field) {
            Some(inner) => decode_bytes_field(inner),
            None => None,
        },
        None => None,
    }
}

/// The reason that a refusal gives, `unknown` where it gives none.
pub fn extract_reason(payload: &Payload) -> (r: String)
    ensures
        r@ == payload.reason(),
{
    match extract_str_field(payload, "reason") {
        Some(reason) => reason,
        None => copy_of("unknown"),
    }
}

/// The viewer and the bytes in a `{"viewer_sid": .., "bytes": ..}` payload, which is how
/// the relay hands a viewer's input to the host.
pub fn extract_viewer_bytes(payload: &Payload) -> (r: Option<(String, Vec<u8>)>)
    ensures
        match r {
            Some((viewer_sid, bytes)) => payload.text_field("viewer_sid"@) == Some(viewer_sid@)
                && payload.bytes_field("bytes"@) == Some(bytes@),
            None => payload.text_field("viewer_sid"@) is None || payload.bytes_field(
                "bytes"@,
            ) is None,
        },
{
    match extract_str_field(payload, "viewer_sid") {
        Some(viewer_sid) => match extract_bytes_field(payload, "bytes") {
            Some(bytes) => Some((viewer_sid, bytes)),
            None => None,
        },
        None => None,
    }
}

/// The bytes of a payload that is nothing but a string of base64, which is how the relay
/// hands the host's output to a viewer.
pub fn extract_bare_bytes(payload: &Payload) -> (r: Option<Vec<u8>>)
    ensures
        match r {
            Some(bytes) => bare_bytes(*payload) == Some(bytes@),
            None => bare_bytes(*payload) is None,
        },
{
    match payload_as_value(payload) {
        Some(value) => decode_bytes_field(value),
        None => None,
    }
}

/// The bytes of a payload that is nothing but a string of base64.
pub open spec fn bare_bytes(payload: Payload) -> Option<Seq<u8>> {
    match payload.value() {
        Some(value) => decoded_field(value),
        None => None,
    }
}

// ---------------------------------------------------------------------------
// What goes out
// ---------------------------------------------------------------------------

/// The value of one member of a message.
#[derive(Debug, PartialEq, Eq)]
pub enum Field {
    Text(String),
    Whole(u64),
    Flag(bool),
    /// A value that is already written as JSON and goes in as it is.
    Json(String),
}

/// The model of [`Field`].
pub enum FieldView {
    Text(Seq<char>),
    Whole(u64),
    Flag(bool),
    Json(Seq<char>),
}

/// The payload of a message.
#[derive(Debug, PartialEq, Eq)]
pub enum Body {
    /// A JSON object with these members.
    Members(Vec<(String, Field)>),
    /// A JSON string.
    Bare(String),
}

/// The model of [`Body`].
pub enum BodyView {
    Members(Seq<(Seq<char>, FieldView)>),
    Bare(Seq<char>),
}

/// A message to the relay.
#[derive(Debug, PartialEq, Eq)]
pub struct Emit {
    pub event: String,
    pub body: Body,
}

/// The model of [`Emit`].
pub struct EmitView {
    pub event: Seq<char>,
    pub body: BodyView,
}

impl Field {
    /// The model of the value.
    pub open spec fn view(&self) -> FieldView {
        match self {
            Field::Text(text) => FieldView::Text(text@),
            Field::Whole(n) => FieldView::Whole(*n),
            Field::Flag(b) => FieldView::Flag(*b),
            Field::Json(text) => FieldView::Json(text@),
        }
    }
}

/// The model of a list of members.
pub open spec fn members_view(members: Seq<(String, Field)>) -> Seq<(Seq<char>, FieldView)> {
    members.map_values(|m: (String, Field)| (m.0@, m.1@))
}

impl Emit {
    /// The model of the message.
    pub open spec fn view(&self) -> EmitView {
        EmitView {
            event: self.event@,
            body: match self.body {
                Body::Members(members) => BodyView::Members(members_view(members@)),
                Body::Bare(text) => BodyView::Bare(text@),
            },
        }
    }
}

/// The message `event` with an object as its payload.
pub open spec fn message(event: Seq<char>, members: Seq<(Seq<char>, FieldView)>) -> EmitView {
    EmitView { event, body: BodyView::Members(members) }
}

fn emit(event: &str, members: Vec<(String, Field)>) -> (r: Emit)
    ensures
        r@ == message(event@, members_view(members@)),
{
    Emit { event: copy_of(event), body: Body::Members(members) }
}

fn text_member(name: &str, value: &str) -> (r: (String, Field))
    ensures
        (r.0@, r.1@) == (name@, FieldView::Text(value@)),
{
    (copy_of(name), Field::Text(copy_of(value)))
}

/// The member that names the viewer, where one has to be named.
pub open spec fn addressed_to(viewer_sid: Option<Seq<char>>) -> Seq<(Seq<char>, FieldView)> {
    match viewer_sid {
        Some(sid) => seq![("viewer_sid"@, FieldView::Text(sid))],
        None => Seq::empty(),
    }
}

fn address(viewer_sid: Option<&str>) -> (r: Vec<(String, Field)>)
    ensures
        members_view(r@) == addressed_to(opt_str(viewer_sid)),
{
    let mut members: Vec<(String, Field)> = Vec::new();
    match viewer_sid {
        Some(sid) => members.push(text_member("viewer_sid", sid)),
        None => {},
    }
    assert(members_view(members@) =~= addressed_to(opt_str(viewer_sid)));
    members
}

/// The host registers itself, or renews its registration.
pub open spec fn host_hello_view() -> EmitView {
    message("term:host_hello"@, Seq::empty())
}

/// The host registers itself, or renews its registration.
pub fn host_hello() -> (r: Emit)
    ensures
        r@ == host_hello_view(),
{
    let r = emit("term:host_hello", Vec::new());
    assert(members_view(Seq::empty()) =~= Seq::empty());
    r
}

/// The host gives its registration up.
pub open spec fn host_bye_view() -> EmitView {
    message("term:host_bye"@, Seq::empty())
}

/// The host gives its registration up.
pub fn host_bye() -> (r: Emit)
    ensures
        r@ == host_bye_view(),
{
    let r = emit("term:host_bye", Vec::new());
    assert(members_view(Seq::empty()) =~= Seq::empty());
    r
}

/// Output of the host for one viewer.
pub open spec fn frame_view(viewer_sid: Seq<char>, data: Seq<u8>) -> EmitView {
    message(
        "term:frame"@,
        seq![
            ("viewer_sid"@, FieldView::Text(viewer_sid)),
            ("bytes"@, FieldView::Text(base64_text(data))),
        ],
    )
}

/// Output of the host for one viewer. What it carries decodes to `data`.
pub fn frame(viewer_sid: &str, data: &[u8]) -> (r: Emit)
    requires
        encodable(data@.len()),
    ensures
        r@ == frame_view(viewer_sid@, data@),
        base64_bytes(base64_text(data@)) == Some(data@),
{
    let mut members: Vec<(String, Field)> = Vec::new();
    members.push(text_member("viewer_sid", viewer_sid));
    let text = base64_encode(data);
    members.push(text_member("bytes", text.as_str()));
    let r = emit("term:frame", members);
    assert(members_view(members@) =~= seq![
        ("viewer_sid"@, FieldView::Text(viewer_sid@)),
        ("bytes"@, FieldView::Text(base64_text(data@))),
    ]);
    r
}

/// Input of a viewer for the host.
pub open spec fn input_view(data: Seq<u8>) -> EmitView {
    EmitView { event: "term:input"@, body: BodyView::Bare(base64_text(data)) }
}

/// Input of a viewer for the host. What it carries decodes to `data`.
pub fn input(data: &[u8]) -> (r: Emit)
    requires
        encodable(data@.len()),
    ensures
        r@ == input_view(data@),
        base64_bytes(base64_text(data@)) == Some(data@),
{
    Emit { event: copy_of("term:input"), body: Body::Bare(base64_encode(data)) }
}

/// A viewer asks for a new session on the device `target`.
pub open spec fn attach_view(target: Seq<char>, session: Seq<char>) -> EmitView {
    message(
        "term:attach"@,
        seq![
            ("target_token_id"@, FieldView::Text(target)),
            ("viewer_session_id"@, FieldView::Text(session)),
        ],
    )
}

/// A viewer asks for a new session on the device `target`.
pub fn attach(target: &str, session: &str) -> (r: Emit)
    ensures
        r@ == attach_view(target@, session@),
{
    let mut members: Vec<(String, Field)> = Vec::new();
    members.push(text_member("target_token_id", target));
    members.push(text_member("viewer_session_id", session));
    let r = emit("term:attach", members);
    assert(members_view(members@) =~= seq![
        ("target_token_id"@, FieldView::Text(target@)),
        ("viewer_session_id"@, FieldView::Text(session@)),
    ]);
    r
}

/// A viewer asks for its earlier session, from the byte `last_seq` on.
pub open spec fn reattach_view(target: Seq<char>, session: Seq<char>, last_seq: u64) -> EmitView {
    message(
        "term:reattach"@,
        seq![
            ("target_token_id"@, FieldView::Text(target)),
            ("viewer_session_id"@, FieldView::Text(session)),
            ("last_seq"@, FieldView::Whole(last_seq)),
        ],
    )
}

/// A viewer asks for its earlier session, from the byte `last_seq` on.
pub fn reattach(target: &str, session: &str, last_seq: u64) -> (r: Emit)
    ensures
        r@ == reattach_view(target@, session@, last_seq),
{
    let mut members: Vec<(String, Field)> = Vec::new();
    members.push(text_member("target_token_id", target));
    members.push(text_member("viewer_session_id", session));
    members.push((copy_of("last_seq"), Field::Whole(last_seq)));
    let r = emit("term:reattach", members);
    assert(members_view(members@) =~= seq![
        ("target_token_id"@, FieldView::Text(target@)),
        ("viewer_session_id"@, FieldView::Text(session@)),
        ("last_seq"@, FieldView::Whole(last_seq)),
    ]);
    r
}

/// The host refuses to resume a session.
pub open spec fn reattach_error_view(viewer_sid: Seq<char>, reason: Seq<char>) -> EmitView {
    message(
        "term:reattach_error"@,
        seq![
            ("viewer_sid"@, FieldView::Text(viewer_sid)),
            ("reason"@, FieldView::Text(reason)),
        ],
    )
}

/// The host refuses to resume a session.
pub fn reattach_error(viewer_sid: &str, reason: &str) -> (r: Emit)
    ensures
        r@ == reattach_error_view(viewer_sid@, reason@),
{
    let mut members: Vec<(String, Field)> = Vec::new();
    members.push(text_member("viewer_sid", viewer_sid));
    members.push(text_member("reason", reason));
    let r = emit("term:reattach_error", members);
    assert(members_view(members@) =~= seq![
        ("viewer_sid"@, FieldView::Text(viewer_sid@)),
        ("reason"@, FieldView::Text(reason@)),
    ]);
    r
}

/// The host resumes a session: what the viewer missed, and where the stream goes on.
pub open spec fn reattach_ack_view(
    viewer_sid: Seq<char>,
    replay: Seq<u8>,
    resume_seq: u64,
) -> EmitView {
    message(
        "term:reattach_ack"@,
        seq![
            ("viewer_sid"@, FieldView::Text(viewer_sid)),
            ("replay_bytes"@, FieldView::Text(base64_text(replay))),
            ("resume_seq"@, FieldView::Whole(resume_seq)),
        ],
    )
}

/// The host resumes a session: what the viewer missed, and where the stream goes on.
pub fn reattach_ack(viewer_sid: &str, replay: &[u8], resume_seq: u64) -> (r: Emit)
    requires
        encodable(replay@.len()),
    ensures
        r@ == reattach_ack_view(viewer_sid@, replay@, resume_seq),
        base64_bytes(base64_text(replay@)) == Some(replay@),
{
    let mut members: Vec<(String, Field)> = Vec::new();
    members.push(text_member("viewer_sid", viewer_sid));
    let text = base64_encode(replay);
    members.push(text_member("replay_bytes", text.as_str()));
    members.push((copy_of("resume_seq"), Field::Whole(resume_seq)));
    let r = emit("term:reattach_ack", members);
    assert(members_view(members@) =~= seq![
        ("viewer_sid"@, FieldView::Text(viewer_sid@)),
        ("replay_bytes"@, FieldView::Text(base64_text(replay@))),
        ("resume_seq"@, FieldView::Whole(resume_seq)),
    ]);
    r
}

/// The offerer's session description.
pub open spec fn webrtc_offer_view(sdp: Seq<char>) -> EmitView {
    message("term:webrtc_offer"@, seq![("sdp"@, FieldView::Text(sdp))])
}

/// The offerer's session description.
pub fn webrtc_offer(sdp: &str) -> (r: Emit)
    ensures
        r@ == webrtc_offer_view(sdp@),
{
    let mut members: Vec<(String, Field)> = Vec::new();
    members.push(text_member("sdp", sdp));
    let r = emit("term:webrtc_offer", members);
    assert(members_view(members@) =~= seq![("sdp"@, FieldView::Text(sdp@))]);
    r
}

/// The answerer's session description.
pub open spec fn webrtc_answer_view(viewer_sid: Seq<char>, sdp: Seq<char>) -> EmitView {
    message(
        "term:webrtc_answer"@,
        seq![("viewer_sid"@, FieldView::Text(viewer_sid)), ("sdp"@, FieldView::Text(sdp))],
    )
}

/// The answerer's session description.
pub fn webrtc_answer(viewer_sid: &str, sdp: &str) -> (r: Emit)
    ensures
        r@ == webrtc_answer_view(viewer_sid@, sdp@),
{
    let mut members: Vec<(String, Field)> = Vec::new();
    members.push(text_member("viewer_sid", viewer_sid));
    members.push(text_member("sdp", sdp));
    let r = emit("term:webrtc_answer", members);
    assert(members_view(members@) =~= seq![
        ("viewer_sid"@, FieldView::Text(viewer_sid@)),
        ("sdp"@, FieldView::Text(sdp@)),
    ]);
    r
}

/// A locally gathered candidate, nested as the JSON value that it already is.
pub open spec fn webrtc_ice_view(
    viewer_sid: Option<Seq<char>>,
    candidate: Seq<char>,
) -> EmitView {
    message(
        "term:webrtc_ice"@,
        addressed_to(viewer_sid).push(("candidate"@, FieldView::Json(candidate))),
    )
}

/// A locally gathered candidate; nothing where its text is not JSON. The viewer is named
/// by the host only.
pub fn webrtc_ice(viewer_sid: Option<&str>, candidate: &str) -> (r: Option<Emit>)
    ensures
        match r {
            Some(emit) => json_text(candidate@) && emit@ == webrtc_ice_view(
                opt_str(viewer_sid),
                candidate@,
            ),
            None => !json_text(candidate@),
        },
{
    if !is_json_text(candidate) {
        return None;
    }
    let mut members = address(viewer_sid);
    members.push((copy_of("candidate"), Field::Json(copy_of(candidate))));
    let r = emit("term:webrtc_ice", members);
    assert(members_view(members@) =~= addressed_to(opt_str(viewer_sid)).push(
        ("candidate"@, FieldView::Json(candidate@)),
    ));
    Some(r)
}

/// How a negotiation ended.
pub open spec fn webrtc_stats_view(
    viewer_sid: Option<Seq<char>>,
    established: bool,
    candidate_type: Option<Seq<char>>,
) -> EmitView {
    message(
        "term:webrtc_stats"@,
        addressed_to(viewer_sid).push(("established"@, FieldView::Flag(established))).push(
            (
                "candidate_type"@,
                FieldView::Text(
                    match candidate_type {
                        Some(typ) => typ,
                        None => "unknown"@,
                    },
                ),
            ),
        ),
    )
}

/// How a negotiation ended. The viewer is named by the host only.
pub fn webrtc_stats(
    viewer_sid: Option<&str>,
    established: bool,
    candidate_type: Option<&str>,
) -> (r: Emit)
    ensures
        r@ == webrtc_stats_view(opt_str(viewer_sid), established, opt_str(candidate_type)),
{
    let typ = match candidate_type {
        Some(typ) => typ,
        None => "unknown",
    };
    let mut members = address(viewer_sid);
    members.push((copy_of("established"), Field::Flag(established)));
    members.push(text_member("candidate_type", typ));
    let r = emit("term:webrtc_stats", members);
    assert(members_view(members@) =~= addressed_to(opt_str(viewer_sid)).push(
        ("established"@, FieldView::Flag(established)),
    ).push(("candidate_type"@, FieldView::Text(typ@))));
    r
}

/// The identity of this device.
pub struct LegionConfig {
    pub id: String,
    pub token: String,
    pub server_url: String,
}

/// What a connection in the given role authenticates with.
pub fn auth_payload(config: &LegionConfig, role: &str) -> (r: Vec<(String, Field)>)
    ensures
        members_view(r@) == seq![
            ("id"@, FieldView::Text(config.id@)),
            ("secret"@, FieldView::Text(config.token@)),
            ("type"@, FieldView::Text("legion"@)),
            ("role"@, FieldView::Text(role@)),
        ],
{
    let mut members: Vec<(String, Field)> = Vec::new();
    members.push(text_member("id", config.id.as_str()));
    members.push(text_member("secret", config.token.as_str()));
    members.push(text_member("type", "legion"));
    members.push(text_member("role", role));
    assert(members_view(members@) =~= seq![
        ("id"@, FieldView::Text(config.id@)),
        ("secret"@, FieldView::Text(config.token@)),
        ("type"@, FieldView::Text("legion"@)),
        ("role"@, FieldView::Text(role@)),
    ]);
    members
}

// ---------------------------------------------------------------------------
// Laws
// ---------------------------------------------------------------------------

/// The payload holds what the message says: every member under its name, or the bare text.
pub open spec fn arrives_as(emit: EmitView, payload: Payload) -> bool {
    match emit.body {
        BodyView::Members(members) => forall|i: int|
            0 <= i < members.len() ==> match (#[trigger] members[i]).1 {
                FieldView::Text(text) => payload.text_field(members[i].0) == Some(text),
                FieldView::Whole(n) => payload.whole_field(members[i].0) == Some(n),
                FieldView::Json(json) => payload.json_field(members[i].0) == Some(json),
                FieldView::Flag(_) => true,
            },
        BodyView::Bare(text) => payload.value() matches Some(value) && value.spec_text() == Some(
            text,
        ),
    }
}

/// Bytes arrive as they were sent: the output of the host with its viewer, the input of a
/// viewer, and a replay with its viewer and the place where the stream goes on.
pub proof fn law_bytes_arrive_as_they_were_sent(
    sid: Seq<char>,
    data: Seq<u8>,
    resume_seq: u64,
    payload: Payload,
)
    requires
        base64_bytes(base64_text(data)) == Some(data),
    ensures
        arrives_as(frame_view(sid, data), payload) ==> payload.text_field("viewer_sid"@) == Some(sid)
            && payload.bytes_field("bytes"@) == Some(data),
        arrives_as(input_view(data), payload) ==> bare_bytes(payload) == Some(data),
        arrives_as(reattach_ack_view(sid, data, resume_seq), payload) ==> {
            &&& payload.text_field("viewer_sid"@) == Some(sid)
            &&& payload.bytes_field("replay_bytes"@) == Some(data)
            &&& payload.whole_field("resume_seq"@) == Some(resume_seq)
        },
        frame_view(sid, data).event == "term:frame"@,
        input_view(data).event == "term:input"@,
        reattach_ack_view(sid, data, resume_seq).event == "term:reattach_ack"@,
{
    if arrives_as(frame_view(sid, data), payload) {
        let members = frame_view(sid, data).body->Members_0;
        assert(members[0].0 == "viewer_sid"@);
        assert(members[1].0 == "bytes"@);
        assert(payload.text_field("bytes"@) == Some(base64_text(data)));
    }
    if arrives_as(reattach_ack_view(sid, data, resume_seq), payload) {
        let members = reattach_ack_view(sid, data, resume_seq).body->Members_0;
        assert(members[0].0 == "viewer_sid"@);
        assert(members[1].0 == "replay_bytes"@);
        assert(members[2].0 == "resume_seq"@);
        assert(payload.text_field("replay_bytes"@) == Some(base64_text(data)));
    }
}

/// A request of a viewer says which device it is for, which session it means and how much
/// the viewer has seen; a refusal says which viewer it is for and why.
pub proof fn law_requests_say_what_they_ask(
    target: Seq<char>,
    session: Seq<char>,
    last_seq: u64,
    sid: Seq<char>,
    reason: Seq<char>,
    payload: Payload,
)
    ensures
        arrives_as(attach_view(target, session), payload) ==> payload.text_field("target_token_id"@)
            == Some(target) && payload.text_field("viewer_session_id"@) == Some(session),
        arrives_as(reattach_view(target, session, last_seq), payload) ==> {
            &&& payload.text_field("target_token_id"@) == Some(target)
            &&& payload.text_field("viewer_session_id"@) == Some(session)
            &&& payload.whole_field("last_seq"@) == Some(last_seq)
        },
        arrives_as(reattach_error_view(sid, reason), payload) ==> payload.text_field("viewer_sid"@)
            == Some(sid) && payload.reason() == reason,
        attach_view(target, session).event == "term:attach"@,
        reattach_view(target, session, last_seq).event == "term:reattach"@,
        reattach_error_view(sid, reason).event == "term:reattach_error"@,
        host_hello_view().event == "term:host_hello"@,
        host_bye_view().event == "term:host_bye"@,
{
    if arrives_as(attach_view(target, session), payload) {
        let members = attach_view(target, session).body->Members_0;
        assert(members[0].0 == "target_token_id"@ && members[1].0 == "viewer_session_id"@);
    }
    if arrives_as(reattach_view(target, session, last_seq), payload) {
        let members = reattach_view(target, session, last_seq).body->Members_0;
        assert(members[0].0 == "target_token_id"@ && members[1].0 == "viewer_session_id"@
            && members[2].0 == "last_seq"@);
    }
    if arrives_as(reattach_error_view(sid, reason), payload) {
        let members = reattach_error_view(sid, reason).body->Members_0;
        assert(members[0].0 == "viewer_sid"@ && members[1].0 == "reason"@);
    }
}

/// What two peers tell each other to connect arrives as it was sent: a description, a
/// candidate and the outcome. The viewer is named by the host, and by the host only.
pub proof fn law_negotiation_arrives_as_it_was_sent(
    sid: Seq<char>,
    sdp: Seq<char>,
    candidate: Seq<char>,
    established: bool,
    candidate_type: Option<Seq<char>>,
    payload: Payload,
)
    ensures
        arrives_as(webrtc_offer_view(sdp), payload) ==> payload.text_field("sdp"@) == Some(sdp),
        arrives_as(webrtc_answer_view(sid, sdp), payload) ==> payload.text_field("viewer_sid"@)
            == Some(sid) && payload.text_field("sdp"@) == Some(sdp),
        arrives_as(webrtc_ice_view(Some(sid), candidate), payload) ==> payload.text_field(
            "viewer_sid"@,
        ) == Some(sid) && payload.json_field("candidate"@) == Some(candidate),
        webrtc_ice_view(None, candidate).body == BodyView::Members(
            seq![("candidate"@, FieldView::Json(candidate))],
        ),
        webrtc_stats_view(Some(sid), established, candidate_type).body matches BodyView::Members(
            told,
        ) && {
            &&& told.len() == 3
            &&& told[0] == ("viewer_sid"@, FieldView::Text(sid))
            &&& told[1] == ("established"@, FieldView::Flag(established))
            &&& told[2].0 == "candidate_type"@
            &&& candidate_type is None ==> told[2].1 == FieldView::Text("unknown"@)
            &&& candidate_type is Some ==> told[2].1 == FieldView::Text(candidate_type->0)
        },
        webrtc_stats_view(None, established, candidate_type).body matches BodyView::Members(told)
            && {
            &&& told.len() == 2
            &&& told[0] == ("established"@, FieldView::Flag(established))
            &&& told[1].0 == "candidate_type"@
            &&& candidate_type is None ==> told[1].1 == FieldView::Text("unknown"@)
            &&& candidate_type is Some ==> told[1].1 == FieldView::Text(candidate_type->0)
        },
        webrtc_offer_view(sdp).event == "term:webrtc_offer"@,
        webrtc_answer_view(sid, sdp).event == "term:webrtc_answer"@,
        webrtc_ice_view(Some(sid), candidate).event == "term:webrtc_ice"@,
        webrtc_stats_view(Some(sid), established, candidate_type).event == "term:webrtc_stats"@,
{
    if arrives_as(webrtc_offer_view(sdp), payload) {
        let members = webrtc_offer_view(sdp).body->Members_0;
        assert(members[0].0 == "sdp"@);
    }
    if arrives_as(webrtc_answer_view(sid, sdp), payload) {
        let members = webrtc_answer_view(sid, sdp).body->Members_0;
        assert(members[0].0 == "viewer_sid"@ && members[1].0 == "sdp"@);
    }
    if arrives_as(webrtc_ice_view(Some(sid), candidate), payload) {
        let members = webrtc_ice_view(Some(sid), candidate).body->Members_0;
        assert(members[0].0 == "viewer_sid"@ && members[1].0 == "candidate"@);
    }
    assert(webrtc_ice_view(None, candidate).body->Members_0 =~= seq![
        ("candidate"@, FieldView::Json(candidate)),
    ]);
}

/// The member of an object is the first under its key, and there is none where no key is
/// the one asked for.
pub proof fn law_member_is_the_first_of_its_key(
    members: Seq<(String, JsonValue)>,
    field: Seq<char>,
    i: int,
)
    ensures
        0 <= i < members.len() && members[i].0@ == field && (forall|j: int|
            0 <= j < i ==> (#[trigger] members[j]).0@ != field) ==> member(members, field) == Some(
            members[i].1,
        ),
        (forall|j: int| 0 <= j < members.len() ==> (#[trigger] members[j]).0@ != field) ==> member(
            members,
            field,
        ) is None,
    decreases members.len(),
{
    if members.len() > 0 && members[0].0@ != field {
        let rest = members.skip(1);
        law_member_is_the_first_of_its_key(rest, field, i - 1);
        assert forall|j: int| 0 <= j < rest.len() implies #[trigger] rest[j] == members[j + 1] by {}
        if 0 <= i < members.len() && members[i].0@ == field && (forall|j: int|
            0 <= j < i ==> (#[trigger] members[j]).0@ != field) {
            assert(rest[i - 1] == members[i]);
            assert forall|j: int| 0 <= j < i - 1 implies (#[trigger] rest[j]).0@ != field by {
                assert(members[j + 1].0@ != field);
            }
        }
        if forall|j: int| 0 <= j < members.len() ==> (#[trigger] members[j]).0@ != field {
            assert forall|j: int| 0 <= j < rest.len() implies (#[trigger] rest[j]).0@ != field by {
                assert(members[j + 1].0@ != field);
            }
        }
    }
}

/// What a payload says under a field is what the first value that it carries holds there,
/// if it is of the kind that is asked for: a text, a number, any value as it is written.
pub proof fn law_first_value_of_a_payload_counts(
    values: Vec<JsonValue>,
    members: Vec<(String, JsonValue)>,
    field: Seq<char>,
)
    requires
        values@.len() > 0,
        values@[0].content == JsonContent::Object(members),
    ensures
        ({
            let payload = Payload::Text(values);
            match member(members@, field) {
                None => {
                    &&& payload.text_field(field) is None
                    &&& payload.whole_field(field) is None
                    &&& payload.json_field(field) is None
                    &&& payload.bytes_field(field) is None
                },
                Some(value) => {
                    &&& payload.json_field(field) == Some(value.json@)
                    &&& match value.content {
                        JsonContent::Text(text) => payload.text_field(field) == Some(text@)
                            && payload.whole_field(field) is None && payload.bytes_field(field)
                            == base64_bytes(text@),
                        JsonContent::Whole(n) => payload.whole_field(field) == Some(n)
                            && payload.text_field(field) is None && payload.bytes_field(
                            field,
                        ) is None,
                        _ => payload.text_field(field) is None && payload.whole_field(field) is None
                            && payload.bytes_field(field) is None,
                    }
                },
            }
        }),
        Payload::Other.value() is None,
{
}

/// A message is modelled by its event and by its members, one by one and in order.
pub proof fn law_message_is_known_by_its_members(emit: Emit)
    ensures
        emit@.event == emit.event@,
        emit.body matches Body::Bare(text) ==> emit@.body == BodyView::Bare(text@),
        emit.body matches Body::Members(members) ==> (emit@.body matches BodyView::Members(shown)
            && shown.len() == members@.len() && forall|i: int|
            0 <= i < shown.len() ==> (#[trigger] shown[i]).0 == members@[i].0@ && match (
            members@[i].1) {
                Field::Text(text) => shown[i].1 == FieldView::Text(text@),
                Field::Whole(n) => shown[i].1 == FieldView::Whole(n),
                Field::Flag(b) => shown[i].1 == FieldView::Flag(b),
                Field::Json(text) => shown[i].1 == FieldView::Json(text@),
            }),
{
}

/// Whatever is replayed or read in one piece can be carried: up to a quarter of a gigabyte
/// fits in one message, on every machine.
pub proof fn law_ordinary_pieces_can_be_carried(count: nat)
    requires
        count <= 0x1000_0000,
    ensures
        encodable(count),
{
}

/// The reason of a refusal is the one given, and `unknown` only where none is.
pub proof fn law_reason_is_the_one_given(payload: Payload)
    ensures
        payload.text_field("reason"@) is None ==> payload.reason() == "unknown"@,
        payload.text_field("reason"@) is Some ==> Some(payload.reason()) == payload.text_field(
            "reason"@,
        ),
{
}

} // verus!
