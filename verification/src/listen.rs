//! The live transcription session: token request, audio framing, transcript
//! messages and the decisions taken while the socket is open.
use vstd::prelude::*;
use crate::text::{is_blank, trim_end_char, trim_end_matching, trim_white_space, trim_ws};

verus! {

broadcast use vstd::string::group_string_axioms;

/// `http::HeaderValue`, carried through opaquely.
#[verifier::external_type_specification]
#[verifier::external_body]
pub struct ExHeaderValue(http::HeaderValue);

/// The URL of the worker endpoint that issues listen tokens.
pub open spec fn listen_token_url_spec(proxy_base: Seq<char>) -> Seq<char> {
    trim_end_char(proxy_base, '/') + "/deepgram-listen-token"@
}

/// `<proxy base without trailing slashes>/deepgram-listen-token`.
pub fn deepgram_listen_token_url(proxy_base_trimmed: &str) -> (url: String)
    ensures
        url@ == listen_token_url_spec(proxy_base_trimmed@),
{
    let mut url = trim_end_matching(proxy_base_trimmed, '/');
    url.append("/deepgram-listen-token");
    url
}

/// The body posted to the token endpoint: an empty JSON object.
pub fn listen_token_request_body() -> (body: String)
    ensures
        body@ == "{}"@,
{
    String::from_str("{}")
}

/// What came back from the token endpoint.
pub enum TokenResponse {
    /// A non-success status: its status line and the response text.
    Rejected { status: String, body: String },
    /// A success status whose body did not parse as JSON.
    Unparsable { error: String },
    /// A success status with a JSON body, and its `access_token` when that is a string.
    Parsed { access_token: Option<String> },
}

/// The token, or the error message the session ends with.
pub open spec fn token_outcome_spec(resp: TokenResponse, out: Result<String, String>) -> bool {
    match resp {
        TokenResponse::Rejected { status, body } => out matches Err(e) && e@ == status@ + ": "@
            + body@,
        TokenResponse::Unparsable { error } => out matches Err(e) && e@ == error@,
        TokenResponse::Parsed { access_token } => match access_token {
            Some(t) => out matches Ok(v) && v@ == t@,
            None => out matches Err(e) && e@ == "missing access_token in token response"@,
        },
    }
}

/// Reads the listen token out of the worker's reply.
pub fn listen_token_from_response(resp: TokenResponse) -> (out: Result<String, String>)
    ensures
        token_outcome_spec(resp, out),
{
    match resp {
        TokenResponse::Rejected { status, body } => {
            let mut e = status;
            e.append(": ");
            e.append(body.as_str());
            Err(e)
        },
        TokenResponse::Unparsable { error } => Err(error),
        TokenResponse::Parsed { access_token } => match access_token {
            Some(t) => Ok(t),
            None => Err(String::from_str("missing access_token in token response")),
        },
    }
}

/// The streaming endpoint: 16 kHz mono linear16 with interim results.
pub fn listen_websocket_url() -> (url: String)
    ensures
        url@
            == "wss://api.deepgram.com/v1/listen?model=nova-2&encoding=linear16&sample_rate=16000&channels=1&interim_results=true&smart_format=true&punctuate=true"@,
{
    String::from_str(
        "wss://api.deepgram.com/v1/listen?model=nova-2&encoding=linear16&sample_rate=16000&channels=1&interim_results=true&smart_format=true&punctuate=true",
    )
}

/// A character that may stand in an HTTP header value: a tab, or any
/// character from U+0020 on other than U+007F (every byte of a non-ASCII
/// character is at least 0x80).
pub open spec fn header_char_ok(c: char) -> bool {
    c == '\t' || (c as u32 >= 32 && c as u32 != 127)
}

pub open spec fn header_text_ok(s: Seq<char>) -> bool {
    forall|i: int| 0 <= i < s.len() ==> header_char_ok(#[trigger] s[i])
}

/// The text an `http::HeaderValue` holds.
pub uninterp spec fn header_value_text(value: http::HeaderValue) -> Seq<char>;

/// `http::HeaderValue::from_str`. Claimed: it succeeds exactly when every byte
/// of the text is a tab or at least 0x20 and not 0x7F, the value then holds
/// the text's bytes (`Bytes::copy_from_slice(s.as_bytes())`), and its error
/// displays as "failed to parse header value".
#[verifier::external_body]
fn header_value_from_str(text: &str) -> (r: Result<http::HeaderValue, String>)
    ensures
        r is Ok <==> header_text_ok(text@),
        r matches Ok(v) ==> header_value_text(v) == text@,
        r matches Err(e) ==> e@ == "failed to parse header value"@,
{
    http::HeaderValue::from_str(text).map_err(|e| e.to_string())
}

/// The text of the `Authorization` header for a listen token.
pub open spec fn bearer_text(token: Seq<char>) -> Seq<char> {
    "Bearer "@ + token
}

/// The `Authorization` header value `Bearer <token>`, or the error the
/// session ends with when the token holds a character no header may hold.
pub fn bearer_authorization(token: &str) -> (r: Result<http::HeaderValue, String>)
    ensures
        r is Ok <==> header_text_ok(bearer_text(token@)),
        r matches Ok(v) ==> header_value_text(v) == bearer_text(token@),
        r matches Err(e) ==> e@ == "failed to parse header value"@,
{
    let mut text = String::from_str("Bearer ");
    text.append(token);
    header_value_from_str(text.as_str())
}

/// The two's-complement bit pattern of `s` as an unsigned 16-bit number.
pub open spec fn sample_bits(s: i16) -> int {
    if s < 0 {
        s + 0x1_0000
    } else {
        s as int
    }
}

/// `samples` as little-endian 16-bit PCM bytes.
pub open spec fn pcm_le_bytes_spec(samples: Seq<i16>) -> Seq<u8> {
    Seq::new(
        (2 * samples.len()) as nat,
        |i: int|
            if i % 2 == 0 {
                (sample_bits(samples[i / 2]) % 256) as u8
            } else {
                (sample_bits(samples[i / 2]) / 256) as u8
            },
    )
}

/// The sample that two little-endian bytes encode.
pub open spec fn sample_from_le(lo: u8, hi: u8) -> int {
    let v = lo + 256 * hi;
    if v >= 0x8000 {
        v - 0x1_0000
    } else {
        v
    }
}

fn sample_le_bytes(s: i16) -> (r: (u8, u8))
    ensures
        r.0 == sample_bits(s) % 256,
        r.1 == sample_bits(s) / 256,
{
    let u = s as u16;
    let lo = (u & 0xff) as u8;
    let hi = (u >> 8) as u8;
    assert(u == sample_bits(s)) by (bit_vector)
        requires
            u == s as u16,
    ;
    assert(lo == u % 256 && hi == u / 256) by (bit_vector)
        requires
            lo == (u & 0xff) as u8,
            hi == (u >> 8) as u8,
    ;
    (lo, hi)
}

/// Frames PCM samples for the socket: little-endian, two bytes per sample.
pub fn pcm_le_bytes(samples: &Vec<i16>) -> (bytes: Vec<u8>)
    requires
        2 * samples.len() <= usize::MAX,
    ensures
        bytes@ == pcm_le_bytes_spec(samples@),
{
    let mut out: Vec<u8> = Vec::with_capacity(samples.len() * 2);
    let mut i: usize = 0;
    while i < samples.len()
        invariant
            i <= samples.len(),
            2 * samples.len() <= usize::MAX,
            out@ =~= pcm_le_bytes_spec(samples@.take(i as int)),
        decreases samples.len() - i,
    {
        let (lo, hi) = sample_le_bytes(samples[i]);
        out.push(lo);
        out.push(hi);
        proof {
            let a = pcm_le_bytes_spec(samples@.take(i + 1));
            assert forall|k: int| 0 <= k < a.len() implies #[trigger] out@[k] == a[k] by {
                assert(samples@.take(i + 1)[k / 2] == samples@[k / 2]);
                if k < 2 * i {
                    assert(samples@.take(i as int)[k / 2] == samples@[k / 2]);
                }
            }
        }
        i = i + 1;
    }
    proof {
        assert(samples@.take(samples.len() as int) =~= samples@);
    }
    out
}

/// Decoding the framed bytes gives back every sample.
pub proof fn lemma_pcm_roundtrip(samples: Seq<i16>, i: int)
    requires
        0 <= i < samples.len(),
    ensures
        sample_from_le(pcm_le_bytes_spec(samples)[2 * i], pcm_le_bytes_spec(samples)[2 * i + 1])
            == samples[i],
{
    let b = pcm_le_bytes_spec(samples);
    assert((2 * i) / 2 == i);
    assert((2 * i + 1) / 2 == i);
    assert((2 * i) % 2 == 0);
    assert((2 * i + 1) % 2 == 1);
}

pub open spec fn strings_view(v: Seq<String>) -> Seq<Seq<char>> {
    v.map_values(|s: String| s@)
}

/// The utterance handed to the conversation: the last final sentence,
/// trimmed; empty when there was none.
pub open spec fn utterance_of(finals: Seq<Seq<char>>) -> Seq<char> {
    if finals.len() == 0 {
        Seq::empty()
    } else {
        trim_ws(finals.last())
    }
}

/// The last final sentence, trimmed (empty when there is none).
pub fn last_utterance(finals: &Vec<String>) -> (r: String)
    ensures
        r@ == utterance_of(strings_view(finals@)),
{
    if finals.len() == 0 {
        String::new()
    } else {
        trim_white_space(finals[finals.len() - 1].as_str())
    }
}

/// A JSON message from the transcription socket, reduced to what the session
/// reads: `type` and `/channel/alternatives/0/transcript` when they are
/// strings, `is_final` and `speech_final` when they are booleans, and the
/// compact JSON text of the whole message.
pub struct ListenMessage {
    pub message_type: Option<String>,
    pub transcript: Option<String>,
    pub is_final: Option<bool>,
    pub speech_final: Option<bool>,
    pub compact_json: String,
}

/// The text of an optional string.
pub open spec fn opt_text(o: Option<String>) -> Option<Seq<char>> {
    match o {
        Some(t) => Some(t@),
        None => None,
    }
}

/// What `serde_json` reads from a socket text: `None` when it is not JSON;
/// otherwise `type` (when a string), the string at
/// `/channel/alternatives/0/transcript`, `is_final` and `speech_final` (when
/// booleans), and the compact JSON text of the value.
pub uninterp spec fn listen_json_fields(text: Seq<char>) -> Option<
    (Option<Seq<char>>, Option<Seq<char>>, Option<bool>, Option<bool>, Seq<char>),
>;

/// `m` carries exactly the given fields.
pub open spec fn message_has_fields(
    m: ListenMessage,
    f: (Option<Seq<char>>, Option<Seq<char>>, Option<bool>, Option<bool>, Seq<char>),
) -> bool {
    &&& opt_text(m.message_type) == f.0
    &&& opt_text(m.transcript) == f.1
    &&& m.is_final == f.2
    &&& m.speech_final == f.3
    &&& m.compact_json@ == f.4
}

/// `serde_json::from_str::<Value>` on the socket text, then `Value::get("type")`,
/// `Value::pointer("/channel/alternatives/0/transcript")`, `Value::get("is_final")`,
/// `Value::get("speech_final")` with `as_str` / `as_bool`, and `Value::to_string`.
/// Claimed: the outcome is `listen_json_fields` of the text.
#[verifier::external_body]
fn parse_listen_json(text: &str) -> (r: Option<ListenMessage>)
    ensures
        r is None <==> listen_json_fields(text@) is None,
        r matches Some(m) ==> (listen_json_fields(text@) matches Some(f) && message_has_fields(m, f)),
{
    serde_json::from_str::<serde_json::Value>(text).ok().map(|v| ListenMessage {
        message_type: v.get("type").and_then(|x| x.as_str()).map(|x| x.to_string()),
        transcript: v.pointer("/channel/alternatives/0/transcript").and_then(|x| x.as_str()).map(
            |x| x.to_string(),
        ),
        is_final: v.get("is_final").and_then(|x| x.as_bool()),
        speech_final: v.get("speech_final").and_then(|x| x.as_bool()),
        compact_json: v.to_string(),
    })
}

/// The message a socket text carries; text that is not JSON reads as JSON
/// `null`: no fields, compact text `null`.
pub fn listen_message_from_text(text: &str) -> (m: ListenMessage)
    ensures
        listen_json_fields(text@) is None ==> (m.message_type is None && m.transcript is None
            && m.is_final is None && m.speech_final is None && m.compact_json@ == "null"@),
        listen_json_fields(text@) matches Some(f) ==> message_has_fields(m, f),
{
    match parse_listen_json(text) {
        Some(m) => m,
        None => ListenMessage {
            message_type: None,
            transcript: None,
            is_final: None,
            speech_final: None,
            compact_json: String::from_str("null"),
        },
    }
}

/// The transcript text, empty when absent.
pub open spec fn transcript_text(msg: ListenMessage) -> Seq<char> {
    match msg.transcript {
        Some(t) => t@,
        None => Seq::empty(),
    }
}

/// `is_final`, else `speech_final`, else false.
pub open spec fn final_marker(msg: ListenMessage) -> bool {
    match msg.is_final {
        Some(b) => b,
        None => match msg.speech_final {
            Some(b) => b,
            None => false,
        },
    }
}

/// The sentence a message carries: none when its transcript is blank.
pub open spec fn sentence_of(msg: ListenMessage) -> Option<(Seq<char>, bool)> {
    if trim_ws(transcript_text(msg)).len() == 0 {
        None
    } else {
        Some((transcript_text(msg), final_marker(msg)))
    }
}

/// A message whose `type` is `Error`.
pub open spec fn is_error_message(msg: ListenMessage) -> bool {
    msg.message_type matches Some(t) && t@ == "Error"@
}

/// The sentence in a transcript message and whether it is final.
pub fn parse_deepgram_sentence(msg: &ListenMessage) -> (r: Option<(String, bool)>)
    ensures
        match sentence_of(*msg) {
            Some((t, f)) => r matches Some(p) && p.0@ == t && p.1 == f,
            None => r is None,
        },
        r matches Some(p) ==> (msg.is_final matches Some(b) ==> p.1 == b),
        r matches Some(p) ==> (msg.is_final is None ==> p.1 == (msg.speech_final == Some(true))),
{
    let text = match &msg.transcript {
        Some(t) => t.clone(),
        None => String::new(),
    };
    if is_blank(text.as_str()) {
        return None;
    }
    let marker = match msg.is_final {
        Some(b) => b,
        None => match msg.speech_final {
            Some(b) => b,
            None => false,
        },
    };
    Some((text, marker))
}

fn is_error_type(msg: &ListenMessage) -> (r: bool)
    ensures
        r == is_error_message(*msg),
{
    match &msg.message_type {
        Some(t) => {
            let error_word = String::from_str("Error");
            proof {
                reveal_strlit("Error");
            }
            *t == error_word
        },
        None => false,
    }
}

/// Where the session stands.
#[derive(PartialEq, Eq, Structural, Clone, Copy)]
pub enum ListenPhase {
    /// Audio goes out and transcripts come in.
    Streaming,
    /// The socket was asked to close; late final transcripts are still kept.
    Draining,
    /// The session has its result.
    Done,
}

/// What happened since the last step.
pub enum ListenEvent {
    /// The cancel signal changed; its new value.
    CancelChanged(bool),
    /// A chunk of microphone samples.
    AudioChunk(Vec<i16>),
    /// The microphone stream ended.
    AudioEnded,
    /// Sending audio on the socket failed.
    AudioSendFailed(String),
    /// A text message from the socket.
    SocketMessage(ListenMessage),
    /// The socket sent a close frame.
    SocketClosed,
    /// Reading from the socket failed.
    SocketFailed(String),
    /// Some other frame (ping, pong, binary).
    SocketOther,
    /// The socket has nothing more to read.
    SocketEnded,
}

/// What the caller does next.
pub enum ListenAction {
    /// Nothing: keep waiting for events.
    Wait,
    /// Send these bytes as one binary frame.
    SendAudio(Vec<u8>),
    /// Announce a final sentence.
    EmitFinal(String),
    /// Announce a new interim sentence.
    EmitPartial(String),
    /// Send a close frame, then keep reading until the socket ends.
    CloseSocket,
    /// The session is over with this result.
    Finish(Result<String, String>),
}

/// The abstract state of a session.
pub struct ListenModel {
    pub phase: ListenPhase,
    pub finalized: Seq<Seq<char>>,
    pub last_partial: Seq<char>,
}

/// A live transcription session.
pub struct ListenSession {
    phase: ListenPhase,
    finalized: Vec<String>,
    last_partial: String,
}

impl View for ListenSession {
    type V = ListenModel;

    closed spec fn view(&self) -> ListenModel {
        ListenModel {
            phase: self.phase,
            finalized: strings_view(self.finalized@),
            last_partial: self.last_partial@,
        }
    }
}

/// A session that has just opened its socket.
pub open spec fn fresh_model() -> ListenModel {
    ListenModel { phase: ListenPhase::Streaming, finalized: Seq::empty(), last_partial: Seq::empty() }
}

/// The state after `e`.
pub open spec fn next_model(m: ListenModel, e: ListenEvent) -> ListenModel {
    match m.phase {
        ListenPhase::Streaming => match e {
            ListenEvent::CancelChanged(c) => if c {
                ListenModel { phase: ListenPhase::Draining, ..m }
            } else {
                m
            },
            ListenEvent::AudioChunk(_) => m,
            ListenEvent::AudioEnded => ListenModel { phase: ListenPhase::Draining, ..m },
            ListenEvent::AudioSendFailed(_) => ListenModel { phase: ListenPhase::Done, ..m },
            ListenEvent::SocketMessage(msg) => if is_error_message(msg) {
                ListenModel { phase: ListenPhase::Done, ..m }
            } else {
                match sentence_of(msg) {
                    Some((t, f)) => if f {
                        ListenModel { finalized: m.finalized.push(t), ..m }
                    } else {
                        ListenModel { last_partial: t, ..m }
                    },
                    None => m,
                }
            },
            ListenEvent::SocketClosed => ListenModel { phase: ListenPhase::Draining, ..m },
            ListenEvent::SocketFailed(_) => ListenModel { phase: ListenPhase::Done, ..m },
            ListenEvent::SocketOther => m,
            ListenEvent::SocketEnded => ListenModel { phase: ListenPhase::Draining, ..m },
        },
        ListenPhase::Draining => match e {
            ListenEvent::SocketMessage(msg) => match sentence_of(msg) {
                Some((t, f)) => if f {
                    ListenModel { finalized: m.finalized.push(t), ..m }
                } else {
                    m
                },
                None => m,
            },
            ListenEvent::SocketEnded => ListenModel { phase: ListenPhase::Done, ..m },
            _ => m,
        },
        ListenPhase::Done => m,
    }
}

/// The action taken on `e` in state `m`.
pub open spec fn action_spec(m: ListenModel, e: ListenEvent, a: ListenAction) -> bool {
    match m.phase {
        ListenPhase::Streaming => match e {
            ListenEvent::CancelChanged(c) => if c {
                a is CloseSocket
            } else {
                a is Wait
            },
            ListenEvent::AudioChunk(samples) => a matches ListenAction::SendAudio(b) && b@
                == pcm_le_bytes_spec(samples@),
            ListenEvent::AudioEnded => a is CloseSocket,
            ListenEvent::AudioSendFailed(err) => a matches ListenAction::Finish(Err(x)) && x@
                == err@,
            ListenEvent::SocketMessage(msg) => if is_error_message(msg) {
                a matches ListenAction::Finish(Err(x)) && x@ == msg.compact_json@
            } else {
                match sentence_of(msg) {
                    Some((t, f)) => if f {
                        a matches ListenAction::EmitFinal(x) && x@ == t
                    } else if t != m.last_partial {
                        a matches ListenAction::EmitPartial(x) && x@ == t
                    } else {
                        a is Wait
                    },
                    None => a is Wait,
                }
            },
            ListenEvent::SocketClosed => a is CloseSocket,
            ListenEvent::SocketFailed(err) => a matches ListenAction::Finish(Err(x)) && x@ == err@,
            ListenEvent::SocketOther => a is Wait,
            ListenEvent::SocketEnded => a is CloseSocket,
        },
        ListenPhase::Draining => match e {
            ListenEvent::SocketEnded => a matches ListenAction::Finish(Ok(x)) && x@ == utterance_of(
                m.finalized,
            ),
            _ => a is Wait,
        },
        ListenPhase::Done => a is Wait,
    }
}

/// Audio chunks that fit in memory once framed.
pub open spec fn event_fits(e: ListenEvent) -> bool {
    e matches ListenEvent::AudioChunk(s) ==> 2 * s.len() <= usize::MAX
}

impl ListenSession {
    /// A session whose socket has just opened.
    pub fn new() -> (s: ListenSession)
        ensures
            s@ == fresh_model(),
    {
        let s = ListenSession { phase: ListenPhase::Streaming, finalized: Vec::new(), last_partial: String::new() };
        proof {
            assert(s@.finalized =~= Seq::<Seq<char>>::empty());
        }
        s
    }

    /// The phase the session is in.
    pub fn phase(&self) -> (p: ListenPhase)
        ensures
            p == self@.phase,
    {
        self.phase
    }

    fn keep_final(&mut self, t: &String)
        ensures
            final(self)@ == (ListenModel { finalized: old(self)@.finalized.push(t@), ..old(self)@ }),
    {
        let ghost before = strings_view(self.finalized@);
        self.finalized.push(t.clone());
        proof {
            assert(strings_view(self.finalized@) =~= before.push(t@));
        }
    }

    /// Takes one event and says what to do about it.
    pub fn step(&mut self, event: ListenEvent) -> (action: ListenAction)
        requires
            event_fits(event),
        ensures
            final(self)@ == next_model(old(self)@, event),
            action_spec(old(self)@, event, action),
    {
        match self.phase {
            ListenPhase::Streaming => match event {
                ListenEvent::CancelChanged(c) => {
                    if c {
                        self.phase = ListenPhase::Draining;
                        ListenAction::CloseSocket
                    } else {
                        ListenAction::Wait
                    }
                },
                ListenEvent::AudioChunk(samples) => ListenAction::SendAudio(pcm_le_bytes(&samples)),
                ListenEvent::AudioEnded => {
                    self.phase = ListenPhase::Draining;
                    ListenAction::CloseSocket
                },
                ListenEvent::AudioSendFailed(err) => {
                    self.phase = ListenPhase::Done;
                    ListenAction::Finish(Err(err))
                },
                ListenEvent::SocketMessage(msg) => {
                    if is_error_type(&msg) {
                        self.phase = ListenPhase::Done;
                        return ListenAction::Finish(Err(msg.compact_json));
                    }
                    match parse_deepgram_sentence(&msg) {
                        Some((t, f)) => {
                            if f {
                                self.keep_final(&t);
                                ListenAction::EmitFinal(t)
                            } else if t != self.last_partial {
                                self.last_partial = t.clone();
                                ListenAction::EmitPartial(t)
                            } else {
                                ListenAction::Wait
                            }
                        },
                        None => ListenAction::Wait,
                    }
                },
                ListenEvent::SocketClosed => {
                    self.phase = ListenPhase::Draining;
                    ListenAction::CloseSocket
                },
                ListenEvent::SocketFailed(err) => {
                    self.phase = ListenPhase::Done;
                    ListenAction::Finish(Err(err))
                },
                ListenEvent::SocketOther => ListenAction::Wait,
                ListenEvent::SocketEnded => {
                    self.phase = ListenPhase::Draining;
                    ListenAction::CloseSocket
                },
            },
            ListenPhase::Draining => match event {
                ListenEvent::SocketMessage(msg) => {
                    match parse_deepgram_sentence(&msg) {
                        Some((t, f)) => {
                            if f {
                                self.keep_final(&t);
                            }
                        },
                        None => {},
                    }
                    ListenAction::Wait
                },
                ListenEvent::SocketEnded => {
                    self.phase = ListenPhase::Done;
                    ListenAction::Finish(Ok(last_utterance(&self.finalized)))
                },
                _ => ListenAction::Wait,
            },
            ListenPhase::Done => ListenAction::Wait,
        }
    }
}

/// The state after the events, in order.
pub open spec fn run_model(m: ListenModel, events: Seq<ListenEvent>) -> ListenModel
    decreases events.len(),
{
    if events.len() == 0 {
        m
    } else {
        next_model(run_model(m, events.drop_last()), events.last())
    }
}

/// The final sentences that the messages among `events` carry, in order.
pub open spec fn final_sentences(events: Seq<ListenEvent>) -> Seq<Seq<char>>
    decreases events.len(),
{
    if events.len() == 0 {
        Seq::empty()
    } else {
        let before = final_sentences(events.drop_last());
        match events.last() {
            ListenEvent::SocketMessage(msg) => match sentence_of(msg) {
                Some((t, f)) => if f {
                    before.push(t)
                } else {
                    before
                },
                None => before,
            },
            _ => before,
        }
    }
}

/// A finished session ignores whatever comes after.
pub proof fn lemma_done_is_final(m: ListenModel, events: Seq<ListenEvent>)
    requires
        m.phase == ListenPhase::Done,
    ensures
        run_model(m, events) == m,
    decreases events.len(),
{
    if events.len() > 0 {
        lemma_done_is_final(m, events.drop_last());
    }
}

/// Once the session is done it stays done.
proof fn lemma_done_absorbs(events: Seq<ListenEvent>, k: int)
    requires
        0 <= k <= events.len(),
        run_model(fresh_model(), events.take(k)).phase == ListenPhase::Done,
    ensures
        run_model(fresh_model(), events).phase == ListenPhase::Done,
    decreases events.len() - k,
{
    if k < events.len() {
        assert(events.take(k + 1).drop_last() =~= events.take(k));
        lemma_done_absorbs(events, k + 1);
    } else {
        assert(events.take(k) =~= events);
    }
}

/// While a session is not done, the sentences it keeps are exactly the final
/// sentences of the messages it received, in the order they came.
pub proof fn lemma_session_keeps_final_sentences(events: Seq<ListenEvent>)
    ensures
        run_model(fresh_model(), events).phase != ListenPhase::Done ==> run_model(
            fresh_model(),
            events,
        ).finalized == final_sentences(events),
    decreases events.len(),
{
    if events.len() > 0 {
        let prev = events.drop_last();
        lemma_session_keeps_final_sentences(prev);
        if run_model(fresh_model(), prev).phase == ListenPhase::Done {
            lemma_done_absorbs(events, events.len() - 1);
            assert(events.take(events.len() - 1) =~= prev);
        }
    }
}

/// When the socket ends after the close was sent, the session's result is the
/// last final sentence it received, trimmed (empty when there was none).
pub proof fn lemma_finish_reports_utterance(events: Seq<ListenEvent>, a: ListenAction)
    requires
        run_model(fresh_model(), events).phase == ListenPhase::Draining,
        action_spec(run_model(fresh_model(), events), ListenEvent::SocketEnded, a),
    ensures
        a matches ListenAction::Finish(Ok(x)) && x@ == utterance_of(final_sentences(events)),
{
    lemma_session_keeps_final_sentences(events);
}


/// Once the close was sent, only the end of the socket ends the session:
/// close frames, pings, read errors, messages and stray audio all leave it
/// draining and ask for nothing.
pub proof fn lemma_draining_ends_only_on_socket_end(m: ListenModel, e: ListenEvent, a: ListenAction)
    requires
        m.phase == ListenPhase::Draining,
        !(e is SocketEnded),
        action_spec(m, e, a),
    ensures
        next_model(m, e).phase == ListenPhase::Draining,
        next_model(m, e).finalized.len() >= m.finalized.len(),
        a is Wait,
{
}

/// A session that has sent its close keeps draining through any events but
/// the socket's end, and when the socket ends it finishes with `Ok` of the
/// last final sentence received, trimmed (empty when there was none).
pub proof fn lemma_drained_session_finishes_with_last_final(
    events: Seq<ListenEvent>,
    tail: Seq<ListenEvent>,
    a: ListenAction,
)
    requires
        run_model(fresh_model(), events).phase == ListenPhase::Draining,
        forall|i: int| 0 <= i < tail.len() ==> !(#[trigger] tail[i] is SocketEnded),
        action_spec(run_model(fresh_model(), events + tail), ListenEvent::SocketEnded, a),
    ensures
        run_model(fresh_model(), events + tail).phase == ListenPhase::Draining,
        a matches ListenAction::Finish(Ok(x)) && x@ == (if final_sentences(events + tail).len() == 0 {
            Seq::<char>::empty()
        } else {
            trim_ws(final_sentences(events + tail).last())
        }),
{
    lemma_draining_lasts_until_socket_end(events, tail);
    lemma_session_keeps_final_sentences(events + tail);
}

proof fn lemma_draining_lasts_until_socket_end(events: Seq<ListenEvent>, tail: Seq<ListenEvent>)
    requires
        run_model(fresh_model(), events).phase == ListenPhase::Draining,
        forall|i: int| 0 <= i < tail.len() ==> !(#[trigger] tail[i] is SocketEnded),
    ensures
        run_model(fresh_model(), events + tail).phase == ListenPhase::Draining,
    decreases tail.len(),
{
    if tail.len() == 0 {
        assert(events + tail =~= events);
    } else {
        let prev = tail.drop_last();
        assert(forall|i: int| 0 <= i < prev.len() ==> prev[i] == tail[i]);
        lemma_draining_lasts_until_socket_end(events, prev);
        assert((events + tail).drop_last() =~= events + prev);
        assert((events + tail).last() == tail[tail.len() - 1]);
    }
}

/// The final flag of a sentence is `is_final` when the message has it,
/// whatever `speech_final` says; only without `is_final` does `speech_final`
/// decide, and without either the sentence is interim. The sentence is the
/// transcript itself, and a blank transcript gives none.
pub proof fn lemma_final_flag_follows_is_final(msg: ListenMessage)
    ensures
        sentence_of(msg) is None <==> trim_ws(transcript_text(msg)).len() == 0,
        sentence_of(msg) matches Some(p) ==> p.0 == transcript_text(msg),
        sentence_of(msg) matches Some(p) ==> (msg.is_final matches Some(b) ==> p.1 == b),
        sentence_of(msg) matches Some(p) ==> (msg.is_final is None ==> p.1 == (msg.speech_final
            == Some(true))),
{
}

} // verus!
