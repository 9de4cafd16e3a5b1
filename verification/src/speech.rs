//! The text-to-speech request sent to the worker.
use vstd::prelude::*;
use crate::settings::Settings;
use crate::text::{is_blank, trim_end_char, trim_end_matching, trim_ws};

verus! {

broadcast use vstd::string::group_string_axioms;

/// The lowercase hexadecimal digit for `v` (0..16).
pub open spec fn hex_digit(v: int) -> char {
    if v < 10 {
        (48 + v) as char
    } else {
        (97 + v - 10) as char
    }
}

/// How a JSON string writes one character: quote, backslash and the control
/// characters are escaped, everything else stands as it is.
pub open spec fn json_escaped_char(c: char) -> Seq<char> {
    let u = c as u32;
    if c == '\u{22}' {
        seq!['\u{5c}', '\u{22}']
    } else if c == '\u{5c}' {
        seq!['\u{5c}', '\u{5c}']
    } else if u == 0x08 {
        seq!['\u{5c}', 'b']
    } else if u == 0x09 {
        seq!['\u{5c}', 't']
    } else if u == 0x0A {
        seq!['\u{5c}', 'n']
    } else if u == 0x0C {
        seq!['\u{5c}', 'f']
    } else if u == 0x0D {
        seq!['\u{5c}', 'r']
    } else if u < 0x20 {
        seq!['\u{5c}', 'u', '0', '0', hex_digit((u / 16) as int), hex_digit((u % 16) as int)]
    } else {
        seq![c]
    }
}

pub open spec fn json_escaped(s: Seq<char>) -> Seq<char>
    decreases s.len(),
{
    if s.len() == 0 {
        Seq::empty()
    } else {
        json_escaped(s.drop_last()) + json_escaped_char(s.last())
    }
}

/// `s` as a JSON string literal.
pub open spec fn json_string_literal(s: Seq<char>) -> Seq<char> {
    seq!['\u{22}'] + json_escaped(s) + seq!['\u{22}']
}

/// `serde_json::to_string` on a `str`. Claimed: it succeeds (a string always
/// serializes) and gives the JSON string literal of the text, escaping as the
/// crate's escape table does.
#[verifier::external_body]
fn json_quote(s: &str) -> (r: Result<String, String>)
    ensures
        r is Ok,
        r matches Ok(t) ==> t@ == json_string_literal(s@),
{
    serde_json::to_string(s).map_err(|e| e.to_string())
}

fn quoted(s: &str) -> (r: String)
    ensures
        r@ == json_string_literal(s@),
{
    match json_quote(s) {
        Ok(t) => t,
        Err(e) => e,
    }
}

/// A request to the worker's speech endpoint.
pub struct TtsRequest {
    pub url: String,
    pub body: String,
}

/// The JSON body `{"model":..,"text":..}` (object keys in sorted order).
pub open spec fn tts_body_spec(text: Seq<char>, model: Seq<char>) -> Seq<char> {
    "{\"model\":"@ + json_string_literal(model) + ",\"text\":"@ + json_string_literal(text) + "}"@
}

/// The request that speaks `text_plain`: `<proxy base>/tts` with the text and
/// the configured voice model, or the complaint when no proxy is configured.
pub fn tts_request(settings: &Settings, text_plain: &str) -> (r: Result<TtsRequest, String>)
    ensures
        trim_ws(settings.proxy_base_url@).len() == 0 ==> (r matches Err(e) && e@
            == "Configure proxy Worker base URL"@),
        trim_ws(settings.proxy_base_url@).len() != 0 ==> (r matches Ok(req) && req.url@
            == trim_end_char(settings.proxy_base_url@, '/') + "/tts"@ && req.body@ == tts_body_spec(
            text_plain@,
            settings.deepgram_tts_model@,
        )),
        r matches Ok(req) ==> req.body@ == "{\"model\":"@ + json_string_literal(
            settings.deepgram_tts_model@,
        ) + ",\"text\":"@ + json_string_literal(text_plain@) + "}"@,
{
    if is_blank(settings.proxy_base_url.as_str()) {
        return Err(String::from_str("Configure proxy Worker base URL"));
    }
    let mut url = trim_end_matching(settings.proxy_base_url.as_str(), '/');
    url.append("/tts");
    let mut body = String::from_str("{\"model\":");
    let model = quoted(settings.deepgram_tts_model.as_str());
    body.append(model.as_str());
    body.append(",\"text\":");
    let text = quoted(text_plain);
    body.append(text.as_str());
    body.append("}");
    Ok(TtsRequest { url, body })
}

/// The error a refused speech request ends with: the response text, or
/// "tts failed" when it could not be read.
pub fn tts_rejection_message(response_text: Option<String>) -> (r: String)
    ensures
        response_text matches Some(t) ==> r@ == t@,
        response_text is None ==> r@ == "tts failed"@,
{
    match response_text {
        Some(t) => t,
        None => String::from_str("tts failed"),
    }
}


/// An escaped character never begins with a quote, and begins with a
/// backslash exactly when the character is escaped.
proof fn lemma_escaped_char_shape(c: char)
    ensures
        json_escaped_char(c).len() >= 1,
        json_escaped_char(c)[0] != '\u{22}',
        json_escaped_char(c)[0] != '\u{5c}' ==> json_escaped_char(c) == seq![c],
{
}

/// Two escaped characters at the head of equal texts are the same character,
/// and what follows them is the same.
proof fn lemma_escaped_char_decodes(c1: char, c2: char, s1: Seq<char>, s2: Seq<char>)
    requires
        json_escaped_char(c1) + s1 == json_escaped_char(c2) + s2,
    ensures
        c1 == c2,
        s1 == s2,
{
    let a = json_escaped_char(c1);
    let b = json_escaped_char(c2);
    let l = a + s1;
    assert(l[0] == a[0]);
    assert((b + s2)[0] == b[0]);
    if a[0] != '\u{5c}' {
        assert(b[0] != '\u{5c}');
        assert(c1 == c2);
    } else {
        assert(b[0] == '\u{5c}');
        assert(l[1] == a[1]);
        assert((b + s2)[1] == b[1]);
        if a[1] == 'u' {
            assert(b[1] == 'u');
            let u1 = c1 as u32;
            let u2 = c2 as u32;
            assert(l[4] == a[4] && l[5] == a[5]);
            assert((b + s2)[4] == b[4] && (b + s2)[5] == b[5]);
            assert(u1 / 16 == u2 / 16);
            assert(u1 % 16 == u2 % 16);
            assert(u1 == u2);
        }
        assert(c1 == c2);
    }
    assert(s1 =~= l.skip(a.len() as int));
    assert(s2 =~= (b + s2).skip(b.len() as int));
}

/// `json_escaped` read from the front.
proof fn lemma_escaped_front(x: Seq<char>)
    requires
        x.len() > 0,
    ensures
        json_escaped(x) == json_escaped_char(x[0]) + json_escaped(x.drop_first()),
    decreases x.len(),
{
    if x.len() == 1 {
        assert(x.drop_last() =~= Seq::<char>::empty());
        assert(x.drop_first() =~= Seq::<char>::empty());
        assert(json_escaped(x) =~= json_escaped_char(x[0]) + json_escaped(x.drop_first()));
    } else {
        lemma_escaped_front(x.drop_last());
        assert(x.drop_last().drop_first() =~= x.drop_first().drop_last());
        assert(x.drop_first().last() == x.last());
        assert(x.drop_last()[0] == x[0]);
        assert(json_escaped(x) =~= json_escaped_char(x[0]) + json_escaped(x.drop_first()));
    }
}

/// The escaped text up to the closing quote determines the text: equal
/// streams of escaped text, quote and rest hold the same text and the same rest.
pub proof fn lemma_escaped_text_decodes(x: Seq<char>, y: Seq<char>, r1: Seq<char>, r2: Seq<char>)
    requires
        json_escaped(x) + seq!['\u{22}'] + r1 == json_escaped(y) + seq!['\u{22}'] + r2,
    ensures
        x == y,
        r1 == r2,
    decreases x.len(),
{
    let l1 = json_escaped(x) + seq!['\u{22}'] + r1;
    let l2 = json_escaped(y) + seq!['\u{22}'] + r2;
    if x.len() == 0 {
        assert(json_escaped(x) =~= Seq::<char>::empty());
        assert(l1[0] == '\u{22}');
        if y.len() > 0 {
            lemma_escaped_front(y);
            lemma_escaped_char_shape(y[0]);
            assert(l2[0] == json_escaped_char(y[0])[0]);
        }
        assert(json_escaped(y) =~= Seq::<char>::empty());
        assert(y =~= Seq::<char>::empty());
        assert(r1 =~= l1.drop_first());
        assert(r2 =~= l2.drop_first());
    } else {
        lemma_escaped_front(x);
        lemma_escaped_char_shape(x[0]);
        if y.len() == 0 {
            assert(json_escaped(y) =~= Seq::<char>::empty());
            assert(l1[0] == json_escaped_char(x[0])[0]);
            assert(l2[0] == '\u{22}');
        }
        lemma_escaped_front(y);
        let t1 = json_escaped(x.drop_first()) + seq!['\u{22}'] + r1;
        let t2 = json_escaped(y.drop_first()) + seq!['\u{22}'] + r2;
        assert(l1 =~= json_escaped_char(x[0]) + t1);
        assert(l2 =~= json_escaped_char(y[0]) + t2);
        lemma_escaped_char_decodes(x[0], y[0], t1, t2);
        lemma_escaped_text_decodes(x.drop_first(), y.drop_first(), r1, r2);
        assert(x =~= seq![x[0]] + x.drop_first());
        assert(y =~= seq![y[0]] + y.drop_first());
    }
}

/// The speech body names exactly the configured voice and the text: two
/// bodies are equal only when both the voice and the text are, so no body
/// can ignore either of them.
pub proof fn lemma_tts_body_carries_voice_and_text(t1: Seq<char>, m1: Seq<char>, t2: Seq<char>, m2: Seq<char>)
    requires
        tts_body_spec(t1, m1) == tts_body_spec(t2, m2),
    ensures
        m1 == m2,
        t1 == t2,
{
    reveal_strlit("{\"model\":");
    reveal_strlit(",\"text\":");
    reveal_strlit("}");
    let p = "{\"model\":"@;
    let q = ",\"text\":"@;
    let e = "}"@;
    let b1 = tts_body_spec(t1, m1);
    let b2 = tts_body_spec(t2, m2);
    let rest1 = q + seq!['\u{22}'] + json_escaped(t1) + seq!['\u{22}'] + e;
    let rest2 = q + seq!['\u{22}'] + json_escaped(t2) + seq!['\u{22}'] + e;
    assert(b1 =~= p + seq!['\u{22}'] + (json_escaped(m1) + seq!['\u{22}'] + rest1));
    assert(b2 =~= p + seq!['\u{22}'] + (json_escaped(m2) + seq!['\u{22}'] + rest2));
    assert(b1.skip((p.len() + 1) as int) =~= json_escaped(m1) + seq!['\u{22}'] + rest1);
    assert(b2.skip((p.len() + 1) as int) =~= json_escaped(m2) + seq!['\u{22}'] + rest2);
    lemma_escaped_text_decodes(m1, m2, rest1, rest2);
    assert(rest1.skip((q.len() + 1) as int) =~= json_escaped(t1) + seq!['\u{22}'] + e);
    assert(rest2.skip((q.len() + 1) as int) =~= json_escaped(t2) + seq!['\u{22}'] + e);
    lemma_escaped_text_decodes(t1, t2, e, e);
}

} // verus!
