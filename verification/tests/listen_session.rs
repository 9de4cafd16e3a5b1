use clicky_companion::listen::{
    bearer_authorization, deepgram_listen_token_url, last_utterance, listen_message_from_text, listen_token_from_response,
    listen_token_request_body, listen_websocket_url, parse_deepgram_sentence, pcm_le_bytes,
    ListenAction, ListenEvent, ListenMessage, ListenPhase, ListenSession, TokenResponse,
};

fn message(transcript: Option<&str>, is_final: Option<bool>, speech_final: Option<bool>) -> ListenMessage {
    ListenMessage {
        message_type: Some("Results".to_string()),
        transcript: transcript.map(|t| t.to_string()),
        is_final,
        speech_final,
        compact_json: "{}".to_string(),
    }
}

#[test]
fn token_url_drops_trailing_slashes() {
    assert_eq!(
        deepgram_listen_token_url("https://proxy.example.workers.dev//"),
        "https://proxy.example.workers.dev/deepgram-listen-token"
    );
    assert_eq!(deepgram_listen_token_url("http://x"), "http://x/deepgram-listen-token");
}

#[test]
fn token_request_and_socket_url() {
    assert_eq!(listen_token_request_body(), "{}");
    assert_eq!(
        listen_websocket_url(),
        "wss://api.deepgram.com/v1/listen?model=nova-2&encoding=linear16&sample_rate=16000&channels=1&interim_results=true&smart_format=true&punctuate=true"
    );
}

#[test]
fn token_response_outcomes() {
    let ok = listen_token_from_response(TokenResponse::Parsed { access_token: Some("jwt".to_string()) });
    assert_eq!(ok, Ok("jwt".to_string()));
    let missing = listen_token_from_response(TokenResponse::Parsed { access_token: None });
    assert_eq!(missing, Err("missing access_token in token response".to_string()));
    let rejected = listen_token_from_response(TokenResponse::Rejected {
        status: "401 Unauthorized".to_string(),
        body: "nope".to_string(),
    });
    assert_eq!(rejected, Err("401 Unauthorized: nope".to_string()));
    let bad = listen_token_from_response(TokenResponse::Unparsable { error: "expected value".to_string() });
    assert_eq!(bad, Err("expected value".to_string()));
}

#[test]
fn bearer_header_is_built_and_checked() {
    let value = bearer_authorization("abc.def").unwrap();
    assert_eq!(value.as_bytes(), b"Bearer abc.def");
    assert_eq!(bearer_authorization("tab\tok").unwrap().as_bytes(), b"Bearer tab\tok");
    assert_eq!(bearer_authorization("bad\ntoken").unwrap_err(), "failed to parse header value");
    assert_eq!(bearer_authorization("del\u{7f}").unwrap_err(), "failed to parse header value");
}

#[test]
fn pcm_is_little_endian() {
    let bytes = pcm_le_bytes(&vec![1i16, -1, 0x1234, i16::MIN]);
    assert_eq!(bytes, vec![0x01, 0x00, 0xff, 0xff, 0x34, 0x12, 0x00, 0x80]);
    let samples = vec![7i16, -300, 32767, -32768, 0];
    let expected: Vec<u8> = samples.iter().flat_map(|s| s.to_le_bytes()).collect();
    assert_eq!(pcm_le_bytes(&samples), expected);
    assert!(pcm_le_bytes(&vec![]).is_empty());
}

#[test]
fn sentence_parsing_rules() {
    assert_eq!(
        parse_deepgram_sentence(&message(Some("hello"), Some(true), None)),
        Some(("hello".to_string(), true))
    );
    assert_eq!(
        parse_deepgram_sentence(&message(Some("hello"), None, Some(true))),
        Some(("hello".to_string(), true))
    );
    assert_eq!(
        parse_deepgram_sentence(&message(Some("hello"), Some(false), Some(true))),
        Some(("hello".to_string(), false))
    );
    assert_eq!(
        parse_deepgram_sentence(&message(Some(" hi "), None, None)),
        Some((" hi ".to_string(), false))
    );
    assert_eq!(parse_deepgram_sentence(&message(Some("   "), Some(true), None)), None);
    assert_eq!(parse_deepgram_sentence(&message(None, Some(true), None)), None);
}

#[test]
fn utterance_is_the_last_final_sentence_trimmed() {
    let parts = vec![" Hello".to_string(), "there. ".to_string(), " How are you? ".to_string()];
    assert_eq!(last_utterance(&parts), "How are you?");
    assert_eq!(last_utterance(&vec!["a".to_string(), "b".to_string()]), "b");
    assert_eq!(last_utterance(&vec![]), "");
}

#[test]
fn socket_text_is_read_as_a_message() {
    let m = listen_message_from_text(
        r#"{"type":"Results","channel":{"alternatives":[{"transcript":"hi there","confidence":0.9}]},"is_final":true,"speech_final":false}"#,
    );
    assert_eq!(m.message_type.as_deref(), Some("Results"));
    assert_eq!(m.transcript.as_deref(), Some("hi there"));
    assert_eq!(m.is_final, Some(true));
    assert_eq!(m.speech_final, Some(false));
    let v: serde_json::Value = serde_json::from_str(&m.compact_json).unwrap();
    assert_eq!(v["channel"]["alternatives"][0]["transcript"], "hi there");
    let m = listen_message_from_text(r#"{"type":"Error","description":"bad","is_final":"yes"}"#);
    assert_eq!(m.message_type.as_deref(), Some("Error"));
    assert_eq!(m.transcript, None);
    assert_eq!(m.is_final, None);
    assert_eq!(m.compact_json, r#"{"description":"bad","is_final":"yes","type":"Error"}"#);
    let m = listen_message_from_text("not json");
    assert!(m.message_type.is_none() && m.transcript.is_none() && m.is_final.is_none() && m.speech_final.is_none());
    assert_eq!(m.compact_json, "null");
}

#[test]
fn session_streams_and_collects_final_sentences() {
    let mut s = ListenSession::new();
    match s.step(ListenEvent::AudioChunk(vec![2, -2])) {
        ListenAction::SendAudio(b) => assert_eq!(b, vec![2, 0, 0xfe, 0xff]),
        _ => panic!("audio should be sent"),
    }
    assert!(matches!(s.step(ListenEvent::SocketMessage(message(Some("hel"), Some(false), None))),
        ListenAction::EmitPartial(t) if t == "hel"));
    assert!(matches!(s.step(ListenEvent::SocketMessage(message(Some("hel"), Some(false), None))),
        ListenAction::Wait));
    assert!(matches!(s.step(ListenEvent::SocketMessage(message(Some("hello"), None, None))),
        ListenAction::EmitPartial(t) if t == "hello"));
    assert!(matches!(s.step(ListenEvent::SocketMessage(message(Some("Hello world."), Some(true), None))),
        ListenAction::EmitFinal(t) if t == "Hello world."));
    assert!(matches!(s.step(ListenEvent::SocketOther), ListenAction::Wait));
    assert!(matches!(s.step(ListenEvent::CancelChanged(false)), ListenAction::Wait));
    assert!(matches!(s.step(ListenEvent::AudioEnded), ListenAction::CloseSocket));
    assert!(s.phase() == ListenPhase::Draining);
    assert!(matches!(s.step(ListenEvent::SocketMessage(message(Some("late one"), None, Some(true)))),
        ListenAction::Wait));
    assert!(matches!(s.step(ListenEvent::SocketMessage(message(Some("interim"), Some(false), None))),
        ListenAction::Wait));
    assert!(matches!(s.step(ListenEvent::SocketFailed("reset".to_string())), ListenAction::Wait));
    match s.step(ListenEvent::SocketEnded) {
        ListenAction::Finish(r) => assert_eq!(r, Ok("late one".to_string())),
        _ => panic!("session should finish"),
    }
    assert!(s.phase() == ListenPhase::Done);
    assert!(matches!(s.step(ListenEvent::SocketEnded), ListenAction::Wait));
}

#[test]
fn session_error_message_ends_it() {
    let mut s = ListenSession::new();
    let err = ListenMessage {
        message_type: Some("Error".to_string()),
        transcript: None,
        is_final: None,
        speech_final: None,
        compact_json: "{\"type\":\"Error\"}".to_string(),
    };
    match s.step(ListenEvent::SocketMessage(err)) {
        ListenAction::Finish(r) => assert_eq!(r, Err("{\"type\":\"Error\"}".to_string())),
        _ => panic!("error should finish the session"),
    }
    assert!(s.phase() == ListenPhase::Done);
}

#[test]
fn session_ends_on_socket_failure_cancel_and_close() {
    let mut s = ListenSession::new();
    assert!(matches!(s.step(ListenEvent::SocketFailed("broken pipe".to_string())),
        ListenAction::Finish(Err(e)) if e == "broken pipe"));
    let mut s = ListenSession::new();
    assert!(matches!(s.step(ListenEvent::AudioSendFailed("closed".to_string())),
        ListenAction::Finish(Err(e)) if e == "closed"));
    let mut s = ListenSession::new();
    assert!(matches!(s.step(ListenEvent::CancelChanged(true)), ListenAction::CloseSocket));
    assert!(matches!(s.step(ListenEvent::SocketEnded), ListenAction::Finish(Ok(t)) if t.is_empty()));
    let mut s = ListenSession::new();
    assert!(matches!(s.step(ListenEvent::SocketClosed), ListenAction::CloseSocket));
    let mut s = ListenSession::new();
    assert!(matches!(s.step(ListenEvent::SocketEnded), ListenAction::CloseSocket));
    assert!(matches!(s.step(ListenEvent::SocketEnded), ListenAction::Finish(Ok(_))));
}

#[test]
fn pcm_bytes_decode_back_to_the_samples() {
    let samples: Vec<i16> = vec![0, 1, -1, 255, -256, 12345, -12345, i16::MAX, i16::MIN];
    let bytes = pcm_le_bytes(&samples);
    let decoded: Vec<i16> = bytes.chunks(2).map(|c| i16::from_le_bytes([c[0], c[1]])).collect();
    assert_eq!(decoded, samples);
}
