use clicky_companion::errors::{require_f32_input, MicError};
use clicky_companion::settings::Settings;
use clicky_companion::shell::{
    bridge_keeps_going, listen_outcome, listen_start, menu_action, panel_toggle_action, AudioReceive, ListenOutcome,
    MenuAction, PanelAction,
};
use clicky_companion::speech::{tts_rejection_message, tts_request};

fn with_proxy(p: &str) -> Settings {
    let mut s = Settings::default();
    s.proxy_base_url = p.to_string();
    s
}

#[test]
fn tts_request_needs_a_proxy() {
    assert_eq!(tts_request(&with_proxy("  "), "hi").err().unwrap(), "Configure proxy Worker base URL");
}

#[test]
fn tts_request_body_and_url() {
    let r = tts_request(&with_proxy("https://w.dev/"), "Say \"hi\"\n\\ now").ok().unwrap();
    assert_eq!(r.url, "https://w.dev/tts");
    assert_eq!(r.body, "{\"model\":\"aura-2-thalia-en\",\"text\":\"Say \\\"hi\\\"\\n\\\\ now\"}");
    let v: serde_json::Value = serde_json::from_str(&r.body).unwrap();
    assert_eq!(v["text"], "Say \"hi\"\n\\ now");
}

#[test]
fn tts_body_escapes_control_characters() {
    let r = tts_request(&with_proxy("http://x"), "a\u{1}b\u{1f}\u{7f}é/").ok().unwrap();
    assert_eq!(r.body, "{\"model\":\"aura-2-thalia-en\",\"text\":\"a\\u0001b\\u001f\u{7f}é/\"}");
}

#[test]
fn tts_rejection_text() {
    assert_eq!(tts_rejection_message(Some("quota".to_string())), "quota");
    assert_eq!(tts_rejection_message(None), "tts failed");
}

#[test]
fn tray_menu_entries() {
    assert!(menu_action("toggle_panel") == MenuAction::TogglePanel);
    assert!(menu_action("quit") == MenuAction::Quit);
    assert!(menu_action("other") == MenuAction::Ignore);
}

#[test]
fn panel_toggle() {
    assert!(panel_toggle_action(Some(true)) == PanelAction::Hide);
    assert!(panel_toggle_action(Some(false)) == PanelAction::ShowAndFocus);
    assert!(panel_toggle_action(None) == PanelAction::ShowAndFocus);
}

#[test]
fn listen_needs_a_proxy() {
    assert_eq!(listen_start(&with_proxy("")).unwrap_err(), "Configure Cloudflare Worker proxy URL");
    assert_eq!(listen_start(&with_proxy(" https://w.dev/ ")).unwrap(), "https://w.dev/");
}

#[test]
fn listen_outcome_shows_overlay_when_something_was_said() {
    match listen_outcome(false, Ok(String::new())) {
        ListenOutcome::Done { transcript, show_overlay } => {
            assert_eq!(transcript, "");
            assert!(!show_overlay);
        }
        _ => panic!(),
    }
    assert!(matches!(listen_outcome(false, Ok("hi".to_string())), ListenOutcome::Done { show_overlay: true, .. }));
    assert!(matches!(listen_outcome(true, Ok(String::new())), ListenOutcome::Done { show_overlay: true, .. }));
    assert!(matches!(listen_outcome(true, Err("x".to_string())), ListenOutcome::Failed { message } if message == "x"));
}

#[test]
fn audio_bridge_stops_when_recording_ends_or_peer_is_gone() {
    assert!(bridge_keeps_going(AudioReceive::Forwarded { delivered: true }, true));
    assert!(!bridge_keeps_going(AudioReceive::Forwarded { delivered: false }, true));
    assert!(!bridge_keeps_going(AudioReceive::Forwarded { delivered: true }, false));
    assert!(bridge_keeps_going(AudioReceive::TimedOut, true));
    assert!(!bridge_keeps_going(AudioReceive::TimedOut, false));
    assert!(!bridge_keeps_going(AudioReceive::Disconnected, true));
}

#[test]
fn mic_errors() {
    assert!(require_f32_input(true).is_ok());
    match require_f32_input(false) {
        Err(e) => assert_eq!(e.message(), "cpal: input stream must expose f32 samples (select another input device)"),
        Ok(()) => panic!(),
    }
    assert_eq!(MicError::NoDevice.message(), "no input device");
}
