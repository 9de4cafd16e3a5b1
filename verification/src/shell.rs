//! The decisions of the tray, the panel and the push-to-talk cycle.
use vstd::prelude::*;
use crate::settings::Settings;
use crate::text::{is_blank, trim_white_space, trim_ws};

verus! {

broadcast use vstd::string::group_string_axioms;

/// What a tray menu entry does.
#[derive(PartialEq, Eq, Structural, Clone, Copy)]
pub enum MenuAction {
    TogglePanel,
    Quit,
    Ignore,
}

/// The action of the tray menu entry with id `menu_id`.
pub fn menu_action(menu_id: &str) -> (a: MenuAction)
    ensures
        menu_id@ == "toggle_panel"@ ==> a == MenuAction::TogglePanel,
        menu_id@ == "quit"@ ==> a == MenuAction::Quit,
        menu_id@ != "toggle_panel"@ && menu_id@ != "quit"@ ==> a == MenuAction::Ignore,
{
    let id = String::from_str(menu_id);
    let toggle = String::from_str("toggle_panel");
    let quit = String::from_str("quit");
    proof {
        reveal_strlit("toggle_panel");
        reveal_strlit("quit");
        assert("quit"@.len() != "toggle_panel"@.len());
    }
    if id == toggle {
        MenuAction::TogglePanel
    } else if id == quit {
        MenuAction::Quit
    } else {
        MenuAction::Ignore
    }
}

/// What toggling the panel does.
#[derive(PartialEq, Eq, Structural, Clone, Copy)]
pub enum PanelAction {
    /// Hide the visible panel.
    Hide,
    /// Place the panel at (96, 96) logical pixels, show and focus it.
    ShowAndFocus,
}

/// Toggling hides a panel known to be visible and shows it otherwise
/// (also when its visibility could not be read: `None`).
pub fn panel_toggle_action(visible: Option<bool>) -> (a: PanelAction)
    ensures
        visible == Some(true) ==> a == PanelAction::Hide,
        visible != Some(true) ==> a == PanelAction::ShowAndFocus,
{
    match visible {
        Some(true) => PanelAction::Hide,
        _ => PanelAction::ShowAndFocus,
    }
}

/// Whether push-to-talk may start: the trimmed proxy base URL the session
/// talks to, or the message shown when none is configured.
pub fn listen_start(settings: &Settings) -> (r: Result<String, String>)
    ensures
        trim_ws(settings.proxy_base_url@).len() == 0 ==> (r matches Err(e) && e@
            == "Configure Cloudflare Worker proxy URL"@),
        trim_ws(settings.proxy_base_url@).len() != 0 ==> (r matches Ok(p) && p@ == trim_ws(
            settings.proxy_base_url@,
        )),
{
    if is_blank(settings.proxy_base_url.as_str()) {
        Err(String::from_str("Configure Cloudflare Worker proxy URL"))
    } else {
        Ok(trim_white_space(settings.proxy_base_url.as_str()))
    }
}

/// How a push-to-talk cycle ends for the user.
pub enum ListenOutcome {
    /// The utterance is announced; the overlay is shown when `show_overlay`.
    Done { transcript: String, show_overlay: bool },
    /// The error is announced.
    Failed { message: String },
}

/// The end of a cycle: a transcript shows the overlay when the buddy is
/// always shown or when something was said.
pub fn listen_outcome(show_buddy_always: bool, session: Result<String, String>) -> (o: ListenOutcome)
    ensures
        session matches Ok(t) ==> (o matches ListenOutcome::Done { transcript, show_overlay }
            && transcript@ == t@ && show_overlay == (show_buddy_always || t@.len() != 0)),
        session matches Err(e) ==> (o matches ListenOutcome::Failed { message } && message@
            == e@),
{
    match session {
        Ok(t) => {
            let said = t.as_str().unicode_len() != 0;
            ListenOutcome::Done { transcript: t, show_overlay: show_buddy_always || said }
        },
        Err(e) => ListenOutcome::Failed { message: e },
    }
}

/// What one wait on the microphone channel gave.
pub enum AudioReceive {
    /// A chunk arrived; whether passing it on to the session succeeded.
    Forwarded { delivered: bool },
    /// Nothing arrived in time.
    TimedOut,
    /// The microphone side is gone.
    Disconnected,
}

/// Whether the audio bridge keeps going after a wait: not when the chunk
/// could not be delivered, not when the microphone is gone, and not once
/// recording was switched off.
pub fn bridge_keeps_going(received: AudioReceive, recording: bool) -> (go: bool)
    ensures
        go == (recording && match received {
            AudioReceive::Forwarded { delivered } => delivered,
            AudioReceive::TimedOut => true,
            AudioReceive::Disconnected => false,
        }),
{
    match received {
        AudioReceive::Forwarded { delivered } => delivered && recording,
        AudioReceive::TimedOut => recording,
        AudioReceive::Disconnected => false,
    }
}

} // verus!
