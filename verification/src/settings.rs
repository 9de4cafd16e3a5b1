//! User settings and the in-memory store that holds them.
use vstd::prelude::*;
use crate::text::{trim_end_char, trim_end_matching};

verus! {

broadcast use vstd::string::group_string_axioms;

/// What the user configures in the panel.
pub struct Settings {
    pub proxy_base_url: String,
    pub openrouter_model: String,
    pub deepgram_tts_model: String,
    pub show_buddy_always: bool,
}

/// The settings as values.
pub struct SettingsView {
    pub proxy_base_url: Seq<char>,
    pub openrouter_model: Seq<char>,
    pub deepgram_tts_model: Seq<char>,
    pub show_buddy_always: bool,
}

impl View for Settings {
    type V = SettingsView;

    open spec fn view(&self) -> SettingsView {
        SettingsView {
            proxy_base_url: self.proxy_base_url@,
            openrouter_model: self.openrouter_model@,
            deepgram_tts_model: self.deepgram_tts_model@,
            show_buddy_always: self.show_buddy_always,
        }
    }
}

/// The settings a fresh installation starts with.
pub open spec fn default_settings() -> SettingsView {
    SettingsView {
        proxy_base_url: Seq::empty(),
        openrouter_model: "openai/gpt-4o-mini"@,
        deepgram_tts_model: "aura-2-thalia-en"@,
        show_buddy_always: true,
    }
}

/// `s` with the proxy base URL set to `url` without its trailing slashes.
pub open spec fn with_proxy_url(s: SettingsView, url: Seq<char>) -> SettingsView {
    SettingsView { proxy_base_url: trim_end_char(url, '/'), ..s }
}

impl Default for Settings {
    fn default() -> (s: Self)
        ensures
            s@ == default_settings(),
    {
        Settings {
            proxy_base_url: String::new(),
            openrouter_model: String::from_str("openai/gpt-4o-mini"),
            deepgram_tts_model: String::from_str("aura-2-thalia-en"),
            show_buddy_always: true,
        }
    }
}

impl Settings {
    /// A field-by-field copy.
    pub fn duplicate(&self) -> (r: Settings)
        ensures
            r == *self,
    {
        Settings {
            proxy_base_url: self.proxy_base_url.clone(),
            openrouter_model: self.openrouter_model.clone(),
            deepgram_tts_model: self.deepgram_tts_model.clone(),
            show_buddy_always: self.show_buddy_always,
        }
    }
}

/// The current settings of the running application.
pub struct SettingsStore {
    current: Settings,
}

impl View for SettingsStore {
    type V = SettingsView;

    closed spec fn view(&self) -> SettingsView {
        self.current@
    }
}

impl SettingsStore {
    /// The store after start-up: the settings read back from disk when there
    /// were any that parsed, the defaults otherwise.
    pub fn from_stored(stored: Option<Settings>) -> (store: SettingsStore)
        ensures
            stored matches Some(s) ==> store@ == s@,
            stored is None ==> store@ == default_settings(),
    {
        match stored {
            Some(s) => SettingsStore { current: s },
            None => SettingsStore { current: Settings::default() },
        }
    }

    /// A copy of the current settings: what was last persisted.
    pub fn snapshot(&self) -> (s: Settings)
        ensures
            s@ == self@,
    {
        self.current.duplicate()
    }

    /// Replaces the current settings with `next` (the caller writes them to disk).
    pub fn persist(&mut self, next: Settings)
        ensures
            final(self)@ == next@,
    {
        self.current = next;
    }

    /// Sets the proxy base URL without its trailing slashes and keeps the
    /// other settings.
    pub fn set_proxy_url(&mut self, proxy_base_url: &str)
        ensures
            final(self)@ == with_proxy_url(old(self)@, proxy_base_url@),
    {
        let mut merged = self.snapshot();
        merged.proxy_base_url = trim_end_matching(proxy_base_url, '/');
        self.persist(merged);
    }
}

/// A stored proxy URL never ends with a slash, and setting the stored URL
/// again changes nothing.
pub proof fn lemma_proxy_url_is_canonical(s: SettingsView, url: Seq<char>)
    ensures
        with_proxy_url(s, url).proxy_base_url.len() == 0 || with_proxy_url(
            s,
            url,
        ).proxy_base_url.last() != '/',
        with_proxy_url(with_proxy_url(s, url), with_proxy_url(s, url).proxy_base_url)
            == with_proxy_url(s, url),
{
    crate::text::lemma_trim_end_char_settles(url, '/');
}

} // verus!
