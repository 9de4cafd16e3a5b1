use clicky_companion::settings::{Settings, SettingsStore};

fn custom() -> Settings {
    Settings {
        proxy_base_url: "https://p.example".to_string(),
        openrouter_model: "m".to_string(),
        deepgram_tts_model: "v".to_string(),
        show_buddy_always: false,
    }
}

#[test]
fn defaults() {
    let d = Settings::default();
    assert_eq!(d.proxy_base_url, "");
    assert_eq!(d.openrouter_model, "openai/gpt-4o-mini");
    assert_eq!(d.deepgram_tts_model, "aura-2-thalia-en");
    assert!(d.show_buddy_always);
}

#[test]
fn store_starts_from_disk_or_defaults() {
    let s = SettingsStore::from_stored(None).snapshot();
    assert_eq!(s.openrouter_model, "openai/gpt-4o-mini");
    let s = SettingsStore::from_stored(Some(custom())).snapshot();
    assert_eq!(s.proxy_base_url, "https://p.example");
    assert!(!s.show_buddy_always);
}

#[test]
fn snapshot_after_persist_reads_back_what_was_written() {
    let mut store = SettingsStore::from_stored(None);
    store.persist(custom());
    let s = store.snapshot();
    assert_eq!(s.proxy_base_url, "https://p.example");
    assert_eq!(s.openrouter_model, "m");
    assert_eq!(s.deepgram_tts_model, "v");
    assert!(!s.show_buddy_always);
}

#[test]
fn proxy_url_is_stored_without_trailing_slashes() {
    let mut store = SettingsStore::from_stored(Some(custom()));
    store.set_proxy_url("https://w.example.dev//");
    let s = store.snapshot();
    assert_eq!(s.proxy_base_url, "https://w.example.dev");
    assert_eq!(s.openrouter_model, "m");
    assert_eq!(s.deepgram_tts_model, "v");
    assert!(!s.show_buddy_always);
    store.set_proxy_url(&s.proxy_base_url);
    assert_eq!(store.snapshot().proxy_base_url, "https://w.example.dev");
}
