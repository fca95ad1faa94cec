use granite::args::{Provider, RunArgs};
use granite::config::{
    api_key_var, key_display, mask, resolve_provider, Config, ConfigError,
};

fn run_args(provider: Option<Provider>, model: Option<&str>, api_key: Option<&str>) -> RunArgs {
    RunArgs {
        provider,
        model: model.map(|m| m.to_string()),
        api_key: api_key.map(|k| k.to_string()),
        prompt: None,
    }
}

#[test]
fn set_stores_each_settable_key() {
    let mut cfg = Config::default();
    cfg.set("default_provider", "groq").unwrap();
    cfg.set("default_model", "llama").unwrap();
    cfg.set("groq.api_key", "gsk_1").unwrap();
    cfg.set("gemini.api_key", "g2").unwrap();
    cfg.set("ollama.api_key", "o3").unwrap();
    cfg.set("mistral.api_key", "m4").unwrap();
    assert_eq!(cfg.default_provider.as_deref(), Some("groq"));
    assert_eq!(cfg.default_model.as_deref(), Some("llama"));
    assert_eq!(cfg.api_key_for(Provider::Groq), Some("gsk_1"));
    assert_eq!(cfg.api_key_for(Provider::Gemini), Some("g2"));
    assert_eq!(cfg.api_key_for(Provider::Ollama), Some("o3"));
    assert_eq!(cfg.api_key_for(Provider::Mistral), Some("m4"));
}

#[test]
fn set_unknown_key_is_refused_and_changes_nothing() {
    let mut cfg = Config::default();
    let err = cfg.set("bogus", "x").unwrap_err();
    assert!(matches!(err, ConfigError::UnknownKey(ref k) if k == "bogus"));
    assert_eq!(
        err.message(),
        "unknown config key 'bogus' — expected one of: default_provider, default_model, groq.api_key, gemini.api_key, ollama.api_key, mistral.api_key"
    );
    assert!(cfg.default_provider.is_none());
    assert!(cfg.groq.api_key.is_none());
}

#[test]
fn empty_api_key_counts_as_none() {
    let mut cfg = Config::default();
    cfg.set("ollama.api_key", "").unwrap();
    assert_eq!(cfg.api_key_for(Provider::Ollama), None);
    assert_eq!(Config::default().api_key_for(Provider::Groq), None);
}

#[test]
fn mask_keeps_first_four_characters() {
    assert_eq!(mask("gsk_abcdef"), "gsk_******");
    assert_eq!(mask("abcd"), "****");
    assert_eq!(mask("ab"), "**");
    assert_eq!(mask(""), "");
}

#[test]
fn key_display_shows_unset_or_masked_key() {
    assert_eq!(key_display(None), "<unset>");
    assert_eq!(key_display(Some("secret-key")), "secr******");
}

#[test]
fn api_key_flag_wins_over_env_and_config() {
    let mut cfg = Config::default();
    cfg.set("groq.api_key", "from-config").unwrap();
    let r = resolve_provider(&run_args(None, None, Some("from-flag")), Some("from-env".to_string()), &cfg)
        .unwrap()
        .unwrap();
    assert_eq!(r.provider, Provider::Groq);
    assert_eq!(r.api_key, "from-flag");
    assert_eq!(r.model, "openai/gpt-oss-20b");
}

#[test]
fn env_key_wins_over_config() {
    let mut cfg = Config::default();
    cfg.set("groq.api_key", "from-config").unwrap();
    let r = resolve_provider(&run_args(None, Some("m"), None), Some("from-env".to_string()), &cfg)
        .unwrap()
        .unwrap();
    assert_eq!(r.api_key, "from-env");
    assert_eq!(r.model, "m");
}

#[test]
fn config_key_is_used_last() {
    let mut cfg = Config::default();
    cfg.set("groq.api_key", "from-config").unwrap();
    let r = resolve_provider(&run_args(Some(Provider::Groq), None, None), None, &cfg).unwrap().unwrap();
    assert_eq!(r.api_key, "from-config");
}

#[test]
fn no_key_anywhere_resolves_to_none() {
    let r = resolve_provider(&run_args(None, None, None), None, &Config::default()).unwrap();
    assert!(r.is_none());
}

#[test]
fn other_providers_are_not_implemented() {
    let err = resolve_provider(&run_args(Some(Provider::Gemini), None, Some("k")), None, &Config::default())
        .unwrap_err();
    assert!(matches!(err, ConfigError::ProviderNotImplemented(Provider::Gemini)));
    assert_eq!(err.message(), "Gemini provider not implemented yet");
    let err = resolve_provider(&run_args(Some(Provider::Ollama), None, None), None, &Config::default())
        .unwrap_err();
    assert_eq!(err.message(), "Ollama provider not implemented yet");
}

#[test]
fn api_key_variables() {
    assert_eq!(api_key_var(Provider::Groq), Some("GROQ_API_KEY"));
    assert_eq!(api_key_var(Provider::Gemini), Some("GEMINI_API_KEY"));
    assert_eq!(api_key_var(Provider::Ollama), None);
    assert_eq!(api_key_var(Provider::Mistral), Some("MISTRAL_API_KEY"));
}

#[test]
fn provider_names_round_trip() {
    for p in [Provider::Groq, Provider::Gemini, Provider::Ollama, Provider::Mistral] {
        assert_eq!(Provider::from_name(p.name()), Some(p));
    }
    assert_eq!(Provider::from_name("bogus"), None);
    assert_eq!(Provider::Gemini.name(), "gemini");
}

#[test]
fn mask_counts_characters_not_bytes() {
    assert_eq!(mask("éabcd"), "éabc*");
    assert_eq!(mask("aaaéb"), "aaaé*");
    assert_eq!(mask("éé"), "**");
    assert_eq!(mask("日本語の鍵"), "日本語の*");
    assert_eq!(key_display(Some("aéé")), "***");
}
