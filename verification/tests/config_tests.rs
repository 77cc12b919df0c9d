use rustclaw::config::{Config, EmbeddingChoice};
use std::path::PathBuf;

fn config(provider: &str) -> Config {
    Config {
        discord_token: "token".to_string(),
        owner_id: 1,
        api_provider: "anthropic".to_string(),
        api_key: "chat-key".to_string(),
        api_url: "https://api.example".to_string(),
        model: "model".to_string(),
        brave_api_key: None,
        data_dir: PathBuf::from("data"),
        command_timeout: 30,
        disable_reasoning: false,
        embedding_provider: provider.to_string(),
        embedding_api_key: None,
        embedding_model: None,
        embedding_dimensions: None,
    }
}

#[test]
fn every_name_but_gemini_selects_the_local_model() {
    for name in ["local", "", "openai", "GEMINI"] {
        assert!(matches!(config(name).embedding_choice(), EmbeddingChoice::Local));
        assert_eq!(config(name).embedding_dimensions(), 384);
    }
}

#[test]
fn gemini_selects_the_remote_provider_with_defaults() {
    match config("gemini").embedding_choice() {
        EmbeddingChoice::Remote(settings) => {
            assert_eq!(settings.api_key, "chat-key");
            assert_eq!(settings.model, "gemini-embedding-001");
            assert_eq!(settings.dimensions, 768);
        }
        EmbeddingChoice::Local => panic!("expected the remote provider"),
    }
    assert_eq!(config("gemini").embedding_dimensions(), 768);
}

#[test]
fn gemini_takes_its_own_settings_where_given() {
    let mut c = config("gemini");
    c.embedding_api_key = Some("own-key".to_string());
    c.embedding_model = Some("text-embedding-004".to_string());
    c.embedding_dimensions = Some(256);
    match c.embedding_choice() {
        EmbeddingChoice::Remote(settings) => {
            assert_eq!(settings.api_key, "own-key");
            assert_eq!(settings.model, "text-embedding-004");
            assert_eq!(settings.dimensions, 256);
        }
        EmbeddingChoice::Local => panic!("expected the remote provider"),
    }
    assert_eq!(c.embedding_dimensions(), 256);
    c.embedding_provider = "local".to_string();
    assert_eq!(c.embedding_dimensions(), 384);
}
