//! The settings of a deployment, and what they select.

use crate::embedding::{
    provider_kind, remote_settings, ProviderKind, RemoteSettings, REMOTE_DEFAULT_DIMENSIONS,
    REMOTE_DEFAULT_MODEL, EMBEDDING_DIM,
};
use vstd::prelude::*;

verus! {

/// The settings of a deployment.
#[derive(Debug, Clone)]
pub struct Config {
    pub discord_token: String,
    pub owner_id: u64,
    pub api_provider: String,
    pub api_key: String,
    pub api_url: String,
    pub model: String,
    pub brave_api_key: Option<String>,
    pub data_dir: std::path::PathBuf,
    pub command_timeout: u64,
    pub disable_reasoning: bool,
    pub embedding_provider: String,
    pub embedding_api_key: Option<String>,
    pub embedding_model: Option<String>,
    pub embedding_dimensions: Option<usize>,
}

/// The embedding provider that a configuration selects.
#[derive(Debug)]
pub enum EmbeddingChoice {
    /// The locally hosted model.
    Local,
    /// The remote service, with its settings.
    Remote(RemoteSettings),
}

/// The text of an optional string.
pub open spec fn text_of(value: Option<String>) -> Option<Seq<char>> {
    match value {
        Some(text) => Some(text@),
        None => None,
    }
}

impl Config {
    /// Whether the configuration names the remote embedding provider.
    pub open spec fn selects_remote(&self) -> bool {
        self.embedding_provider@ == "gemini"@
    }

    /// The embedding provider to use: the remote one when it is named, with
    /// its own key or else the key of the chat service; the local one for
    /// every other name.
    pub fn embedding_choice(&self) -> (choice: EmbeddingChoice)
        ensures
            match choice {
                EmbeddingChoice::Local => !self.selects_remote(),
                EmbeddingChoice::Remote(settings) => {
                    &&& self.selects_remote()
                    &&& settings.api_key@ == match self.embedding_api_key {
                        Some(key) => key@,
                        None => self.api_key@,
                    }
                    &&& settings.model@ == match self.embedding_model {
                        Some(name) => name@,
                        None => REMOTE_DEFAULT_MODEL@,
                    }
                    &&& settings.dimensions == match self.embedding_dimensions {
                        Some(n) => n,
                        None => REMOTE_DEFAULT_DIMENSIONS,
                    }
                },
            },
    {
        match provider_kind(self.embedding_provider.as_str()) {
            ProviderKind::Local => EmbeddingChoice::Local,
            ProviderKind::Remote => {
                let key: Option<&str> = match &self.embedding_api_key {
                    Some(key) => Some(key.as_str()),
                    None => None,
                };
                let model: Option<&str> = match &self.embedding_model {
                    Some(name) => Some(name.as_str()),
                    None => None,
                };
                EmbeddingChoice::Remote(
                    remote_settings(key, self.api_key.as_str(), model, self.embedding_dimensions),
                )
            },
        }
    }

    /// Length of the vectors of the provider in use.
    pub fn embedding_dimensions(&self) -> (n: usize)
        ensures
            n == if self.selects_remote() {
                match self.embedding_dimensions {
                    Some(n) => n,
                    None => REMOTE_DEFAULT_DIMENSIONS,
                }
            } else {
                EMBEDDING_DIM
            },
    {
        match self.embedding_choice() {
            EmbeddingChoice::Local => EMBEDDING_DIM,
            EmbeddingChoice::Remote(settings) => settings.dimensions,
        }
    }
}

} // verus!
