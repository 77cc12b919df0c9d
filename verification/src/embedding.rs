//! What an embedding provider decides without touching a model: how a text
//! is tagged for each encoding mode, which provider a configuration selects,
//! and when a locally hosted model is loaded and unloaded.
//!
//! Running a model or calling a remote service is the caller's part. The
//! caller reports what happened as events and carries out the actions that
//! `ModelLifecycle::step` answers with.

use crate::text::{decimal, push_decimal};
use crate::vector_db::MemoryError;
use vstd::prelude::*;
use vstd::string::StringExecFns;

verus! {

/// Length of the vectors of the locally hosted model.
pub const EMBEDDING_DIM: usize = 384;

/// Length of the vectors of the remote provider unless configured otherwise.
pub const REMOTE_DEFAULT_DIMENSIONS: usize = 768;

/// Model of the remote provider unless configured otherwise.
pub const REMOTE_DEFAULT_MODEL: &'static str = "gemini-embedding-001";

/// Seconds without an embed call after which a loaded model is released.
pub const IDLE_TIMEOUT_SECS: u64 = 300;

/// Seconds between two looks at the idle time.
pub const POLL_INTERVAL_SECS: u64 = 60;

/// The two ways of encoding a text: as content to be stored, or as a query
/// to search with.
#[derive(Debug, Clone, Copy, PartialEq, Eq, Structural)]
pub enum EncodingMode {
    Passage,
    Query,
}

/// The marker that the local model expects in front of a text.
pub open spec fn local_marker(mode: EncodingMode) -> Seq<char> {
    match mode {
        EncodingMode::Passage => "passage: "@,
        EncodingMode::Query => "query: "@,
    }
}

/// `text` as the local model is given it: behind the marker of its mode.
pub fn tag_for_local(mode: EncodingMode, text: &str) -> (tagged: String)
    ensures
        tagged@ == local_marker(mode) + text@,
{
    let mut tagged = match mode {
        EncodingMode::Passage => String::from_str("passage: "),
        EncodingMode::Query => String::from_str("query: "),
    };
    tagged.append(text);
    tagged
}

/// The task type that the remote provider is told for a mode.
pub fn remote_task_type(mode: EncodingMode) -> (task: &'static str)
    ensures
        task@ == match mode {
            EncodingMode::Passage => "RETRIEVAL_DOCUMENT"@,
            EncodingMode::Query => "RETRIEVAL_QUERY"@,
        },
{
    match mode {
        EncodingMode::Passage => "RETRIEVAL_DOCUMENT",
        EncodingMode::Query => "RETRIEVAL_QUERY",
    }
}

/// Where the remote provider is reached.
pub const REMOTE_BASE_URL: &'static str = "https://generativelanguage.googleapis.com/v1beta";

/// The address to which a text is posted for embedding by `model`.
pub fn remote_endpoint(model: &str, api_key: &str) -> (url: String)
    ensures
        url@ == REMOTE_BASE_URL@ + "/models/"@ + model@ + ":embedContent?key="@ + api_key@,
{
    let mut url = String::from_str(REMOTE_BASE_URL);
    url.append("/models/");
    url.append(model);
    url.append(":embedContent?key=");
    url.append(api_key);
    url
}

/// What is reported of a vector whose length is not the declared one.
pub open spec fn wrong_length_text(returned: usize, declared: usize) -> Seq<char> {
    "the provider returned a vector of "@ + decimal(returned as nat) + " components, not "@
        + decimal(declared as nat)
}

/// Checks the length of a vector that a provider returned against the
/// dimensions the provider declares: a vector of another length is an
/// embedding failure.
pub fn check_dimensions(returned: usize, declared: usize) -> (r: Result<(), MemoryError>)
    ensures
        returned == declared ==> r is Ok,
        returned != declared ==> (r matches Err(MemoryError::Embedding(message)) && message@
            == wrong_length_text(returned, declared)),
{
    if returned == declared {
        Ok(())
    } else {
        let mut message = String::from_str("the provider returned a vector of ");
        push_decimal(&mut message, returned as u64);
        message.append(" components, not ");
        push_decimal(&mut message, declared as u64);
        Err(MemoryError::Embedding(message))
    }
}

/// The two providers.
#[derive(Debug, Clone, Copy, PartialEq, Eq, Structural)]
pub enum ProviderKind {
    /// A model hosted in this process, loaded on demand.
    Local,
    /// A remote service called over HTTP.
    Remote,
}

/// The provider that a configured name selects: `gemini` is the remote one,
/// every other name the local one.
pub fn provider_kind(name: &str) -> (kind: ProviderKind)
    ensures
        kind == if name@ == "gemini"@ {
            ProviderKind::Remote
        } else {
            ProviderKind::Local
        },
{
    let wanted = String::from_str("gemini");
    let given = String::from_str(name);
    if given == wanted {
        ProviderKind::Remote
    } else {
        ProviderKind::Local
    }
}

/// The settings of the remote provider.
#[derive(Debug)]
pub struct RemoteSettings {
    pub api_key: String,
    pub model: String,
    pub dimensions: usize,
}

/// The settings of the remote provider as a configuration gives them: its
/// own key if it has one, else the key of the chat service; the configured
/// model and vector length, else the defaults.
pub fn remote_settings(
    embedding_key: Option<&str>,
    chat_key: &str,
    model: Option<&str>,
    dimensions: Option<usize>,
) -> (settings: RemoteSettings)
    ensures
        settings.api_key@ == match embedding_key {
            Some(key) => key@,
            None => chat_key@,
        },
        settings.model@ == match model {
            Some(name) => name@,
            None => REMOTE_DEFAULT_MODEL@,
        },
        settings.dimensions == match dimensions {
            Some(n) => n,
            None => REMOTE_DEFAULT_DIMENSIONS,
        },
{
    RemoteSettings {
        api_key: match embedding_key {
            Some(key) => String::from_str(key),
            None => String::from_str(chat_key),
        },
        model: match model {
            Some(name) => String::from_str(name),
            None => String::from_str(REMOTE_DEFAULT_MODEL),
        },
        dimensions: match dimensions {
            Some(n) => n,
            None => REMOTE_DEFAULT_DIMENSIONS,
        },
    }
}

/// Whether the local model is in memory.
#[derive(Debug, Clone, Copy, PartialEq, Eq, Structural)]
pub enum ModelState {
    Unloaded,
    Ready,
}

/// What happened to the local provider. Times are seconds on a clock that
/// does not run backwards.
#[derive(Debug, Clone, Copy, PartialEq, Eq, Structural)]
pub enum ModelEvent {
    /// A text is to be embedded.
    EmbedRequested { now: u64 },
    /// The model was loaded as asked.
    LoadSucceeded { now: u64 },
    /// The model could not be loaded.
    LoadFailed,
    /// The poll interval has passed.
    Tick { now: u64 },
}

/// What the caller does next.
#[derive(Debug, Clone, Copy, PartialEq, Eq, Structural)]
pub enum ModelAction {
    /// Load the model, then report `LoadSucceeded` or `LoadFailed`.
    Load,
    /// Run the model on the tagged text.
    Embed,
    /// Release the model.
    Unload,
    /// Fail the embed call that asked for the load.
    Fail,
    /// Nothing to do.
    Wait,
}

/// The life cycle of the locally hosted model.
#[derive(Debug, Clone, Copy, PartialEq, Eq, Structural)]
pub struct ModelLifecycle {
    pub state: ModelState,
    /// When the model was last put to use.
    pub last_used: u64,
}

/// Seconds from `since` to `now`; zero if `now` is not later.
pub open spec fn elapsed(since: u64, now: u64) -> int {
    if now >= since {
        now - since
    } else {
        0
    }
}

impl ModelLifecycle {
    /// Whether the model has been idle long enough at `now` to be released.
    pub open spec fn idle_at(&self, now: u64) -> bool {
        self.state == ModelState::Ready && elapsed(self.last_used, now) >= IDLE_TIMEOUT_SECS
    }

    /// The life cycle after `event`, and what the caller does next.
    pub open spec fn next(&self, event: ModelEvent) -> (ModelLifecycle, ModelAction) {
        match event {
            ModelEvent::EmbedRequested { now } => match self.state {
                ModelState::Unloaded => (*self, ModelAction::Load),
                ModelState::Ready => (
                    ModelLifecycle { state: ModelState::Ready, last_used: now },
                    ModelAction::Embed,
                ),
            },
            ModelEvent::LoadSucceeded { now } => (
                ModelLifecycle { state: ModelState::Ready, last_used: now },
                ModelAction::Embed,
            ),
            ModelEvent::LoadFailed => (
                ModelLifecycle { state: ModelState::Unloaded, last_used: self.last_used },
                ModelAction::Fail,
            ),
            ModelEvent::Tick { now } => if self.idle_at(now) {
                (
                    ModelLifecycle { state: ModelState::Unloaded, last_used: self.last_used },
                    ModelAction::Unload,
                )
            } else {
                (*self, ModelAction::Wait)
            },
        }
    }

    /// A provider created at `now`: nothing is loaded yet.
    pub fn new(now: u64) -> (life: Self)
        ensures
            life == (ModelLifecycle { state: ModelState::Unloaded, last_used: now }),
    {
        ModelLifecycle { state: ModelState::Unloaded, last_used: now }
    }

    /// Takes note of `event` and answers with what the caller does next.
    pub fn step(&mut self, event: ModelEvent) -> (action: ModelAction)
        ensures
            (*final(self), action) == old(self).next(event),
    {
        match event {
            ModelEvent::EmbedRequested { now } => match self.state {
                ModelState::Unloaded => ModelAction::Load,
                ModelState::Ready => {
                    self.last_used = now;
                    ModelAction::Embed
                },
            },
            ModelEvent::LoadSucceeded { now } => {
                self.state = ModelState::Ready;
                self.last_used = now;
                ModelAction::Embed
            },
            ModelEvent::LoadFailed => {
                self.state = ModelState::Unloaded;
                ModelAction::Fail
            },
            ModelEvent::Tick { now } => {
                let idle = match self.state {
                    ModelState::Ready => now >= self.last_used && now - self.last_used
                        >= IDLE_TIMEOUT_SECS,
                    ModelState::Unloaded => false,
                };
                if idle {
                    self.state = ModelState::Unloaded;
                    ModelAction::Unload
                } else {
                    ModelAction::Wait
                }
            },
        }
    }
}

/// A model that has not been used for the idle timeout is released at the
/// next tick, and the embed call after that brings it back: the call asks
/// for a load, and once the load is reported the model is ready and the text
/// is embedded.
pub proof fn law_idle_unload_then_reload(life: ModelLifecycle, tick: u64, request: u64, loaded: u64)
    requires
        life.state == ModelState::Ready,
        elapsed(life.last_used, tick) >= IDLE_TIMEOUT_SECS,
    ensures
        life.next(ModelEvent::Tick { now: tick }).1 == ModelAction::Unload,
        ({
            let idle = life.next(ModelEvent::Tick { now: tick }).0;
            let asked = idle.next(ModelEvent::EmbedRequested { now: request });
            let back = asked.0.next(ModelEvent::LoadSucceeded { now: loaded });
            &&& idle.state == ModelState::Unloaded
            &&& asked.1 == ModelAction::Load
            &&& back.1 == ModelAction::Embed
            &&& back.0.state == ModelState::Ready
            &&& back.0.last_used == loaded
        }),
{
}

/// A model in use is never released: a tick earlier than the idle timeout
/// after the last use changes nothing.
pub proof fn law_busy_model_stays(life: ModelLifecycle, now: u64)
    requires
        elapsed(life.last_used, now) < IDLE_TIMEOUT_SECS,
    ensures
        life.next(ModelEvent::Tick { now }) == (life, ModelAction::Wait),
{
}

} // verus!
