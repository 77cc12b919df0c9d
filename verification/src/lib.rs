//! Conversational memory for a chat agent.
//!
//! The engine records every exchange, keeps a list of important facts free
//! of near-duplicates, and assembles a bounded context for the next model
//! call from three sources that never overlap: the important facts, the
//! most recent turns, and older turns that a nearest-neighbour search found
//! related to the query.
//!
//! - `records`, `store`: the two entities and the store of record.
//! - `index`: the nearest-neighbour index and its growth policy.
//! - `vector_db`: store and index side by side.
//! - `dedup`: the rule by which a fact counts as already known.
//! - `context`, `memory`: context assembly and the memory manager.
//! - `embedding`: tagging of texts and the life cycle of the local model.
//! - `laws`: what holds across calls.
//! - `agent`, `chunking`, `tools`, `schedule`, `config`: what the agent
//!   layer puts around the engine.
//! - `ordering`, `stamp`, `text`: shared helpers.
//!
//! Embedding vectors are floating point and never enter this crate. The
//! caller embeds texts, adds vectors to the index and searches it; the
//! crate decides everything else.

pub mod agent;
pub mod chunking;
pub mod config;
pub mod context;
pub mod dedup;
pub mod embedding;
pub mod index;
pub mod laws;
pub mod memory;
pub mod ordering;
pub mod records;
pub mod schedule;
pub mod stamp;
pub mod store;
pub mod text;
pub mod tools;
pub mod vector_db;
