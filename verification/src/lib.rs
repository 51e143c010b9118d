//! In-memory coordination of named agents: an undirected connection graph,
//! per-agent session queues, and message routing between connected agents.
//!
//! An [`AgentSystem`] owns the [`Agent`]s. Each agent keeps, for every
//! session it takes part in, a [`Session`]: a queue of pending [`Message`]s
//! and a log of those that were answered. Messages travel only along
//! connections, into the recipient's queue for the active session. A queue is
//! drained by a consumer, one per agent and session, which the library drives
//! step by step (see [`consumer`]) and which the program around the library
//! runs as a task.
//!
//! Every data type has a mathematical view, and every operation says in its
//! contract what it makes of that view. The views of the registry and the
//! operations on them are in [`registry`]; what follows from them is proved
//! in [`guarantees`].
//!
//! The registry is not synchronised: share it behind one lock, or keep it to
//! a single writer.

pub mod agent;
pub mod agent_system;
pub mod chat;
pub mod clock;
pub mod consumer;
pub mod errors;
pub mod guarantees;
pub mod message;
pub mod name_set;
pub mod registry;
pub mod session;
pub mod task;
pub mod text;

pub use agent::Agent;
pub use agent_system::AgentSystem;
pub use chat::{OllamaChat, UsageInfo};
pub use errors::{AgentError, SessionError};
pub use message::Message;
pub use session::{Session, SessionEntry};
