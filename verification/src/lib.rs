//! The work-item lifecycle of a forum reply agent.
//!
//! The agent discovers trending items, replies to them, and leaves each item
//! alone for a while once it has been handled. This library holds what the
//! agent decides; what it sends and receives is its caller's business.
//!
//! - `score_set`: a set of item identifiers ordered by score.
//! - `queue`: the deduplicating queue, made of a pending set and a cooldown
//!   set.
//! - `item_id`: item identifiers as text.
//! - `discovery`: from a listing of item names to admissions.
//! - `workflow`: the state machine that carries one withdrawn item to its
//!   retirement.
//! - `answers`: reading what the generation and the publication answered.
//! - `session`, `endpoints`, `config`: what is sent to open a session, where
//!   requests go, and how the agent is configured.
//! - `laws`: what holds of the queue and of the workflow over every state
//!   and every run of operations.

pub mod answers;
pub mod config;
pub mod discovery;
pub mod endpoints;
pub mod item_id;
pub mod laws;
pub mod queue;
pub mod score_set;
pub mod session;
pub mod workflow;
