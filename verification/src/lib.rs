//! A bounty-task coordination protocol as a verified state machine.
//!
//! A manager posts a task with a stake requirement and a deadline, participants
//! stake into a shared pot to submit candidate solutions, the manager opens
//! voting, and stakers vote for a submission. Every operation is one atomic
//! step on a single task record: it either yields the next record together
//! with the outside effect that must succeed before the record is stored, or it
//! fails and yields nothing.

pub mod error;
pub mod identity;
pub mod instruction;
pub mod laws;
pub mod processor;
pub mod registry;
pub mod state;
pub mod wire;
