//! Conversation types, the failure taxonomy, the tool model, the turn loop's
//! decisions and the eval scoring core, as a verified library.

pub mod accumulator;
pub mod agent_eval;
pub mod aggregate;
pub mod case;
pub mod check;
pub mod completion;
pub mod duration;
pub mod failure;
pub mod json;
pub mod message;
pub mod replay;
pub mod report;
pub mod request;
pub mod response_eval;
pub mod retry;
pub mod section;
pub mod text;
pub mod tools;
pub mod trace;
pub mod turn;
pub mod verdict;

pub use crate::duration::Duration;
