//! Concurrency core of a coding-agent runtime, together with the model-family
//! lookup and the launcher rules that surround it.
//!
//! Each module states its contracts over the spec functions and views that it
//! defines. What is taken on trust of code outside this crate is declared in
//! the module that uses it, and says so.

pub mod bundle;
pub mod exclusivity;
pub mod gpt_oss;
pub mod launcher;
pub mod model_family;
pub mod outcome;
pub mod runtime;
pub mod text;
pub mod trace;
