//! An interpreter for a small line-oriented, event-driven scripting language.
//!
//! A script is a sequence of listener blocks, each binding a brace-delimited
//! body of statements to an event name.  Loading a script runs three verified
//! passes: a pre-parser that splits raw lines into positioned words and fuses
//! quoted string literals, a tokenizer that turns words into typed tokens via
//! a pending-state machine, and a grouping pass that collects the flat token
//! stream into per-event listener bodies.  Running the loaded script fires a
//! synthetic root event; the virtual machine then dispatches events (built-in
//! or user-triggered), executes listener bodies against a stack of lexical
//! scopes, and maintains a strict but explicitly coercible type system over
//! the variables those bodies declare.

pub mod diag;
pub mod errors;
pub mod events;
pub mod grouping;
pub mod numbers;
pub mod position;
pub mod preparse;
pub mod scope;
pub mod textutil;
pub mod token;
pub mod tokenizer;
pub mod variables;
pub mod vm;
