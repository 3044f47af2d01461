//! A declarative HTTP API exerciser: a plan of endpoint groups is read from a
//! structured configuration document, validated at point of use, expanded into
//! one call descriptor per (group, path) pair, and driven one blocking call at
//! a time by a sequential execution engine.
//!
//! The crate holds the verified core: the document-tree read model, the plan
//! validation rules, the request builder and the execution engine's decisions.
//! Reading the configuration source and carrying one HTTP call over the wire
//! belong to the surrounding program, which drives the engine step by step.

pub mod doc;
pub mod engine;
pub mod errors;
pub mod request;
pub mod source;
