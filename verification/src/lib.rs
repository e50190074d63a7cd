//! Chains of command lines.
//!
//! A chain is an ordered list of programs. Values that a person types
//! in, or that earlier programs print, are put into the arguments of
//! later programs through placeholders such as `<<name>>`. Each
//! program has its own retry setting and its own answer to failure;
//! neighbours that share a concurrency group run together.
//!
//! The library decides and never touches the operating system. A
//! [`engine::chain::Chain`] is driven by events: it is told what
//! happened, and answers with what is to be done next.

pub mod commons;
pub mod display_control;
pub mod engine;
pub mod function;
pub mod generations;
pub mod marker;
pub mod pattern;
pub mod text;
pub mod variable;
