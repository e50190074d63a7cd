pub mod chain;
pub mod command;
pub mod concurrency;
pub mod interpreter;
pub mod options;
pub mod program;
pub mod registry;
pub mod traits;
