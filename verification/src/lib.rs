//! A per-language source line statistics engine.
//!
//! Given a set of files (path and raw bytes), the engine matches each file to
//! a language by its name or extension, classifies every physical line as
//! blank, comment or code with a streaming state machine driven by the
//! language's comment and string grammar, and folds the per-file counts into
//! a per-language report with a grand total.

pub mod aggregate;
pub mod classify;
pub mod errors;
pub mod grammar;
pub mod matcher;
pub mod paths;
pub mod registry;
pub mod report;
pub mod stats;
pub mod utf8;
