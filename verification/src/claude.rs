//! Coding-assistant sessions: their records, how they become sessions and
//! messages, what is computed of them, and how they are exported.
pub mod analyzer;
pub mod export;
pub mod html;
pub mod models;
pub mod parser;
pub mod report;
