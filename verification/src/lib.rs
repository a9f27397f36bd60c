//! Core library of the PMSynapse project manager: workflow rules, layered
//! configuration, knowledge repositories, matter files and session analysis.
use vstd::prelude::*;

use crate::text::{owned, push_str};

pub mod api;
pub mod claude;
pub mod config;
pub mod daemon;
pub mod foreign;
pub mod graph;
pub mod repository;
pub mod sessions;
pub mod idlc;
pub mod knowledge;
pub mod llm;
pub mod matter;
pub mod templates;
pub mod workflow;
pub mod text;
pub mod thoughts;
pub mod update;

verus! {

/// The library's version.
pub const VERSION: &'static str = "0.1.0";

/// Errors reported by the library.
#[derive(Debug)]
pub enum SynapseError {
    Graph(String),
    Llm(String),
    Idlc(String),
    Config(String),
    Matter(String),
    Knowledge(String),
    Io(std::io::Error),
    Serialization(serde_json::Error),
    YamlParse(serde_yaml::Error),
}

/// `std::io::Error`, carried as an opaque value.
#[verifier::external_type_specification]
#[verifier::external_body]
pub struct ExIoError(std::io::Error);

/// `serde_json::Error`, carried as an opaque value.
#[verifier::external_type_specification]
#[verifier::external_body]
pub struct ExJsonError(serde_json::Error);

/// `serde_yaml::Error`, carried as an opaque value.
#[verifier::external_type_specification]
#[verifier::external_body]
pub struct ExYamlError(serde_yaml::Error);

/// Initializes the library; it has nothing to set up and always succeeds.
pub fn init() -> (r: Result<(), SynapseError>)
    ensures
        r is Ok,
{
    Ok(())
}

/// The text of an outside error (its `Display` form); nothing is stated of
/// it.
#[verifier::external_body]
fn io_error_text(e: &std::io::Error) -> String {
    e.to_string()
}

/// The text of a JSON error (its `Display` form); nothing is stated of it.
#[verifier::external_body]
fn json_error_text(e: &serde_json::Error) -> String {
    e.to_string()
}

/// The text of a YAML error (its `Display` form); nothing is stated of it.
#[verifier::external_body]
fn yaml_error_text(e: &serde_yaml::Error) -> String {
    e.to_string()
}

/// The prefix naming the kind of an error.
pub open spec fn error_prefix(e: SynapseError) -> Seq<char> {
    match e {
        SynapseError::Graph(_) => "Graph error: "@,
        SynapseError::Llm(_) => "LLM error: "@,
        SynapseError::Idlc(_) => "IDLC error: "@,
        SynapseError::Config(_) => "Configuration error: "@,
        SynapseError::Matter(_) => "Matter error: "@,
        SynapseError::Knowledge(_) => "Knowledge error: "@,
        SynapseError::Io(_) => "IO error: "@,
        SynapseError::Serialization(_) => "Serialization error: "@,
        SynapseError::YamlParse(_) => "YAML parsing error: "@,
    }
}

/// The message carried by an error of the library's own.
pub open spec fn error_message(e: SynapseError) -> Option<Seq<char>> {
    match e {
        SynapseError::Graph(m) => Some(m@),
        SynapseError::Llm(m) => Some(m@),
        SynapseError::Idlc(m) => Some(m@),
        SynapseError::Config(m) => Some(m@),
        SynapseError::Matter(m) => Some(m@),
        SynapseError::Knowledge(m) => Some(m@),
        _ => None,
    }
}

impl SynapseError {
    /// The text of the error: the prefix of its kind, then its message.
    pub fn to_string(&self) -> (r: String)
        ensures
            match error_message(*self) {
                Some(m) => r@ == error_prefix(*self) + m,
                None => exists|t: Seq<char>| r@ == error_prefix(*self) + t,
            },
    {
        let (prefix, text) = match self {
            SynapseError::Graph(m) => ("Graph error: ", m.clone()),
            SynapseError::Llm(m) => ("LLM error: ", m.clone()),
            SynapseError::Idlc(m) => ("IDLC error: ", m.clone()),
            SynapseError::Config(m) => ("Configuration error: ", m.clone()),
            SynapseError::Matter(m) => ("Matter error: ", m.clone()),
            SynapseError::Knowledge(m) => ("Knowledge error: ", m.clone()),
            SynapseError::Io(e) => ("IO error: ", io_error_text(e)),
            SynapseError::Serialization(e) => ("Serialization error: ", json_error_text(e)),
            SynapseError::YamlParse(e) => ("YAML parsing error: ", yaml_error_text(e)),
        };
        assert(prefix@ == error_prefix(*self));
        let mut r = owned(prefix);
        push_str(&mut r, text.as_str());
        assert(r@ == error_prefix(*self) + text@);
        r
    }
}

} // verus!
