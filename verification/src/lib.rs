//! Retrieval-augmented generation (RAG) core: document chunking, an archive of
//! uploaded documents, the ingestion and query pipelines, and the prompt
//! merger that injects retrieved context into a conversation.

pub mod archive;
pub mod chunker;
pub mod ingest;
pub mod merger;
pub mod messages;
pub mod query;
pub mod text;

use vstd::prelude::*;
use vstd::string::StringExecFns;

verus! {

/// Errors surfaced by the pipelines; each carries its meaning in the variant.
#[derive(Clone, Copy, Debug, PartialEq, Eq, Structural)]
pub enum RagError {
    /// Malformed or missing caller input.
    Validation,
    /// Unknown document id or filename in the archive.
    NotFound,
    /// The format hint or filename extension is not an allow-listed text format.
    UnsupportedFormat,
    /// The document is empty or all whitespace and cannot be split.
    Chunking,
    /// The embedding collaborator failed during ingestion.
    Embedding,
    /// The vector-store upsert failed during ingestion.
    Persistence,
    /// The retrieval configuration or base prompt is absent.
    Configuration,
}

impl RagError {
    /// The human-readable message carried to the request's originator.
    pub fn describe(&self) -> (r: String)
        ensures
            r@.len() > 0,
    {
        let m: &str = match self {
            RagError::Validation => "Invalid request input.",
            RagError::NotFound => "Unknown document id or filename.",
            RagError::UnsupportedFormat => "Only 'txt' and 'md' documents are supported.",
            RagError::Chunking => "The document is empty or whitespace and cannot be split.",
            RagError::Embedding => "The embedding collaborator call failed.",
            RagError::Persistence => "The vector-store upsert failed.",
            RagError::Configuration => "The retrieval configuration is not set.",
        };
        proof {
            reveal_strlit("Invalid request input.");
            reveal_strlit("Unknown document id or filename.");
            reveal_strlit("Only 'txt' and 'md' documents are supported.");
            reveal_strlit("The document is empty or whitespace and cannot be split.");
            reveal_strlit("The embedding collaborator call failed.");
            reveal_strlit("The vector-store upsert failed.");
            reveal_strlit("The retrieval configuration is not set.");
        }
        String::from_str(m)
    }
}

} // verus!
