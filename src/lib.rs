//! Incremental PDF ingestion for a retrieval-augmented question-answering tool.
//!
//! The library decides, from plain values handed to it by the program around
//! it, which files of a watched directory still have to be ingested, turns the
//! text that the extractor found for each such file into a document record
//! tagged with the file's name, and collects the batch that goes to the store.
//! Directory listing, store queries, text extraction and the store write are
//! done by the caller; everything decided in between is verified here.

pub mod ingest;
pub mod laws;
pub mod oracle;
pub mod scan;
pub mod session;
