//! Storage and retrieval of documents by embedding.

pub mod codec;
pub mod config;
pub mod documentdb;
pub mod embedder;
pub mod embeddings;
pub mod error;
pub mod executor;
pub mod metadata;
pub mod paths;
pub mod pdf;
pub mod pipeline;
pub mod pptx;
pub mod queue;
pub mod queue_answers;
pub mod queue_history;
pub mod queue_meaning;
pub mod queue_model;
pub mod queue_operations;
pub mod relations;
pub mod report;
pub mod report_meaning;
pub mod sql;
pub mod store_meaning;
pub mod store_operations;
pub mod storing;
pub mod table_names;
pub mod text;
pub mod vectordb;
pub mod youtube;
