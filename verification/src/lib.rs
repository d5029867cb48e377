//! A developer-profiling pipeline: budgeted harvesting and file selection,
//! code chunking with natural-break search, keyword and vector retrieval
//! over ten fixed style categories, and profile statistics assembly.

pub mod categories;
pub mod chunker;
pub mod embedding;
pub mod errors;
pub mod extract;
pub mod fallback;
pub mod index;
pub mod matching;
pub mod provider;
pub mod retriever;
pub mod selector;
pub mod sourcing;
pub mod stats;
pub mod takehome;
pub mod text;
