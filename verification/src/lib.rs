//! Chunking engine for turning source files into size-bounded prompts.
//!
//! The engine takes file records in a fixed order and packs them into
//! chunks under a token ceiling; a file that alone exceeds the ceiling is
//! sliced by lines into overlapping parts. Around it stand the token
//! estimators, the code filters that prepare text for it, and the rules
//! for configurations, templates and output names.

pub mod api;
pub mod config;
pub mod error;
pub mod file;
pub mod file_filter;
pub mod filter;
pub mod pipeline;
pub mod preset;
pub mod scanner;
pub mod splitter;
pub mod template;
pub mod template_validator;
pub mod text;
pub mod token;
pub mod writer;

pub use config::OutputFormat;
pub use error::Error;
pub use error::Result;
pub use file::FileData;
pub use filter::CodeFilter;
pub use filter::FileFilterConfig;
pub use filter::FilterConfig;
pub use pipeline::PipelineStats;
pub use preset::PresetKind;
pub use splitter::Chunk;
pub use token::TokenEstimator;
pub use token::TokenizerKind;
