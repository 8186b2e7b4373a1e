//! GGUF files: reading, weights and tokenizers.

pub mod bytes;
pub mod file;
pub mod metadata;
pub mod quant;
pub mod shares;
pub mod tokenizer;
pub mod types;
pub mod written;
