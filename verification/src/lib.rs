//! Verified core of the LFM2.5-Audio runtime: generation schedules, cache
//! bookkeeping, chat history, prompt templates and the streaming server's
//! pacing and decoding decisions.

pub mod cache;
pub mod chat;
pub mod cli;
pub mod config;
pub mod constants;
pub mod embeddings;
pub mod error;
pub mod interleaved;
pub mod model;
pub mod server;
pub mod sessions;
pub mod settings;
pub mod streaming;
pub mod text;
pub mod tokenizer;
pub mod tts;
pub mod websocket;

pub use chat::{AssistantResponse, Turn};
pub use config::{Device, Precision};
pub use embeddings::EmbedTokens;
pub use error::{LFM2Error, Result};
pub use interleaved::InterleavedEvent;
pub use model::ModelInfo;
pub use tokenizer::LFM2Tokenizer;
pub use tts::{TTSEvent, TTSStreamOutput};
