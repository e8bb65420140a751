//! Model constants.

use vstd::prelude::*;

verus! {

/// Number of audio codebooks
pub const NUM_CODEBOOKS: usize = 8;

/// Vocabulary size per codebook (2048 audio codes + 1 end-of-audio code)
pub const CODEBOOK_VOCAB: usize = 2049;

/// End-of-audio token ID
pub const END_OF_AUDIO_TOKEN: u16 = 2048;

/// Largest code the detokenizer and the audio embeddings accept
pub const MAX_AUDIO_CODE: u16 = 2047;

/// Hidden size of LFM2 model
pub const HIDDEN_SIZE: usize = 2048;

/// Vocabulary size for text
pub const VOCAB_SIZE: usize = 65536;

/// Number of transformer layers
pub const NUM_LAYERS: usize = 16;

/// Number of attention heads
pub const NUM_ATTENTION_HEADS: usize = 32;

/// Number of key-value heads (GQA)
pub const NUM_KV_HEADS: usize = 8;

/// Head dimension (HIDDEN_SIZE / NUM_ATTENTION_HEADS)
pub const HEAD_DIM: usize = 64;

/// Input sample rate for ASR
pub const INPUT_SAMPLE_RATE: u32 = 16000;

/// Output sample rate for TTS
pub const OUTPUT_SAMPLE_RATE: u32 = 24000;

} // verus!
