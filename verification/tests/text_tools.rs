use lfm2_audio::cli::{parse_chat_line, turn_output_path, ChatCommand};
use lfm2_audio::error::LFM2Error;
use lfm2_audio::server::check_speech_text;
use lfm2_audio::text::substring;
use lfm2_audio::tokenizer::{mentions_precompiled, LFM2Tokenizer, SpecialTokens};

const WORD_LEVEL_TOKENIZER: &str = r#"{
  "version": "1.0",
  "truncation": null,
  "padding": null,
  "added_tokens": [],
  "normalizer": null,
  "pre_tokenizer": {"type": "Whitespace"},
  "post_processor": null,
  "decoder": null,
  "model": {
    "type": "WordLevel",
    "vocab": {"hello": 0, "world": 1, "[UNK]": 2},
    "unk_token": "[UNK]"
  }
}"#;

#[test]
fn chat_lines_become_commands() {
    assert_eq!(parse_chat_line("   \n"), ChatCommand::Skip);
    assert_eq!(parse_chat_line("quit\n"), ChatCommand::Quit);
    assert_eq!(parse_chat_line("  exit "), ChatCommand::Quit);
    assert_eq!(parse_chat_line("reset"), ChatCommand::Reset);
    assert_eq!(
        parse_chat_line("  tell me a story \n"),
        ChatCommand::Text("tell me a story".to_string())
    );
    assert_eq!(
        parse_chat_line("/audio clip.wav\n"),
        ChatCommand::Audio {
            path: "clip.wav".to_string(),
            text_prompt: None
        }
    );
    assert_eq!(
        parse_chat_line("/audio clip.wav   what is this?  "),
        ChatCommand::Audio {
            path: "clip.wav".to_string(),
            text_prompt: Some("what is this?".to_string())
        }
    );
    assert_eq!(
        parse_chat_line("/audio clip.wav    "),
        ChatCommand::Audio {
            path: "clip.wav".to_string(),
            text_prompt: None
        }
    );
    // without the space the line is text
    assert_eq!(parse_chat_line("/audio"), ChatCommand::Text("/audio".to_string()));
    assert_eq!(parse_chat_line("QUIT"), ChatCommand::Text("QUIT".to_string()));
}

#[test]
fn substrings_count_characters() {
    assert_eq!(substring("héllo wörld", 1, 5), "éllo");
    assert_eq!(substring("abc", 3, 3), "");
}

#[test]
fn speech_text_must_not_be_blank() {
    assert!(check_speech_text("Hello").is_ok());
    let err = check_speech_text(" \t ").unwrap_err();
    assert_eq!(err.status, 400);
    assert_eq!(err.message, "text must not be empty");
}

#[test]
fn tokenizer_encodes_and_decodes() {
    let special = SpecialTokens::default();
    let tokenizer = LFM2Tokenizer::from_json(WORD_LEVEL_TOKENIZER.as_bytes(), special).unwrap();
    assert_eq!(tokenizer.vocab_size(), 3);
    assert_eq!(tokenizer.encode("hello world", false).unwrap(), vec![0, 1]);
    assert_eq!(tokenizer.encode("world unknown", false).unwrap(), vec![1, 2]);
    assert_eq!(tokenizer.decode(&[1, 0], false).unwrap(), "world hello");
    assert!(tokenizer.is_eos(special.im_end));
    assert!(tokenizer.is_audio_start(128));
    assert_eq!(tokenizer.special_tokens().im_start, 6);
}

#[test]
fn tokenizer_prompts() {
    let tokenizer =
        LFM2Tokenizer::from_json(WORD_LEVEL_TOKENIZER.as_bytes(), SpecialTokens::default()).unwrap();
    assert_eq!(
        tokenizer.build_asr_prompt(None),
        "<|startoftext|><|im_start|>system\nPerform ASR.<|im_end|>\n<|im_start|>user\n"
    );
    assert_eq!(
        tokenizer.build_tts_prompt("Hi", Some("Use the US male voice.")),
        "<|startoftext|><|im_start|>system\nPerform TTS. Use the US male voice.<|im_end|>\n<|im_start|>user\nHi<|im_end|>\n<|im_start|>assistant\n"
    );
    assert_eq!(
        tokenizer.build_assistant_suffix(),
        "<|im_end|>\n<|im_start|>assistant\n"
    );
}

#[test]
fn tokenizer_rejects_a_malformed_file() {
    match LFM2Tokenizer::from_json(b"{\"model\": 3}", SpecialTokens::default()) {
        Err(LFM2Error::Tokenizer(m)) => assert!(m.starts_with("Failed to load tokenizer: ")),
        _ => panic!("expected a tokenizer error"),
    }
}

#[test]
fn tokenizer_refuses_truncated_json_without_panicking() {
    let truncated = &WORD_LEVEL_TOKENIZER.as_bytes()[..WORD_LEVEL_TOKENIZER.len() / 2];
    match LFM2Tokenizer::from_json(truncated, SpecialTokens::default()) {
        Err(LFM2Error::Tokenizer(m)) => assert!(m.starts_with("Failed to load tokenizer: ")),
        _ => panic!("expected a tokenizer error"),
    }
    match LFM2Tokenizer::from_json(b"{\"decoder\": {\"type\": ", SpecialTokens::default()) {
        Err(LFM2Error::Tokenizer(m)) => assert!(m.starts_with("Failed to load tokenizer: ")),
        _ => panic!("expected a tokenizer error"),
    }
}

#[test]
fn tokenizer_refuses_precompiled_normalizers() {
    let json = WORD_LEVEL_TOKENIZER.replace(
        "\"normalizer\": null",
        "\"normalizer\": {\"type\": \"Precompiled\", \"precompiled_charsmap\": \"!!\"}",
    );
    match LFM2Tokenizer::from_json(json.as_bytes(), SpecialTokens::default()) {
        Err(LFM2Error::Tokenizer(m)) => {
            assert_eq!(m, "Failed to load tokenizer: Precompiled normalizers are not supported")
        }
        _ => panic!("expected a tokenizer error"),
    }
    assert!(mentions_precompiled(b"{\"type\": \"Pre\\u0063ompiled\"}"));
    assert!(!mentions_precompiled(WORD_LEVEL_TOKENIZER.as_bytes()));
}

#[test]
fn word_level_tokenizer_does_not_sample() {
    let tokenizer =
        LFM2Tokenizer::from_json(WORD_LEVEL_TOKENIZER.as_bytes(), SpecialTokens::default()).unwrap();
    assert!(!tokenizer.samples_segmentation());
}

#[test]
fn turn_audio_is_saved_beside_the_output() {
    assert_eq!(turn_output_path("out/chat_output.wav", 3), "out/chat_output-3.wav");
    assert_eq!(turn_output_path("reply", 12), "reply-12.wav");
    assert_eq!(turn_output_path("a/b.tar.gz", 1), "a/b.tar-1.gz");
}
