use lfm2_audio::cache::{CacheSlot, GenerationCache, LFM2CacheConfig};
use lfm2_audio::chat::{response_audio, AssistantResponse, ChatHistory, ChatInput, SessionTable, Turn};
use lfm2_audio::config::{Device, LayerType, Precision};
use lfm2_audio::constants::{CODEBOOK_VOCAB, END_OF_AUDIO_TOKEN, NUM_CODEBOOKS};
use lfm2_audio::embeddings::{audio_code_rows, check_table_bytes, EmbeddingTable};
use lfm2_audio::error::LFM2Error;
use lfm2_audio::interleaved::{
    clamp_audio_frame, modality_budget, InterleavedSchedule, InterleavedState, TextStep,
};
use lfm2_audio::model::ModelInfo;
use lfm2_audio::sessions::{join_path, ModelPaths, SessionLoader};
use lfm2_audio::streaming::StreamingDecodeState;
use lfm2_audio::server::StreamingDecodeConfig;
use lfm2_audio::text::{parse_usize, push_decimal};
use lfm2_audio::tokenizer::{
    audio_turn_prefix, parse_u32, system_prompt_prefix, text_turn_prompt, SpecialTokens,
};
use lfm2_audio::tts::{detokenizer_input, last_row, AudioCodeState, TextDecodeState};

#[test]
fn model_test_model_info() {
    // Would need real model for full test
    // For now just verify the info struct works
    let info = ModelInfo {
        hidden_size: 2048,
        vocab_size: 65536,
        num_layers: 16,
        num_codebooks: 8,
    };
    assert_eq!(info.hidden_size, 2048);
}

#[test]
fn test_default_special_tokens() {
    let special = SpecialTokens::default();
    assert_eq!(special.pad, 0);
    assert_eq!(special.audio_start, 128);
    assert_eq!(special.im_end, 7);
}

#[test]
fn test_asr_prompt_format() {
    let prompt = system_prompt_prefix("Perform ASR.");
    assert_eq!(
        prompt,
        format!(
            "<|startoftext|><|im_start|>system\n{}<|im_end|>\n<|im_start|>user\n",
            "Perform ASR."
        )
    );
    assert!(prompt.contains("<|startoftext|>"));
    assert!(prompt.contains("<|im_start|>"));
    assert!(prompt.contains("<|im_end|>"));
}

#[test]
fn test_audio_constants() {
    assert_eq!(NUM_CODEBOOKS, 8);
    assert_eq!(CODEBOOK_VOCAB, 2049);
    assert_eq!(END_OF_AUDIO_TOKEN, 2048);
}

fn test_config() -> (LFM2CacheConfig, Vec<String>) {
    let config = LFM2CacheConfig::from_dims(2048, 32, 8, 16, 3);
    let layer_types = vec![
        "conv".to_string(),
        "conv".to_string(),
        "full_attention".to_string(),
        "conv".to_string(),
        "conv".to_string(),
        "full_attention".to_string(),
    ];
    (config, layer_types)
}

#[test]
fn test_cache_initialization() {
    let (config, layer_types) = test_config();
    let cache = GenerationCache::new(&config, &layer_types).unwrap();

    assert_eq!(cache.conv_caches.len(), 4);
    assert_eq!(cache.kv_caches.len(), 2);
    assert_eq!(cache.seq_len, 0);
}

#[test]
fn test_cache_input_order() {
    let (config, layer_types) = test_config();
    let cache = GenerationCache::new(&config, &layer_types).unwrap();

    let inputs = cache.prepare_cache_inputs();
    let names: Vec<_> = inputs.iter().map(|(n, _)| n.clone()).collect();

    assert_eq!(names[0], "past_conv.0");
    assert_eq!(names[1], "past_conv.1");
    assert_eq!(names[2], "past_key_values.2.key");
    assert_eq!(names[3], "past_key_values.2.value");
    assert_eq!(names[4], "past_conv.3");
    assert_eq!(names[5], "past_conv.4");
    assert_eq!(names[6], "past_key_values.5.key");
    assert_eq!(names[7], "past_key_values.5.value");
}

#[test]
fn cache_tensor_shapes_follow_the_configuration() {
    let (config, layer_types) = test_config();
    assert_eq!(config.head_dim, 64);
    let cache = GenerationCache::new(&config, &layer_types).unwrap();
    assert_eq!(cache.conv_caches[0].layer, 0);
    assert_eq!(cache.conv_caches[0].state_shape, vec![1, 2048, 3]);
    assert_eq!(cache.kv_caches[0].layer, 2);
    assert_eq!(cache.kv_caches[0].key_shape, vec![1, 8, 0, 64]);
    assert_eq!(cache.kv_caches[1].value_shape, vec![1, 8, 0, 64]);
    assert_eq!(cache.layer_types[2], LayerType::FullAttention);
}

#[test]
fn cache_refuses_unknown_layer_types() {
    let config = LFM2CacheConfig::from_dims(64, 4, 2, 3, 3);
    let names = vec![
        "conv".to_string(),
        "mamba".to_string(),
        "moe".to_string(),
    ];
    match GenerationCache::new(&config, &names) {
        Err(LFM2Error::Cache(m)) => assert_eq!(m, "Unknown layer type: mamba"),
        _ => panic!("expected a cache error"),
    }
}

#[test]
fn cache_outputs_are_named_after_the_present_tensors() {
    let (config, layer_types) = test_config();
    let cache = GenerationCache::new(&config, &layer_types).unwrap();
    let outputs = cache.output_slots();
    let names: Vec<_> = outputs.iter().map(|(n, _)| n.clone()).collect();
    assert_eq!(names.len(), 8);
    assert!(names.contains(&"present_conv.0".to_string()));
    assert!(names.contains(&"present.2.key".to_string()));
    assert!(names.contains(&"present.5.value".to_string()));
    assert!(outputs.iter().any(|(_, s)| *s == CacheSlot::Value(5)));
}

#[test]
fn cache_update_takes_well_shaped_tensors_and_reset_restores_it() {
    let (config, layer_types) = test_config();
    let mut cache = GenerationCache::new(&config, &layer_types).unwrap();
    let outputs = cache.output_slots();
    let observed: Vec<Option<Vec<usize>>> = outputs
        .iter()
        .map(|(_, slot)| match slot {
            CacheSlot::Conv(_) => Some(vec![1, 2048, 3]),
            CacheSlot::Key(_) | CacheSlot::Value(_) => Some(vec![1, 8, 7, 64]),
        })
        .collect();
    let taken = cache.update(&observed);
    assert!(taken.iter().all(|t| *t));
    assert_eq!(cache.seq_len(), 7);
    assert_eq!(cache.kv_caches[1].key_shape, vec![1, 8, 7, 64]);

    // a tensor of the wrong rank, or a missing one, is not taken
    let mut bad = observed.clone();
    bad[0] = Some(vec![2048, 3]);
    bad[2] = None;
    let taken = cache.update(&bad);
    assert!(!taken[0]);
    assert!(!taken[2]);
    assert!(taken[1]);

    cache.reset().unwrap();
    assert_eq!(cache.seq_len(), 0);
    assert_eq!(cache.kv_caches[0].key_shape, vec![1, 8, 0, 64]);
    assert_eq!(cache.conv_caches.len(), 4);
}

#[test]
fn precision_names_and_suffixes() {
    assert_eq!(Precision::FP32.suffix(), "");
    assert_eq!(Precision::FP16.suffix(), "_fp16");
    assert_eq!(Precision::Q4.suffix(), "_q4");
    assert_eq!(Precision::Q8.as_str(), "q8");
    assert_eq!("FP32".parse::<Precision>().unwrap(), Precision::FP32);
    assert_eq!(Precision::parse("Q4").unwrap(), Precision::Q4);
    assert_eq!(
        Precision::parse("int8").unwrap_err(),
        "Unknown precision: int8".to_string()
    );
}

#[test]
fn layer_types_by_name() {
    assert_eq!(LayerType::from_name("conv"), Some(LayerType::Conv));
    assert_eq!(LayerType::from_name("full_attention"), Some(LayerType::FullAttention));
    assert_eq!(LayerType::from_name("Conv"), None);
}

#[test]
fn errors_display_their_kind() {
    assert_eq!(
        LFM2Error::ModelNotFound("x".to_string()).to_string(),
        "Model not found: x"
    );
    assert_eq!(LFM2Error::Cache("y".to_string()).to_string(), "Cache error: y");
    assert_eq!(
        LFM2Error::InvalidAudioFormat("z".to_string()).to_string(),
        "Invalid audio format: z"
    );
}

#[test]
fn special_tokens_from_tokenizer_config() {
    let json = r#"{"added_tokens_decoder": {
        "0": {"content": "<|pad|>"},
        "12": {"content": "<|audio_start|>"},
        "13": {"content": "<|im_end|>"},
        "+14": {"content": "<|text_end|>"},
        "x": {"content": "<|im_start|>"},
        "99": {"special": true}
    }}"#;
    let special = SpecialTokens::from_tokenizer_config(Some(json)).unwrap();
    assert_eq!(special.pad, 0);
    assert_eq!(special.audio_start, 12);
    assert_eq!(special.im_end, 13);
    assert_eq!(special.text_end, 14);
    assert_eq!(special.im_start, 6);
    assert_eq!(special.end_of_text, 2);

    let defaults = SpecialTokens::from_tokenizer_config(Some("{}")).unwrap();
    assert_eq!(defaults, SpecialTokens::default());
    assert_eq!(
        SpecialTokens::from_tokenizer_config(None).unwrap(),
        SpecialTokens::default()
    );
    match SpecialTokens::from_tokenizer_config(Some("{not json")) {
        Err(LFM2Error::Serialization(_)) => {}
        _ => panic!("expected a serialization error"),
    }
}

#[test]
fn decimal_numbers_parse_like_std() {
    assert_eq!(parse_u32("42"), Some(42));
    assert_eq!(parse_u32("+7"), Some(7));
    assert_eq!(parse_u32("4294967295"), Some(u32::MAX));
    assert_eq!(parse_u32("4294967296"), None);
    assert_eq!(parse_u32(""), None);
    assert_eq!(parse_u32("+"), None);
    assert_eq!(parse_u32("-1"), None);
    assert_eq!(parse_u32("1 "), None);
    assert_eq!(parse_usize("18"), Some(18));
    assert_eq!(parse_usize("007"), Some(7));
    let mut s = String::from("n=");
    push_decimal(&mut s, 90210);
    assert_eq!(s, "n=90210");
}

#[test]
fn prompts_open_and_close_turns() {
    assert_eq!(
        text_turn_prompt("Sys", "Hi", true),
        "<|startoftext|><|im_start|>system\nSys<|im_end|>\n<|im_start|>user\nHi<|im_end|>\n<|im_start|>assistant\n"
    );
    assert_eq!(
        text_turn_prompt("Sys", "Hi", false),
        "<|im_start|>user\nHi<|im_end|>\n<|im_start|>assistant\n"
    );
    assert_eq!(audio_turn_prefix("Sys", false), "<|im_start|>user\n");
}

#[test]
fn model_paths_follow_the_precision() {
    let paths = ModelPaths::from_dir("/models/lfm", Precision::Q4);
    assert_eq!(paths.audio_encoder, "/models/lfm/onnx/audio_encoder_q4.onnx");
    assert_eq!(paths.decoder, "/models/lfm/onnx/decoder_q4.onnx");
    assert_eq!(paths.depthformer, "/models/lfm/onnx/vocoder_depthformer_q4.onnx");
    assert_eq!(paths.audio_detokenizer, "/models/lfm/onnx/audio_detokenizer_q4.onnx");
    assert_eq!(paths.audio_embedding, "/models/lfm/onnx/audio_embedding_q4.onnx");
    let fp32 = ModelPaths::from_dir("models/", Precision::FP32);
    assert_eq!(fp32.decoder, "models/onnx/decoder.onnx");
}

#[test]
fn missing_models_are_reported_in_order() {
    let paths = ModelPaths::from_dir("/nonexistent/lfm2-model-dir", Precision::FP16);
    match paths.all_exist() {
        Err(LFM2Error::ModelNotFound(m)) => assert_eq!(
            m,
            "Required model audio_encoder not found at /nonexistent/lfm2-model-dir/onnx/audio_encoder_fp16.onnx"
        ),
        _ => panic!("expected a missing model"),
    }
    let loader = SessionLoader::new("/nonexistent/lfm2-model-dir", Precision::Q8, Device::CPU);
    assert_eq!(loader.precision, Precision::Q8);
    match loader.locate_model("audio_detokenizer") {
        Err(LFM2Error::ModelNotFound(m)) => assert_eq!(
            m,
            "audio_detokenizer_q8.onnx not found at /nonexistent/lfm2-model-dir/onnx/audio_detokenizer_q8.onnx"
        ),
        _ => panic!("expected a missing model"),
    }
    match loader.locate_decoder() {
        Err(LFM2Error::ModelNotFound(m)) => assert_eq!(
            m,
            "Decoder not found at /nonexistent/lfm2-model-dir/onnx/decoder_q8.onnx"
        ),
        _ => panic!("expected a missing decoder"),
    }
}

#[test]
fn paths_join_like_std() {
    assert_eq!(join_path("", "onnx"), "onnx");
    assert_eq!(join_path("/a/", "b"), "/a/b");
    assert_eq!(join_path("/a", "b"), "/a/b");
}

#[test]
fn embedding_rows_are_gathered_in_order() {
    let table = EmbeddingTable {
        weight: vec![0.0f32, 0.5, 1.0, 1.5, 2.0, 2.5],
        rows: 3,
        hidden_size: 2,
    };
    assert_eq!(table.lookup(1), &[1.0, 1.5]);
    assert_eq!(table.embed_sequence(&[2, 0, 2]), vec![2.0, 2.5, 0.0, 0.5, 2.0, 2.5]);
    assert!(table.embed_sequence(&[]).is_empty());
    assert_eq!(table.vocab_size(), 3);
    assert_eq!(table.hidden_size(), 2);
}

#[test]
fn audio_codes_select_one_row_per_codebook() {
    let rows = audio_code_rows(&[0, 1, 2, 3, 4, 5, 6, 2048], 2049);
    assert_eq!(rows, vec![0, 2050, 4100, 6150, 8200, 10250, 12300, 16391]);
}

#[test]
fn embedding_files_must_match_their_metadata() {
    assert!(check_table_bytes("embed_tokens.bin", 10, 4, 160).is_ok());
    match check_table_bytes("embed_tokens.bin", 10, 4, 100) {
        Err(LFM2Error::Embedding(m)) => assert_eq!(
            m,
            "embed_tokens.bin size mismatch: expected 160 bytes, got 100"
        ),
        _ => panic!("expected a size mismatch"),
    }
}

#[test]
fn asr_text_stops_at_end_of_sequence() {
    let special = SpecialTokens::default();
    let mut state = TextDecodeState::for_asr(special, 10);
    assert_eq!(state.on_token(500), TextStep::Feed(500));
    assert_eq!(state.on_token(128), TextStep::Feed(128));
    assert_eq!(state.on_token(special.im_end), TextStep::Stop);
    assert!(state.finished);
    assert_eq!(state.tokens, vec![500, 128]);
}

#[test]
fn tts_text_stops_at_audio_start_within_half_the_budget() {
    let special = SpecialTokens::default();
    let mut state = TextDecodeState::for_tts(special, 11);
    assert_eq!(state.limit, 5);
    assert_eq!(state.on_token(300), TextStep::Feed(300));
    assert_eq!(state.on_token(special.audio_start), TextStep::Stop);
    assert_eq!(state.tokens, vec![300]);
}

#[test]
fn tts_audio_stops_at_end_of_audio_and_feeds_clamped_codes() {
    let mut state = AudioCodeState::new(4);
    let fed = state.on_frame([1, 2, 3, 4, 5, 6, 7, 2048]).unwrap();
    assert_eq!(fed, [1, 2, 3, 4, 5, 6, 7, 2047]);
    assert_eq!(state.codes, vec![[1, 2, 3, 4, 5, 6, 7, 2048]]);
    assert!(state.on_frame([2048, 0, 0, 0, 0, 0, 0, 0]).is_none());
    assert!(state.finished);
    assert_eq!(state.codes.len(), 1);
}

#[test]
fn detokenizer_input_is_codebook_major() {
    let codes = vec![[0, 1, 2, 3, 4, 5, 6, 7], [10, 11, 12, 13, 14, 15, 16, 2048]];
    let input = detokenizer_input(&codes);
    assert_eq!(
        input,
        vec![0, 10, 1, 11, 2, 12, 3, 13, 4, 14, 5, 15, 6, 16, 7, 2047]
    );
}

#[test]
fn last_row_of_logits() {
    let data = vec![1, 2, 3, 4, 5, 6];
    assert_eq!(last_row(&data, 3, 2).unwrap(), vec![5, 6]);
    match last_row(&data, 4, 2) {
        Err(LFM2Error::Generation(m)) => assert_eq!(m, "Invalid logits shape"),
        _ => panic!("expected a shape error"),
    }
}

#[test]
fn interleaved_generation_alternates_modalities() {
    let special = SpecialTokens::default();
    let schedule = InterleavedSchedule::new(100, Some(2), Some(3), 6, 12, false);
    assert_eq!(schedule.n_text, 2);
    assert_eq!(schedule.n_audio, 3);
    let mut state = InterleavedState::new(schedule, special, 40);
    assert_eq!(state.on_text_token(1000), TextStep::Feed(1000));
    assert!(!state.in_audio_mode);
    assert_eq!(state.on_text_token(1001), TextStep::Feed(1001));
    // the text budget is spent: audio follows
    assert!(state.in_audio_mode);
    let step = state.on_audio_frame([5, 6, 7, 8, 9, 10, 11, 3000]);
    assert_eq!(step.emitted, Some([5, 6, 7, 8, 9, 10, 11, 2047]));
    assert_eq!(step.feed, [5, 6, 7, 8, 9, 10, 11, 2047]);
    let step = state.on_audio_frame([2048, 1, 1, 1, 1, 1, 1, 1]);
    assert_eq!(step.emitted, None);
    assert_eq!(step.feed, [2048; 8]);
    assert!(!state.in_audio_mode);
    assert_eq!(state.on_text_token(special.im_end), TextStep::Stop);
    assert_eq!(state.audio_codes.len(), 1);
    assert_eq!(state.text_tokens, vec![1000, 1001]);
    assert_eq!(state.finish(), 45);
}

#[test]
fn text_only_generation_stops_at_audio_start() {
    let special = SpecialTokens::default();
    let schedule = InterleavedSchedule::new(10, None, None, 6, 12, true);
    let mut state = InterleavedState::new(schedule, special, 0);
    assert_eq!(state.on_text_token(42), TextStep::Feed(42));
    assert_eq!(state.on_text_token(special.audio_start), TextStep::Stop);
    assert!(state.audio_codes.is_empty());
}

#[test]
fn modality_budgets_are_at_least_one() {
    assert_eq!(modality_budget(Some(0), 6), 1);
    assert_eq!(modality_budget(None, 6), 6);
    assert_eq!(clamp_audio_frame([2049; 8]), [2047; 8]);
}

#[test]
fn chat_needs_a_new_user_turn_before_responding() {
    let mut history: ChatHistory<Vec<f32>> = ChatHistory::new();
    assert!(history.plan().is_err());
    history.add_user_text("Hello".to_string());
    {
        let plan = history.plan().unwrap();
        assert!(plan.include_system_prompt);
        assert!(matches!(plan.input, ChatInput::Text(t) if t == "Hello"));
    }
    history.record_response("Hi!".to_string(), vec![0.1, 0.2], 2, 17);
    match history.plan() {
        Err(LFM2Error::Generation(m)) => assert_eq!(
            m,
            "Cannot generate a new assistant turn without a new user input"
        ),
        _ => panic!("expected a refusal"),
    }
    history.add_user_audio(vec![0.5; 4], 16000);
    {
        let plan = history.plan().unwrap();
        assert!(!plan.include_system_prompt);
        assert!(matches!(plan.input, ChatInput::Audio { sample_rate: 16000, .. }));
    }
    assert_eq!(history.history().len(), 3);
    assert!(matches!(&history.history()[1], Turn::Assistant { text, audio: Some(_) } if text == "Hi!"));
    history.reset();
    assert!(history.history().is_empty());
    match history.plan() {
        Err(LFM2Error::Generation(m)) => assert_eq!(
            m,
            "Cannot generate chat response without any user turns"
        ),
        _ => panic!("expected a refusal"),
    }
    let _unused = AssistantResponse::<Vec<f32>> {
        text: String::new(),
        audio: None,
    };
}

#[test]
fn streaming_decoder_emits_only_new_samples() {
    let mut state = StreamingDecodeState::new(StreamingDecodeConfig::new(2, 3));
    assert!(!state.push_frame([1; 8]));
    assert!(state.push_frame([2; 8]));
    assert_eq!(state.window().len(), 2);
    // first decode: everything is new
    assert_eq!(state.complete_decode(2 * 1920).unwrap(), Some((0, 3840)));
    assert_eq!(state.pending_frames(), 0);
    assert!(!state.push_frame([3; 8]));
    assert!(state.push_frame([4; 8]));
    // the window keeps the context frame plus the new ones
    assert_eq!(state.window().len(), 4);
    assert_eq!(state.complete_decode(4 * 1920).unwrap(), Some((3840, 7680)));
    // one frame beyond the context was dropped
    assert_eq!(state.window().len(), 3);
    assert!(!state.finish());
    state.push_frame([5; 8]);
    assert!(state.finish());
    let err = state.complete_decode(1000).unwrap_err();
    assert_eq!(err.message, "streaming detokenizer produced no new waveform tail");
}

#[test]
fn streaming_decoder_emits_every_frame_once_across_a_stream() {
    // batches of three frames, four frames of context
    let mut state = StreamingDecodeState::new(StreamingDecodeConfig::new(3, 4));
    let mut emitted = 0usize;
    let mut pushed = 0usize;
    for batch in 0..10u16 {
        for i in 0..3u16 {
            let decode_now = state.push_frame([batch * 3 + i; 8]);
            pushed += 1;
            assert_eq!(decode_now, i == 2);
        }
        let window = state.window().len();
        assert!(window <= 4 + 3);
        if let Some((start, end)) = state.complete_decode(window * 1920).unwrap() {
            assert_eq!(end - start, 3 * 1920);
            emitted += end - start;
        }
        assert_eq!(state.pending_frames(), 0);
        assert_eq!(state.last_emitted_samples, state.window().len() * 1920);
    }
    assert_eq!(emitted, pushed * 1920);
}

#[test]
fn the_first_absent_model_is_reported() {
    let paths = ModelPaths::from_dir("/m", Precision::FP32);
    assert!(paths.report_missing([true, true, true, true]).is_ok());
    match paths.report_missing([true, false, false, true]) {
        Err(LFM2Error::ModelNotFound(m)) => {
            assert_eq!(m, "Required model decoder not found at /m/onnx/decoder.onnx")
        }
        _ => panic!("expected the decoder to be reported"),
    }
    match paths.report_missing([true, true, true, false]) {
        Err(LFM2Error::ModelNotFound(m)) => assert_eq!(
            m,
            "Required model audio_detokenizer not found at /m/onnx/audio_detokenizer.onnx"
        ),
        _ => panic!("expected the detokenizer to be reported"),
    }
}

#[test]
fn precision_parses_through_from_str() {
    let p: Precision = "FP16".parse().unwrap();
    assert_eq!(p, Precision::FP16);
    let e = "int4".parse::<Precision>().unwrap_err();
    assert_eq!(e, "Unknown precision: int4");
}

#[test]
fn session_table_keeps_sessions_apart() {
    let mut table: SessionTable<Vec<f32>, u32> = SessionTable::new();
    table.start(1, "Be brief.".to_string(), 10);
    table.start(2, "Be verbose.".to_string(), 20);
    let mut first = table.take_for_turn(1, || 99);
    assert_eq!(first.prompt, "Be brief.");
    assert_eq!(first.cache, 10);
    first.history.add_user_text("hello".to_string());
    table.restore(1, first);
    assert!(table.contains(2));
    let second = table.take_for_turn(2, || 99);
    assert_eq!(second.history.turns.len(), 0);
    assert_eq!(second.prompt, "Be verbose.");
    table.restore(2, second);
    let unknown = table.take_for_turn(3, || 30);
    assert_eq!(unknown.prompt, "Respond with interleaved text and audio.");
    assert_eq!(unknown.cache, 30);
    assert_eq!(unknown.history.turns.len(), 0);
    table.restore(3, unknown);
    let r: Result<(), String> = table.reset(1, || Ok(11));
    assert!(r.is_ok());
    let first = table.take_for_turn(1, || 99);
    assert_eq!(first.history.turns.len(), 0);
    assert_eq!(first.prompt, "Be brief.");
    assert_eq!(first.cache, 11);
    table.restore(1, first);
    let failed: Result<(), String> = table.reset(2, || Err("no cache".to_string()));
    assert_eq!(failed, Err("no cache".to_string()));
    table.close(2);
    assert!(!table.contains(2));
    assert!(table.contains(1));
    assert!(table.contains(3));
}

#[test]
fn detokenizer_input_clamps_out_of_range_codes() {
    let codes = vec![[2048u16, 5, 4000, 7, 2047, 0, 1, 2]];
    let clamped = vec![[2047u16, 5, 2047, 7, 2047, 0, 1, 2]];
    assert_eq!(detokenizer_input(&codes), detokenizer_input(&clamped));
}

#[test]
fn precision_names_round_trip() {
    for p in [Precision::FP32, Precision::FP16, Precision::Q4, Precision::Q8] {
        assert_eq!(Precision::parse(p.as_str()).unwrap(), p);
        assert_eq!(p.as_str().to_uppercase().parse::<Precision>().unwrap(), p);
    }
}

#[test]
fn session_history_lasts_until_close() {
    let mut table: SessionTable<Vec<f32>, u32> = SessionTable::new();
    table.start(7, "Be brief.".to_string(), 1);
    for text in ["t1", "t2"] {
        let mut e = table.take_for_turn(7, || 99);
        e.history.add_user_text(text.to_string());
        e.history.record_response(format!("re {}", text), vec![], 0, 10);
        table.restore(7, e);
    }
    let e = table.take_for_turn(7, || 99);
    assert_eq!(e.prompt, "Be brief.");
    assert_eq!(e.history.turns.len(), 4);
    assert!(matches!(&e.history.turns[0], Turn::UserText(t) if t == "t1"));
    assert!(matches!(&e.history.turns[2], Turn::UserText(t) if t == "t2"));
    assert!(matches!(&e.history.turns[3], Turn::Assistant { audio: None, .. }));
    table.restore(7, e);
    table.close(7);
    let mut e = table.take_for_turn(7, || 5);
    assert_eq!(e.prompt, "Respond with interleaved text and audio.");
    assert_eq!(e.history.turns.len(), 0);
    assert_eq!(e.cache, 5);
    e.history.add_user_text("t3".to_string());
    e.history.record_response("re t3".to_string(), vec![0.5], 1, 3);
    assert!(matches!(&e.history.turns[1], Turn::Assistant { audio: Some(a), .. } if a.len() == 1));
    table.restore(7, e);
}

#[test]
fn response_audio_keeps_only_samples() {
    assert_eq!(response_audio(vec![1.0f32], 1), Some(vec![1.0f32]));
    assert_eq!(response_audio(Vec::<f32>::new(), 0), None);
}

#[test]
fn interleaved_budget_may_be_unlimited() {
    let schedule = InterleavedSchedule::new(usize::MAX, Some(2), Some(3), 6, 12, false);
    let state = InterleavedState::new(schedule, SpecialTokens::default(), 40);
    assert!(state.can_continue());
    let near_end = InterleavedState::new(schedule, SpecialTokens::default(), usize::MAX - 2);
    assert!(!near_end.can_continue());
}
