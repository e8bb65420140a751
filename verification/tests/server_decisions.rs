use lfm2_audio::config::Device;
use lfm2_audio::server::{
    background_worker_index, effective_worker_count, encode_pcm_s16le_bytes,
    handle_binary_audio, parse_device_preference, pcm_s16le_bytes_to_samples,
    choose_device, resolve_device, resolve_tts_system_prompt, speech_request_limits,
    validate_wav_content_type, worker_for_request, EnabledProviders,
    ApiError, AutoDetectRuntime, DevicePreference, PendingAudioTurn, StreamingDecodeConfig,
    MAX_BINARY_AUDIO_BYTES,
};
use lfm2_audio::streaming::{chunk_playback_duration, AudioOutputPacer, OutputQueueConfig};

#[test]
fn cpu_workers_follow_requested_count() {
    assert_eq!(effective_worker_count(Device::CPU, 4), 4);
}

#[test]
fn gpu_workers_are_forced_to_one() {
    assert_eq!(effective_worker_count(Device::Cuda, 4), 1);
}

#[test]
fn parse_device_preference_accepts_auto() {
    assert!(matches!(
        parse_device_preference("auto").expect("auto should parse"),
        DevicePreference::Auto
    ));
}

#[test]
fn background_worker_prefers_a_different_worker_when_available() {
    assert_eq!(background_worker_index(0, 2), 1);
    assert_eq!(background_worker_index(1, 2), 0);
    assert_eq!(background_worker_index(0, 1), 0);
}

#[test]
fn audio_output_pacer_waits_for_startup_queue_before_first_release() {
    let start: u64 = 1_000_000_000;
    let mut pacer = AudioOutputPacer::new(OutputQueueConfig::new(4));

    pacer.enqueue(start);
    pacer.enqueue(start);
    pacer.enqueue(start);
    assert_eq!(pacer.next_wake_delay(start), None);

    pacer.enqueue(start);
    assert_eq!(pacer.next_wake_delay(start), Some(0));

    pacer.release_one(start, chunk_playback_duration(1920));
    assert_eq!(
        pacer.next_wake_delay(start),
        Some(chunk_playback_duration(1920))
    );
}

#[test]
fn audio_output_pacer_flushes_immediately_when_stream_ends_early() {
    let start: u64 = 1_000_000_000;
    let mut pacer = AudioOutputPacer::new(OutputQueueConfig::new(4));

    pacer.enqueue(start);
    pacer.enqueue(start);
    assert_eq!(pacer.next_wake_delay(start), None);

    pacer.finish_input(start);
    assert_eq!(pacer.next_wake_delay(start), Some(0));
}

#[test]
fn audio_output_pacer_restarts_after_queue_drains() {
    let start: u64 = 1_000_000_000;
    let mut pacer = AudioOutputPacer::new(OutputQueueConfig::new(4));

    for _ in 0..4 {
        pacer.enqueue(start);
    }
    pacer.release_one(start, chunk_playback_duration(1920));
    pacer.release_one(start, chunk_playback_duration(1920));
    pacer.release_one(start, chunk_playback_duration(1920));
    pacer.release_one(start, chunk_playback_duration(1920));
    assert_eq!(pacer.next_wake_delay(start), None);

    pacer.enqueue(start);
    assert_eq!(pacer.next_wake_delay(start), Some(0));
}

#[test]
fn chunk_playback_duration_is_eighty_ms_per_frame() {
    assert_eq!(chunk_playback_duration(1920), 80_000_000);
    assert_eq!(chunk_playback_duration(24_000), 1_000_000_000);
    assert_eq!(chunk_playback_duration(0), 0);
    // one sample lasts 41 666.67 ns, rounded to the nearest nanosecond
    assert_eq!(chunk_playback_duration(1), 41_667);
}

#[test]
fn pacer_releases_no_faster_than_playback() {
    let start: u64 = 5_000_000_000;
    let mut pacer = AudioOutputPacer::new(OutputQueueConfig::new(1));
    pacer.enqueue(start);
    pacer.enqueue(start);
    pacer.enqueue(start);
    assert_eq!(pacer.next_wake_delay(start), Some(0));
    let d = chunk_playback_duration(1920);
    pacer.release_one(start, d);
    assert_eq!(pacer.next_wake_delay(start), Some(d));
    // released late: the next one is due a full chunk after now
    let late = start + 3 * d;
    pacer.release_one(late, d);
    assert_eq!(pacer.next_wake_delay(late), Some(d));
}

#[test]
fn output_queue_config_needs_at_least_one_chunk() {
    assert_eq!(OutputQueueConfig::new(0).startup_chunks, 1);
    assert_eq!(OutputQueueConfig::new(4).startup_chunks, 4);
}

#[test]
fn parse_device_preference_ignores_case_and_reports_unknown() {
    assert_eq!(
        parse_device_preference("CUDA").unwrap(),
        DevicePreference::Specific(Device::Cuda)
    );
    assert_eq!(
        parse_device_preference("TensorRT").unwrap(),
        DevicePreference::Specific(Device::TensorRT)
    );
    assert_eq!(
        parse_device_preference("GPU").unwrap_err(),
        "unknown device: gpu".to_string()
    );
}

#[test]
fn auto_preference_resolves_to_cpu() {
    let runtime = AutoDetectRuntime {
        nvidia_device_present: true,
        is_macos: false,
        is_windows: false,
    };
    assert_eq!(resolve_device(DevicePreference::Auto, runtime), Device::CPU);
    assert_eq!(
        resolve_device(DevicePreference::Specific(Device::CoreML), runtime),
        Device::CoreML
    );
}

#[test]
fn zero_requested_cpu_workers_still_runs_one() {
    assert_eq!(effective_worker_count(Device::CPU, 0), 1);
}

#[test]
fn requests_go_round_robin() {
    assert_eq!(worker_for_request(0, 3), 0);
    assert_eq!(worker_for_request(4, 3), 1);
    assert_eq!(worker_for_request(5, 3), 2);
}

#[test]
fn streaming_decode_window_is_at_least_one_frame() {
    let c = StreamingDecodeConfig::new(0, 0);
    assert_eq!(c.batch_frames, 1);
    assert_eq!(c.context_frames, 1);
    let c = StreamingDecodeConfig::new(2, 16);
    assert_eq!(c.batch_frames, 2);
    assert_eq!(c.context_frames, 16);
}

#[test]
fn binary_audio_needs_an_open_turn() {
    let mut pending: Option<PendingAudioTurn> = None;
    let err = handle_binary_audio(&mut pending, &[1, 2]).unwrap_err();
    assert_eq!(err.status, 400);
    assert_eq!(err.message, "received binary audio before user.audio.start");
    assert!(pending.is_none());
}

#[test]
fn binary_audio_is_appended_up_to_the_limit() {
    let mut pending = Some(PendingAudioTurn {
        sample_rate: 16000,
        bytes: vec![1, 2],
    });
    handle_binary_audio(&mut pending, &[3, 4]).unwrap();
    assert_eq!(pending.as_ref().unwrap().bytes, vec![1, 2, 3, 4]);

    let big = vec![0u8; MAX_BINARY_AUDIO_BYTES - 4];
    handle_binary_audio(&mut pending, &big).unwrap();
    assert_eq!(pending.as_ref().unwrap().bytes.len(), MAX_BINARY_AUDIO_BYTES);

    let err = handle_binary_audio(&mut pending, &[9]).unwrap_err();
    assert_eq!(err.status, 400);
    assert_eq!(err.message, "audio turn exceeds maximum size");
    assert_eq!(pending.as_ref().unwrap().bytes.len(), MAX_BINARY_AUDIO_BYTES);
}

#[test]
fn wav_content_types_are_checked_by_prefix() {
    assert!(validate_wav_content_type(None).is_ok());
    assert!(validate_wav_content_type(Some("audio/wav")).is_ok());
    assert!(validate_wav_content_type(Some("audio/x-wav; codecs=1")).is_ok());
    assert!(validate_wav_content_type(Some("application/octet-stream")).is_ok());
    let err: ApiError = validate_wav_content_type(Some("text/plain")).unwrap_err();
    assert_eq!(err.status, 415);
    assert_eq!(err.message, "unsupported content type: text/plain");
}

#[test]
fn pcm_bytes_decode_little_endian() {
    let samples = pcm_s16le_bytes_to_samples(&[0x01, 0x00, 0xff, 0xff, 0x00, 0x80, 0xff, 0x7f]).unwrap();
    assert_eq!(samples, vec![1, -1, -32768, 32767]);
    let err = pcm_s16le_bytes_to_samples(&[1, 2, 3]).unwrap_err();
    assert_eq!(err.status, 400);
    assert_eq!(err.message, "pcm_s16le audio must have an even number of bytes");
}

#[test]
fn pcm_encoding_round_trips() {
    let samples: Vec<i16> = vec![0, 1, -1, 12345, -32768, 32767];
    let bytes = encode_pcm_s16le_bytes(&samples);
    assert_eq!(bytes.len(), 12);
    assert_eq!(&bytes[0..6], &[0x00, 0x00, 0x01, 0x00, 0xff, 0xff]);
    assert_eq!(pcm_s16le_bytes_to_samples(&bytes).unwrap(), samples);
}

#[test]
fn tts_system_prompt_prefers_explicit_prompt() {
    assert_eq!(
        resolve_tts_system_prompt(Some("Speak softly."), Some("us_male")),
        "Speak softly."
    );
}

#[test]
fn tts_system_prompt_falls_back_to_voice() {
    assert_eq!(
        resolve_tts_system_prompt(Some("   "), None),
        "Perform TTS. Use the UK female voice."
    );
    assert_eq!(
        resolve_tts_system_prompt(None, Some("  US Male ")),
        "Perform TTS. Use the US male voice."
    );
    assert_eq!(
        resolve_tts_system_prompt(None, Some("uk_male")),
        "Perform TTS. Use the UK male voice."
    );
    assert_eq!(
        resolve_tts_system_prompt(None, Some("Scottish Baritone")),
        "Perform TTS. Use the scottish baritone voice."
    );
}

#[test]
fn voice_sentence_is_used_as_it_stands() {
    assert_eq!(
        resolve_tts_system_prompt(None, Some("Use the UK female voice.")),
        "Perform TTS. Use the UK female voice."
    );
    assert_eq!(
        resolve_tts_system_prompt(None, Some("  Speak like a pirate! ")),
        "Perform TTS. Speak like a pirate!"
    );
    assert_eq!(
        resolve_tts_system_prompt(None, Some("uk female")),
        "Perform TTS. Use the UK female voice."
    );
}

#[test]
fn speech_request_limits_default() {
    assert_eq!(speech_request_limits(None, None), (1024, 64));
    assert_eq!(speech_request_limits(Some(10), Some(3)), (10, 3));
}

#[test]
fn device_detection_follows_enabled_providers() {
    let machine = AutoDetectRuntime { nvidia_device_present: true, is_macos: false, is_windows: true };
    let none = EnabledProviders { cuda: false, coreml: false, directml: false };
    assert_eq!(choose_device(machine, none), Device::CPU);
    let cuda = EnabledProviders { cuda: true, coreml: false, directml: true };
    assert_eq!(choose_device(machine, cuda), Device::Cuda);
    let directml = EnabledProviders { cuda: false, coreml: true, directml: true };
    assert_eq!(choose_device(machine, directml), Device::DirectML);
    let mac = AutoDetectRuntime { nvidia_device_present: false, is_macos: true, is_windows: false };
    assert_eq!(choose_device(mac, directml), Device::CoreML);
}
