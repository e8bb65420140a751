use lfm2_audio::chat::AssistantResponse;
use lfm2_audio::config::{Device, Precision};
use lfm2_audio::server::{DevicePreference, PendingAudioTurn, DEFAULT_SYSTEM_PROMPT_INTERLEAVED};
use lfm2_audio::settings::{AddressChecks, ServerConfig, ServerEnv, DEFAULT_BIND_ADDR, DEFAULT_MODEL_DIR};
use lfm2_audio::streaming::{chunk_playback_duration, QueuedAudioChunk};
use lfm2_audio::websocket::{
    assistant_turn_from_response, attach_transcript, dispatch_client_message, handle_client_message,
    chunk_header, turn_messages, Dispatch,
    AssistantRelay, AssistantTurn, ClientMessage, Phase, ServerMessage, SessionAction,
    SessionRouter,
};

fn empty_env() -> ServerEnv {
    ServerEnv {
        model_path: None,
        bind_addr: None,
        precision: None,
        device: None,
        cpu_workers: None,
        stream_batch_frames: None,
        stream_context_frames: None,
        interleaved_n_text: None,
        interleaved_n_audio: None,
        interleaved_log_path: None,
    }
}

fn args(list: &[&str]) -> Vec<String> {
    list.iter().map(|s| s.to_string()).collect()
}

/// Every address reads well.
fn readable(list: &[String]) -> AddressChecks {
    AddressChecks { env_bind_addr: true, args: vec![true; list.len()] }
}

fn settings(env: &ServerEnv, static_dir: &str, list: &[&str]) -> Result<ServerConfig, String> {
    let a = args(list);
    ServerConfig::from_env_and_args(env, static_dir, &a, &readable(&a))
}

#[test]
fn settings_default_without_environment_or_arguments() {
    let c = settings(&empty_env(), "/srv/static", &[]).unwrap();
    assert_eq!(c.model_path, DEFAULT_MODEL_DIR);
    assert_eq!(c.static_dir, "/srv/static");
    assert_eq!(c.bind_addr, DEFAULT_BIND_ADDR);
    assert_eq!(c.precision, Precision::Q4);
    assert_eq!(c.device_preference, DevicePreference::Auto);
    assert_eq!(c.cpu_workers, 1);
    assert_eq!(c.interleaved_n_text, None);
    assert_eq!(c.interleaved_n_audio, None);
    assert_eq!(c.stream_decode.batch_frames, 1);
    assert_eq!(c.stream_decode.context_frames, 16);
}

#[test]
fn settings_read_the_environment() {
    let mut env = empty_env();
    env.model_path = Some("/models/lfm".to_string());
    env.precision = Some("FP16".to_string());
    env.device = Some("Cuda".to_string());
    env.cpu_workers = Some("3".to_string());
    env.stream_batch_frames = Some("0".to_string());
    env.interleaved_n_text = Some("+6".to_string());
    env.interleaved_n_audio = Some("lots".to_string());
    let c = settings(&env, "static", &[]).unwrap();
    assert_eq!(c.model_path, "/models/lfm");
    assert_eq!(c.precision, Precision::FP16);
    assert_eq!(c.device_preference, DevicePreference::Specific(Device::Cuda));
    assert_eq!(c.cpu_workers, 3);
    assert_eq!(c.stream_decode.batch_frames, 1);
    assert_eq!(c.interleaved_n_text, Some(6));
    assert_eq!(c.interleaved_n_audio, None);
}

#[test]
fn settings_ignore_an_unparsable_worker_count_in_the_environment() {
    let mut env = empty_env();
    env.cpu_workers = Some("-2".to_string());
    let c = settings(&env, "static", &[]).unwrap();
    assert_eq!(c.cpu_workers, 1);
}

#[test]
fn settings_report_a_bad_environment_precision_first() {
    let mut env = empty_env();
    env.precision = Some("int3".to_string());
    env.device = Some("tpu".to_string());
    let err = settings(&env, "static", &[]).err().unwrap();
    assert_eq!(err, "Unknown precision: int3");
    env.precision = None;
    let err = settings(&env, "static", &[]).err().unwrap();
    assert_eq!(err, "unknown device: tpu");
}

#[test]
fn arguments_override_the_environment() {
    let mut env = empty_env();
    env.model_path = Some("/env/model".to_string());
    env.cpu_workers = Some("8".to_string());
    let c = settings(&env, "static", &[
            "--model",
            "/cli/model",
            "--static-dir",
            "/cli/static",
            "--bind",
            "0.0.0.0:9000",
            "--precision",
            "q8",
            "--device",
            "CPU",
            "--cpu-workers",
            "2",
            "--stream-batch-frames",
            "4",
            "--stream-context-frames",
            "32",
            "--interleaved-n-text",
            "5",
            "--interleaved-n-audio",
            "7",
        ])
    .unwrap();
    assert_eq!(c.model_path, "/cli/model");
    assert_eq!(c.static_dir, "/cli/static");
    assert_eq!(c.bind_addr, "0.0.0.0:9000");
    assert_eq!(c.precision, Precision::Q8);
    assert_eq!(c.device_preference, DevicePreference::Specific(Device::CPU));
    assert_eq!(c.cpu_workers, 2);
    assert_eq!(c.stream_decode.batch_frames, 4);
    assert_eq!(c.stream_decode.context_frames, 32);
    assert_eq!(c.interleaved_n_text, Some(5));
    assert_eq!(c.interleaved_n_audio, Some(7));
}

#[test]
fn argument_errors_name_the_flag() {
    let env = empty_env();
    let err = settings(&env, "s", &["--verbose"]).err().unwrap();
    assert_eq!(err, "unknown argument: --verbose");
    let err = settings(&env, "s", &["--model"]).err().unwrap();
    assert_eq!(err, "missing value for --model");
    let err = settings(&env, "s", &["--cpu-workers", "two"])
        .err()
        .unwrap();
    assert_eq!(err, "invalid --cpu-workers value");
    let err = settings(&env, "s", &["--precision", "bf16"])
        .err()
        .unwrap();
    assert_eq!(err, "Unknown precision: bf16");
    let err = settings(&env, "s", &["--device", "NPU"])
        .err()
        .unwrap();
    assert_eq!(err, "unknown device: npu");
    // the first problem in argument order is reported
    let err = settings(&env, "s", &["--stream-batch-frames", "x", "--bogus"])
    .err()
    .unwrap();
    assert_eq!(err, "invalid --stream-batch-frames value");
}

#[test]
fn session_start_uses_the_default_prompt() {
    let mut pending = None;
    match handle_client_message(&mut pending, ClientMessage::SessionStart { system_prompt: None })
        .unwrap()
    {
        SessionAction::Start { system_prompt } => {
            assert_eq!(system_prompt, DEFAULT_SYSTEM_PROMPT_INTERLEAVED)
        }
        other => panic!("unexpected action {:?}", other),
    }
    match handle_client_message(
        &mut pending,
        ClientMessage::SessionStart {
            system_prompt: Some("Be brief.".to_string()),
        },
    )
    .unwrap()
    {
        SessionAction::Start { system_prompt } => assert_eq!(system_prompt, "Be brief."),
        other => panic!("unexpected action {:?}", other),
    }
}

#[test]
fn blank_text_turns_are_refused() {
    let mut pending = None;
    let err = handle_client_message(
        &mut pending,
        ClientMessage::UserText {
            text: " \n\t".to_string(),
        },
    )
    .unwrap_err();
    assert_eq!(err.status, 400);
    assert_eq!(err.message, "text turn must not be empty");
    match handle_client_message(
        &mut pending,
        ClientMessage::UserText {
            text: "hi".to_string(),
        },
    )
    .unwrap()
    {
        SessionAction::Text { text } => assert_eq!(text, "hi"),
        other => panic!("unexpected action {:?}", other),
    }
}

#[test]
fn audio_turn_is_recorded_then_decoded() {
    let mut pending: Option<PendingAudioTurn> = None;
    let err = handle_client_message(
        &mut pending,
        ClientMessage::UserAudioStart {
            sample_rate: 16000,
            format: "opus".to_string(),
            channels: 1,
        },
    )
    .unwrap_err();
    assert_eq!(err.status, 415);
    assert_eq!(err.message, "only pcm_s16le is supported for websocket audio");
    let err = handle_client_message(
        &mut pending,
        ClientMessage::UserAudioStart {
            sample_rate: 16000,
            format: "pcm_s16le".to_string(),
            channels: 2,
        },
    )
    .unwrap_err();
    assert_eq!(err.status, 415);
    assert_eq!(err.message, "only mono websocket audio is supported");
    assert!(pending.is_none());

    let action = handle_client_message(
        &mut pending,
        ClientMessage::UserAudioStart {
            sample_rate: 16000,
            format: "pcm_s16le".to_string(),
            channels: 1,
        },
    )
    .unwrap();
    assert!(matches!(action, SessionAction::Recording));
    assert_eq!(pending.as_ref().unwrap().sample_rate, 16000);
    pending.as_mut().unwrap().bytes.extend_from_slice(&[0x10, 0x00, 0xf0, 0xff]);

    match handle_client_message(
        &mut pending,
        ClientMessage::UserAudioEnd {
            text_prompt: Some("What did I say?".to_string()),
            include_transcript: true,
        },
    )
    .unwrap()
    {
        SessionAction::Audio {
            samples,
            sample_rate,
            text_prompt,
            include_transcript,
        } => {
            assert_eq!(samples, vec![16, -16]);
            assert_eq!(sample_rate, 16000);
            assert_eq!(text_prompt.as_deref(), Some("What did I say?"));
            assert!(include_transcript);
        }
        other => panic!("unexpected action {:?}", other),
    }
    assert!(pending.is_none());
}

#[test]
fn audio_end_errors_drop_the_turn() {
    let mut pending: Option<PendingAudioTurn> = None;
    let end = || ClientMessage::UserAudioEnd {
        text_prompt: None,
        include_transcript: false,
    };
    let err = handle_client_message(&mut pending, end()).unwrap_err();
    assert_eq!(err.message, "received user.audio.end without user.audio.start");

    pending = Some(PendingAudioTurn {
        sample_rate: 8000,
        bytes: Vec::new(),
    });
    let err = handle_client_message(&mut pending, end()).unwrap_err();
    assert_eq!(err.status, 400);
    assert_eq!(err.message, "audio turn was empty");
    assert!(pending.is_none());

    pending = Some(PendingAudioTurn {
        sample_rate: 8000,
        bytes: vec![1, 2, 3],
    });
    let err = handle_client_message(&mut pending, end()).unwrap_err();
    assert_eq!(err.message, "pcm_s16le audio must have an even number of bytes");
    assert!(pending.is_none());
}

#[test]
fn reset_drops_the_turn_and_ping_keeps_it() {
    let mut pending = Some(PendingAudioTurn {
        sample_rate: 8000,
        bytes: vec![1, 2],
    });
    assert!(matches!(
        handle_client_message(&mut pending, ClientMessage::Ping).unwrap(),
        SessionAction::Pong
    ));
    assert!(pending.is_some());
    assert!(matches!(
        handle_client_message(&mut pending, ClientMessage::SessionReset).unwrap(),
        SessionAction::Reset
    ));
    assert!(pending.is_none());
}

#[test]
fn turn_messages_include_only_a_real_transcript() {
    let response = AssistantResponse::<Vec<f32>> {
        text: "Hello!".to_string(),
        audio: None,
    };
    let mut turn = assistant_turn_from_response(response, None).unwrap();
    let msgs = turn_messages(&turn);
    assert_eq!(msgs.len(), 1);
    assert!(matches!(&msgs[0], ServerMessage::AssistantTextDone { text } if text == "Hello!"));

    attach_transcript(&mut turn, Some("   ".to_string()));
    assert!(turn.user_transcript.is_none());
    attach_transcript(&mut turn, Some("hi there".to_string()));
    assert_eq!(turn.user_transcript.as_deref(), Some("hi there"));
    let msgs = turn_messages(&turn);
    assert_eq!(msgs.len(), 2);
    assert!(matches!(&msgs[0], ServerMessage::UserTranscript { text } if text == "hi there"));
    assert!(matches!(&msgs[1], ServerMessage::AssistantTextDone { text } if text == "Hello!"));

    let blank = AssistantTurn {
        user_transcript: Some("\t".to_string()),
        text: "ok".to_string(),
    };
    assert_eq!(turn_messages(&blank).len(), 1);
}

#[test]
fn sessions_keep_their_worker_until_closed() {
    let mut router = SessionRouter::new(3);
    assert_eq!(router.session_worker_index(10), 0);
    assert_eq!(router.session_worker_index(11), 1);
    assert_eq!(router.session_worker_index(10), 0);
    assert_eq!(router.next_worker_index(), 2);
    assert_eq!(router.session_worker_index(12), 0);
    assert_eq!(router.close_session_worker(10), Some(0));
    assert_eq!(router.close_session_worker(10), None);
    assert_eq!(router.session_worker_index(10), 1);
}

fn chunk(index: usize, samples: usize) -> QueuedAudioChunk<u64> {
    QueuedAudioChunk {
        bytes: vec![0u8; samples * 2],
        chunk_index: index,
        frame_index: index,
        frame_elapsed_ms: 0,
        frame_gap_ms: 0,
        decode_elapsed_ms: 0,
        backend: "onnx",
        produced_at: 0,
    }
}

#[test]
fn relay_announces_the_reply_once_and_paces_audio() {
    let now: u64 = 1_000_000;
    let mut relay: AssistantRelay<u64> = AssistantRelay::new();
    assert!(relay.accepts_events());
    assert!(!relay.is_done());

    let msgs = relay.on_text("He".to_string());
    assert_eq!(msgs.len(), 2);
    assert!(matches!(msgs[0], ServerMessage::Status { phase: Phase::Responding }));
    assert!(matches!(&msgs[1], ServerMessage::AssistantTextDelta { text } if text == "He"));
    let msgs = relay.on_text("Hello".to_string());
    assert_eq!(msgs.len(), 1);

    for i in 1..=3 {
        assert!(relay.on_audio(chunk(i, 1920), now).is_empty());
    }
    // the startup queue holds four chunks
    assert_eq!(relay.wake_delay(now), None);
    relay.on_audio(chunk(4, 1920), now);
    assert_eq!(relay.wake_delay(now), Some(0));

    let first = relay.take_due_chunk().unwrap();
    assert_eq!(first.chunk.chunk_index, 1);
    assert!(matches!(
        first.audio_start,
        Some(ServerMessage::AssistantAudioStart {
            sample_rate: 24000,
            channels: 1,
            chunk_samples: 1920,
            ..
        })
    ));
    relay.chunk_sent(now, 1920);
    assert_eq!(relay.wake_delay(now), Some(chunk_playback_duration(1920)));

    let second = relay.take_due_chunk().unwrap();
    assert_eq!(second.chunk.chunk_index, 2);
    assert!(second.audio_start.is_none());
    relay.chunk_sent(now, 1920);

    relay.on_stream_end(now);
    assert!(!relay.accepts_events());
    assert!(!relay.is_done());
    relay.take_due_chunk().unwrap();
    relay.take_due_chunk().unwrap();
    assert!(relay.take_due_chunk().is_none());
    assert!(relay.is_done());
    assert!(matches!(relay.finish(), Some(ServerMessage::AssistantAudioEnd)));
}

#[test]
fn relay_without_audio_sends_no_audio_end() {
    let mut relay: AssistantRelay<u64> = AssistantRelay::new();
    relay.on_stream_end(0);
    assert!(relay.is_done());
    assert!(relay.finish().is_none());
    assert!(!relay.saw_event);
}

#[test]
fn relay_flushes_a_short_reply_when_the_stream_ends() {
    let mut relay: AssistantRelay<u64> = AssistantRelay::new();
    let msgs = relay.on_audio(chunk(1, 960), 50);
    assert!(matches!(msgs[0], ServerMessage::Status { phase: Phase::Responding }));
    assert_eq!(relay.wake_delay(50), None);
    relay.on_stream_end(60);
    assert_eq!(relay.wake_delay(50), Some(10));
}

#[test]
fn phase_names() {
    assert_eq!(Phase::Listening.as_str(), "listening");
    assert_eq!(Phase::Recording.as_str(), "recording");
    assert_eq!(Phase::Processing.as_str(), "processing");
    assert_eq!(Phase::Responding.as_str(), "responding");
}

#[test]
fn readme_command_line_is_accepted() {
    let c = settings(&empty_env(), "s", &["./models/LFM2.5-Audio-1.5B-ONNX", "--port", "8080"])
    .unwrap();
    assert_eq!(c.model_path, "./models/LFM2.5-Audio-1.5B-ONNX");
    assert_eq!(c.bind_addr, "127.0.0.1:8080");
    let c = settings(&empty_env(), "s", &["./models/m", "--interleaved-log", "./logs/interleaved.ndjson", "--port", "9000"])
    .unwrap();
    assert_eq!(c.model_path, "./models/m");
    assert_eq!(c.bind_addr, "127.0.0.1:9000");
    assert_eq!(c.interleaved_log_path.as_deref(), Some("./logs/interleaved.ndjson"));
}

#[test]
fn port_replaces_the_bind_address_port() {
    let mut env = empty_env();
    env.bind_addr = Some("0.0.0.0:3000".to_string());
    env.interleaved_log_path = Some("/tmp/trace.ndjson".to_string());
    let c = settings(&env, "s", &["--port", "443"]).unwrap();
    assert_eq!(c.bind_addr, "0.0.0.0:443");
    assert_eq!(c.interleaved_log_path.as_deref(), Some("/tmp/trace.ndjson"));
    let c = settings(&env, "s", &["--bind", "[::1]:80", "--port", "8081"])
        .unwrap();
    assert_eq!(c.bind_addr, "[::1]:8081");
    let err = settings(&env, "s", &["--port", "70000"]).err().unwrap();
    assert_eq!(err, "invalid --port value");
    let c = settings(&env, "s", &[]).unwrap();
    assert_eq!(c.bind_addr, "0.0.0.0:3000");
}

#[test]
fn audio_turn_workers_split_the_transcript() {
    let mut router = SessionRouter::new(3);
    let (w, t) = router.audio_turn_workers(7, true);
    assert_eq!(w, 0);
    assert_eq!(t, Some(1));
    let (w, t) = router.audio_turn_workers(7, false);
    assert_eq!(w, 0);
    assert_eq!(t, None);
    let (w, t) = router.audio_turn_workers(8, true);
    assert_eq!(w, 1);
    assert_eq!(t, Some(2));
    let mut single = SessionRouter::new(1);
    assert_eq!(single.audio_turn_workers(1, true), (0, Some(0)));
}

#[test]
fn unreadable_bind_addresses_fail_where_they_appear() {
    let mut env = empty_env();
    env.bind_addr = Some("not-an-address".to_string());
    env.precision = Some("int3".to_string());
    let a = args(&[]);
    let checks = AddressChecks { env_bind_addr: false, args: vec![] };
    let err = ServerConfig::from_env_and_args(&env, "s", &a, &checks).err().unwrap();
    assert_eq!(err, "invalid bind address");

    let a = args(&["--bind", "nowhere", "--bogus"]);
    let checks = AddressChecks { env_bind_addr: true, args: vec![false, false, false] };
    let err = ServerConfig::from_env_and_args(&empty_env(), "s", &a, &checks).err().unwrap();
    assert_eq!(err, "invalid --bind socket address");

    let a = args(&["--bogus", "--bind", "nowhere"]);
    let checks = AddressChecks { env_bind_addr: true, args: vec![false, false, false] };
    let err = ServerConfig::from_env_and_args(&empty_env(), "s", &a, &checks).err().unwrap();
    assert_eq!(err, "unknown argument: --bogus");
}

#[test]
fn audio_turn_and_transcript_go_to_different_workers() {
    let mut router = SessionRouter::new(2);
    let mut pending: Option<PendingAudioTurn> = None;
    let (action, d) = dispatch_client_message(
        &mut router,
        5,
        &mut pending,
        ClientMessage::UserAudioStart { sample_rate: 16000, format: "pcm_s16le".to_string(), channels: 1 },
    )
    .unwrap();
    assert!(matches!(action, SessionAction::Recording));
    assert_eq!(d, Dispatch { worker: None, transcript_worker: None });
    pending.as_mut().unwrap().bytes.extend_from_slice(&[1, 0, 2, 0]);
    let (action, d) = dispatch_client_message(
        &mut router,
        5,
        &mut pending,
        ClientMessage::UserAudioEnd { text_prompt: None, include_transcript: true },
    )
    .unwrap();
    match action {
        SessionAction::Audio { samples, sample_rate, include_transcript, .. } => {
            assert_eq!(samples, vec![1, 2]);
            assert_eq!(sample_rate, 16000);
            assert!(include_transcript);
        }
        _ => panic!("expected an audio turn"),
    }
    assert_eq!(d, Dispatch { worker: Some(0), transcript_worker: Some(1) });
    let (_, d) = dispatch_client_message(&mut router, 5, &mut pending, ClientMessage::SessionReset).unwrap();
    assert_eq!(d, Dispatch { worker: Some(0), transcript_worker: None });
    let (_, d) = dispatch_client_message(
        &mut router,
        6,
        &mut pending,
        ClientMessage::UserText { text: "hi".to_string() },
    )
    .unwrap();
    assert_eq!(d, Dispatch { worker: Some(1), transcript_worker: None });
    let err = dispatch_client_message(
        &mut router,
        7,
        &mut pending,
        ClientMessage::UserText { text: "  ".to_string() },
    )
    .err()
    .unwrap();
    assert_eq!(err.message, "text turn must not be empty");
    let (_, d) = dispatch_client_message(&mut router, 7, &mut pending, ClientMessage::Ping).unwrap();
    assert_eq!(d, Dispatch { worker: None, transcript_worker: None });
}

#[test]
fn chunk_header_announces_the_chunk() {
    let mut c = chunk(4, 480);
    c.frame_index = 9;
    c.frame_elapsed_ms = 120;
    c.frame_gap_ms = 80;
    c.decode_elapsed_ms = 15;
    match chunk_header(&c, 33) {
        ServerMessage::AssistantAudioChunk {
            chunk_index,
            frame_index,
            frame_elapsed_ms,
            frame_gap_ms,
            decode_elapsed_ms,
            queue_wait_ms,
            chunk_samples,
            backend,
        } => {
            assert_eq!(chunk_index, 4);
            assert_eq!(frame_index, 9);
            assert_eq!(frame_elapsed_ms, 120);
            assert_eq!(frame_gap_ms, 80);
            assert_eq!(decode_elapsed_ms, 15);
            assert_eq!(queue_wait_ms, 33);
            assert_eq!(chunk_samples, 480);
            assert_eq!(backend, "onnx");
        }
        _ => panic!("expected an audio chunk header"),
    }
}

#[test]
fn relay_send_fits_the_clock() {
    let relay: AssistantRelay<u64> = AssistantRelay::new();
    assert!(relay.chunk_send_fits(0, 480));
    assert!(!relay.chunk_send_fits(0, usize::MAX));
}
