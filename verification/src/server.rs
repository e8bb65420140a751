//! Decisions of the demo server: device and worker selection, request
//! validation, the streaming detokenizer's windowing and the pacing of audio
//! chunks sent to the browser.
//!
//! Instants are nanoseconds on a monotonic clock and durations are
//! nanoseconds; the server converts its clock readings at the edge.

use vstd::prelude::*;

use crate::config::Device;
use crate::text::{
    ascii_lowercase, concat2, concat3, is_unicode_whitespace, owned, starts_with, str_eq,
    to_ascii_lowercase, trim, trim_end_spec, trim_start_spec, trimmed,
};

verus! {

pub const DEFAULT_SYSTEM_PROMPT_INTERLEAVED: &'static str = "Respond with interleaved text and audio.";

pub const MAX_BINARY_AUDIO_BYTES: usize = 8388608;

pub const STREAM_EVENT_CHANNEL_CAPACITY: usize = 64;

pub const STREAM_DECODE_BATCH_FRAMES: usize = 1;

pub const STREAM_DECODE_CONTEXT_FRAMES: usize = 16;

pub const STREAM_OUTPUT_QUEUE_CHUNKS: usize = 4;

/// Output samples produced per audio frame (80 ms at 24 kHz).
pub const SAMPLES_PER_FRAME: usize = 1920;

/// Output sample rate of the detokenizer.
pub const OUTPUT_SAMPLE_RATE_HZ: u64 = 24000;

#[derive(Debug, Clone, Copy, PartialEq, Eq, Structural)]
pub enum DevicePreference {
    Auto,
    Specific(Device),
}

/// The device named by a (lower-cased) preference string.
pub open spec fn device_preference_named(lower: Seq<char>) -> Option<DevicePreference> {
    if lower == "auto"@ {
        Some(DevicePreference::Auto)
    } else if lower == "cpu"@ {
        Some(DevicePreference::Specific(Device::CPU))
    } else if lower == "cuda"@ {
        Some(DevicePreference::Specific(Device::Cuda))
    } else if lower == "coreml"@ {
        Some(DevicePreference::Specific(Device::CoreML))
    } else if lower == "directml"@ {
        Some(DevicePreference::Specific(Device::DirectML))
    } else if lower == "tensorrt"@ {
        Some(DevicePreference::Specific(Device::TensorRT))
    } else {
        None
    }
}

/// Parse a device preference, ignoring ASCII case.
pub fn parse_device_preference(value: &str) -> (r: Result<DevicePreference, String>)
    ensures
        device_preference_named(ascii_lowercase(value@)) matches Some(p) ==> r == Ok::<
            DevicePreference,
            String,
        >(p),
        device_preference_named(ascii_lowercase(value@)) is None ==> (r matches Err(m) && m@
            == "unknown device: "@ + ascii_lowercase(value@)),
{
    let lower = to_ascii_lowercase(value);
    let l = lower.as_str();
    if str_eq(l, "auto") {
        Ok(DevicePreference::Auto)
    } else if str_eq(l, "cpu") {
        Ok(DevicePreference::Specific(Device::CPU))
    } else if str_eq(l, "cuda") {
        Ok(DevicePreference::Specific(Device::Cuda))
    } else if str_eq(l, "coreml") {
        Ok(DevicePreference::Specific(Device::CoreML))
    } else if str_eq(l, "directml") {
        Ok(DevicePreference::Specific(Device::DirectML))
    } else if str_eq(l, "tensorrt") {
        Ok(DevicePreference::Specific(Device::TensorRT))
    } else {
        Err(concat2("unknown device: ", l))
    }
}

/// What the server knows about the machine when choosing a device.
#[derive(Debug, Clone, Copy, PartialEq, Eq, Structural)]
pub struct AutoDetectRuntime {
    pub nvidia_device_present: bool,
    pub is_macos: bool,
    pub is_windows: bool,
}

/// The accelerator execution providers a build of the server enables.
#[derive(Debug, Clone, Copy, PartialEq, Eq, Structural)]
pub struct EnabledProviders {
    pub cuda: bool,
    pub coreml: bool,
    pub directml: bool,
}

/// The device chosen automatically: CUDA when it is enabled and an NVIDIA
/// device is present, else Core ML when it is enabled on macOS, else DirectML
/// when it is enabled on Windows, else the CPU.
pub open spec fn detected_device(runtime: AutoDetectRuntime, enabled: EnabledProviders) -> Device {
    if enabled.cuda && runtime.nvidia_device_present {
        Device::Cuda
    } else if enabled.coreml && runtime.is_macos {
        Device::CoreML
    } else if enabled.directml && runtime.is_windows {
        Device::DirectML
    } else {
        Device::CPU
    }
}

/// Choose a device for the machine among the enabled providers.
pub fn choose_device(runtime: AutoDetectRuntime, enabled: EnabledProviders) -> (d: Device)
    ensures
        d == detected_device(runtime, enabled),
{
    if enabled.cuda && runtime.nvidia_device_present {
        Device::Cuda
    } else if enabled.coreml && runtime.is_macos {
        Device::CoreML
    } else if enabled.directml && runtime.is_windows {
        Device::DirectML
    } else {
        Device::CPU
    }
}

/// The providers this crate is built with: none of the accelerators.
pub open spec fn build_providers_spec() -> EnabledProviders {
    EnabledProviders { cuda: false, coreml: false, directml: false }
}

/// The providers this crate is built with.
pub fn build_providers() -> (p: EnabledProviders)
    ensures
        p == build_providers_spec(),
{
    EnabledProviders { cuda: false, coreml: false, directml: false }
}

/// Choose a device automatically. An accelerator is chosen only in builds that
/// enable its execution provider; this crate enables none, so the CPU is
/// chosen whatever the machine offers.
pub fn auto_detect_device(runtime: AutoDetectRuntime) -> (d: Device)
    ensures
        d == detected_device(runtime, build_providers_spec()),
        d == Device::CPU,
{
    choose_device(runtime, build_providers())
}

pub fn resolve_device(preference: DevicePreference, runtime: AutoDetectRuntime) -> (d: Device)
    ensures
        preference matches DevicePreference::Specific(dev) ==> d == dev,
        preference is Auto ==> d == Device::CPU,
{
    match preference {
        DevicePreference::Auto => auto_detect_device(runtime),
        DevicePreference::Specific(device) => device,
    }
}

/// CPU inference runs as many workers as requested (at least one); an
/// accelerator is shared by a single worker.
pub fn effective_worker_count(device: Device, requested: usize) -> (n: usize)
    ensures
        n == (if device == Device::CPU {
            if requested < 1 {
                1
            } else {
                requested
            }
        } else {
            1
        }),
{
    match device {
        Device::CPU => if requested < 1 {
            1
        } else {
            requested
        },
        _ => 1,
    }
}

/// The worker for background work related to a session: the next worker
/// when there are several, else the session's own.
pub fn background_worker_index(primary_worker: usize, worker_count: usize) -> (w: usize)
    requires
        worker_count <= 1 || primary_worker < usize::MAX,
    ensures
        w == (if worker_count <= 1 {
            primary_worker as int
        } else {
            (primary_worker + 1) % (worker_count as int)
        }),
        worker_count > 1 ==> w < worker_count,
        worker_count > 1 && primary_worker < worker_count ==> w != primary_worker,
{
    if worker_count <= 1 {
        primary_worker
    } else {
        let w = (primary_worker + 1) % worker_count;
        proof {
            if primary_worker < worker_count {
                if primary_worker + 1 < worker_count {
                    vstd::arithmetic::div_mod::lemma_small_mod(
                        (primary_worker + 1) as nat,
                        worker_count as nat,
                    );
                } else {
                    vstd::arithmetic::div_mod::lemma_mod_self_0(worker_count as int);
                }
            }
        }
        w
    }
}

/// Round-robin choice of a worker from a request counter.
pub fn worker_for_request(counter: usize, worker_count: usize) -> (w: usize)
    requires
        worker_count > 0,
    ensures
        w == counter % worker_count,
        w < worker_count,
{
    counter % worker_count
}

#[derive(Debug, Clone, Copy, PartialEq, Eq, Structural)]
pub struct StreamingDecodeConfig {
    pub batch_frames: usize,
    pub context_frames: usize,
}

impl StreamingDecodeConfig {
    pub fn new(batch_frames: usize, context_frames: usize) -> (c: Self)
        ensures
            c.batch_frames == (if batch_frames < 1 {
                1
            } else {
                batch_frames
            }),
            c.context_frames == (if context_frames < 1 {
                1
            } else {
                context_frames
            }),
    {
        StreamingDecodeConfig {
            batch_frames: if batch_frames < 1 {
                1
            } else {
                batch_frames
            },
            context_frames: if context_frames < 1 {
                1
            } else {
                context_frames
            },
        }
    }
}

/// An error answered to an HTTP or websocket client.
#[derive(Debug, Clone)]
pub struct ApiError {
    pub status: u16,
    pub message: String,
}

pub const STATUS_BAD_REQUEST: u16 = 400;

pub const STATUS_UNSUPPORTED_MEDIA_TYPE: u16 = 415;

pub const STATUS_INTERNAL_SERVER_ERROR: u16 = 500;

impl ApiError {
    pub fn bad_request(message: String) -> (e: Self)
        ensures
            e.status == STATUS_BAD_REQUEST,
            e.message == message,
    {
        ApiError { status: STATUS_BAD_REQUEST, message }
    }

    pub fn internal(message: String) -> (e: Self)
        ensures
            e.status == STATUS_INTERNAL_SERVER_ERROR,
            e.message == message,
    {
        ApiError { status: STATUS_INTERNAL_SERVER_ERROR, message }
    }

    pub fn unsupported(message: String) -> (e: Self)
        ensures
            e.status == STATUS_UNSUPPORTED_MEDIA_TYPE,
            e.message == message,
    {
        ApiError { status: STATUS_UNSUPPORTED_MEDIA_TYPE, message }
    }
}

/// An audio turn being received over the websocket.
#[derive(Debug)]
pub struct PendingAudioTurn {
    pub sample_rate: u32,
    pub bytes: Vec<u8>,
}

/// Append a binary websocket message to the audio turn being received.
pub fn handle_binary_audio(pending_audio: &mut Option<PendingAudioTurn>, bytes: &[u8]) -> (r:
    Result<(), ApiError>)
    ensures
        *old(pending_audio) is None ==> {
            &&& r matches Err(e) && e.status == STATUS_BAD_REQUEST && e.message@
                == "received binary audio before user.audio.start"@
            &&& *final(pending_audio) is None
        },
        *old(pending_audio) matches Some(p) ==> {
            if p.bytes.len() + bytes.len() > MAX_BINARY_AUDIO_BYTES {
                &&& r matches Err(e) && e.status == STATUS_BAD_REQUEST && e.message@
                    == "audio turn exceeds maximum size"@
                &&& *final(pending_audio) matches Some(q) && q.bytes@ == p.bytes@ && q.sample_rate
                    == p.sample_rate
            } else {
                &&& r is Ok
                &&& *final(pending_audio) matches Some(q) && q.bytes@ == p.bytes@ + bytes@
                    && q.sample_rate == p.sample_rate
            }
        },
{
    match pending_audio {
        None => Err(ApiError::bad_request(owned("received binary audio before user.audio.start"))),
        Some(pending) => {
            let held = pending.bytes.len();
            if held > MAX_BINARY_AUDIO_BYTES || bytes.len() > MAX_BINARY_AUDIO_BYTES - held {
                Err(ApiError::bad_request(owned("audio turn exceeds maximum size")))
            } else {
                pending.bytes.extend_from_slice(bytes);
                Ok(())
            }
        },
    }
}

/// A speech request needs text that is not blank.
pub fn check_speech_text(text: &str) -> (r: Result<(), ApiError>)
    ensures
        trimmed(text@).len() > 0 ==> r is Ok,
        trimmed(text@).len() == 0 ==> (r matches Err(e) && e.status == STATUS_BAD_REQUEST
            && e.message@ == "text must not be empty"@),
{
    if trim(text).is_empty() {
        return Err(ApiError::bad_request(owned("text must not be empty")));
    }
    Ok(())
}

/// The content types accepted for uploaded WAV audio, by prefix.
pub open spec fn wav_content_type_ok(ct: Seq<char>) -> bool {
    "audio/wav"@.is_prefix_of(ct) || "audio/x-wav"@.is_prefix_of(ct)
        || "application/octet-stream"@.is_prefix_of(ct)
}

/// Accept a request without a content type or with a WAV or binary one.
pub fn validate_wav_content_type(content_type: Option<&str>) -> (r: Result<(), ApiError>)
    ensures
        content_type is None ==> r is Ok,
        content_type matches Some(ct) ==> (wav_content_type_ok(ct@) <==> r is Ok),
        content_type is Some && !wav_content_type_ok(content_type.unwrap()@) ==> (r matches Err(
            e,
        ) && e.status == STATUS_UNSUPPORTED_MEDIA_TYPE && e.message@ == "unsupported content type: "@
            + content_type.unwrap()@),
{
    match content_type {
        None => Ok(()),
        Some(ct) => {
            if starts_with(ct, "audio/wav") || starts_with(ct, "audio/x-wav") || starts_with(
                ct,
                "application/octet-stream",
            ) {
                Ok(())
            } else {
                Err(ApiError::unsupported(concat2("unsupported content type: ", ct)))
            }
        },
    }
}

/// The value of a little-endian signed 16-bit sample.
pub open spec fn le_i16(lo: u8, hi: u8) -> int {
    let v = lo as int + 256 * (hi as int);
    if v >= 32768 {
        v - 65536
    } else {
        v
    }
}

/// Decode little-endian signed 16-bit PCM.
pub fn pcm_s16le_bytes_to_samples(bytes: &[u8]) -> (r: Result<Vec<i16>, ApiError>)
    ensures
        bytes@.len() % 2 != 0 ==> (r matches Err(e) && e.status == STATUS_BAD_REQUEST
            && e.message@ == "pcm_s16le audio must have an even number of bytes"@),
        bytes@.len() % 2 == 0 ==> (r matches Ok(s) && s@.len() == bytes@.len() / 2 && forall|
            i: int,
        |
            0 <= i < s@.len() ==> #[trigger] s@[i] as int == le_i16(
                bytes@[2 * i],
                bytes@[2 * i + 1],
            )),
{
    if bytes.len() % 2 != 0 {
        return Err(
            ApiError::bad_request(owned("pcm_s16le audio must have an even number of bytes")),
        );
    }
    let len = bytes.len();
    let n = len / 2;
    let mut samples: Vec<i16> = Vec::new();
    let mut i: usize = 0;
    while i < n
        invariant
            len == bytes@.len(),
            n == len / 2,
            len % 2 == 0,
            i <= n,
            samples@.len() == i,
            forall|j: int|
                0 <= j < i ==> #[trigger] samples@[j] as int == le_i16(
                    bytes@[2 * j],
                    bytes@[2 * j + 1],
                ),
        decreases n - i,
    {
        let lo = bytes[2 * i];
        let hi = bytes[2 * i + 1];
        let v: u32 = lo as u32 + 256 * (hi as u32);
        let s: i16 = if v >= 32768 {
            (v as i32 - 65536) as i16
        } else {
            v as i16
        };
        samples.push(s);
        i = i + 1;
    }
    Ok(samples)
}

/// Decoding the little-endian encoding of samples gives the samples back:
/// if every pair of bytes encodes the sample at its position, the decoded
/// samples are the samples that were encoded.
pub proof fn lemma_pcm_round_trip(samples: Seq<i16>, bytes: Seq<u8>, decoded: Seq<i16>)
    requires
        bytes.len() == 2 * samples.len(),
        forall|i: int|
            0 <= i < samples.len() ==> le_i16(bytes[2 * i], bytes[2 * i + 1]) == #[trigger] samples[i],
        decoded.len() == bytes.len() / 2,
        forall|i: int|
            0 <= i < decoded.len() ==> #[trigger] decoded[i] as int == le_i16(
                bytes[2 * i],
                bytes[2 * i + 1],
            ),
    ensures
        decoded == samples,
{
    assert forall|i: int| 0 <= i < samples.len() implies decoded[i] == samples[i] by {
        assert(decoded[i] as int == le_i16(bytes[2 * i], bytes[2 * i + 1]));
        assert(le_i16(bytes[2 * i], bytes[2 * i + 1]) == samples[i]);
    }
    assert(decoded =~= samples);
}

/// Encode signed 16-bit samples as little-endian PCM.
pub fn encode_pcm_s16le_bytes(samples: &[i16]) -> (r: Vec<u8>)
    requires
        2 * samples@.len() <= usize::MAX,
    ensures
        r@.len() == 2 * samples@.len(),
        forall|i: int|
            0 <= i < samples@.len() ==> le_i16(r@[2 * i], r@[2 * i + 1]) == #[trigger] samples@[i],
{
    let mut bytes: Vec<u8> = Vec::new();
    let mut i: usize = 0;
    while i < samples.len()
        invariant
            2 * samples@.len() <= usize::MAX,
            i <= samples@.len(),
            bytes@.len() == 2 * i,
            forall|j: int|
                0 <= j < i ==> le_i16(bytes@[2 * j], bytes@[2 * j + 1]) == #[trigger] samples@[j],
        decreases samples@.len() - i,
    {
        let s = samples[i];
        let u: u32 = if s < 0 {
            (s as i32 + 65536) as u32
        } else {
            s as u32
        };
        let lo = (u % 256) as u8;
        let hi = (u / 256) as u8;
        bytes.push(lo);
        bytes.push(hi);
        i = i + 1;
    }
    bytes
}

/// The system prompt for a named voice (the name already trimmed and lower-cased).
pub open spec fn voice_prompt(voice: Seq<char>) -> Seq<char> {
    if voice == "uk_female"@ || voice == "uk female"@ {
        "Perform TTS. Use the UK female voice."@
    } else if voice == "uk_male"@ || voice == "uk male"@ {
        "Perform TTS. Use the UK male voice."@
    } else if voice == "us_female"@ || voice == "us female"@ {
        "Perform TTS. Use the US female voice."@
    } else if voice == "us_male"@ || voice == "us male"@ {
        "Perform TTS. Use the US male voice."@
    } else {
        "Perform TTS. Use the "@ + voice + " voice."@
    }
}

/// A voice written as a sentence (it ends with `.`, `!` or `?`), such as
/// "Use the UK female voice.", rather than a voice name.
pub open spec fn is_voice_sentence(voice: Seq<char>) -> bool {
    voice.len() > 0 && (voice.last() == '.' || voice.last() == '!' || voice.last() == '?')
}

/// The system prompt of a requested voice (already trimmed): a sentence is
/// used as it stands after "Perform TTS. "; a name gets its fixed prompt.
pub open spec fn requested_voice_prompt(voice: Seq<char>) -> Seq<char> {
    if is_voice_sentence(voice) {
        "Perform TTS. "@ + voice
    } else {
        voice_prompt(ascii_lowercase(voice))
    }
}

/// The system prompt of a speech request: the explicit prompt unless it is
/// blank, else the prompt of the requested voice (UK female by default). Any
/// voice that ends with `.`, `!` or `?` counts as a sentence and is used as
/// it stands after "Perform TTS. ", as the documented request body
/// `"voice": "Use the UK female voice."` expects; every other voice is
/// taken as a voice name.
pub fn resolve_tts_system_prompt(system_prompt: Option<&str>, voice: Option<&str>) -> (r: String)
    ensures
        system_prompt is Some && trimmed(system_prompt.unwrap()@).len() > 0 ==> r@
            == system_prompt.unwrap()@,
        !(system_prompt is Some && trimmed(system_prompt.unwrap()@).len() > 0) ==> r@
            == requested_voice_prompt(
            trimmed(
                match voice {
                    Some(v) => v@,
                    None => "uk_female"@,
                },
            ),
        ),
{
    if let Some(prompt) = system_prompt {
        if !trim(prompt).is_empty() {
            proof {
                assert(trimmed(prompt@).len() > 0);
            }
            return owned(prompt);
        }
    }
    let v = match voice {
        Some(v) => v,
        None => "uk_female",
    };
    let t = trim(v);
    let n = t.unicode_len();
    if n > 0 {
        let last = t.get_char(n - 1);
        if last == '.' || last == '!' || last == '?' {
            return concat2("Perform TTS. ", t);
        }
    }
    proof {
        reveal_strlit("uk_female");
        assert(!is_voice_sentence(t@));
    }
    let lower = to_ascii_lowercase(t);
    let l = lower.as_str();
    if str_eq(l, "uk_female") || str_eq(l, "uk female") {
        owned("Perform TTS. Use the UK female voice.")
    } else if str_eq(l, "uk_male") || str_eq(l, "uk male") {
        owned("Perform TTS. Use the UK male voice.")
    } else if str_eq(l, "us_female") || str_eq(l, "us female") {
        owned("Perform TTS. Use the US female voice.")
    } else if str_eq(l, "us_male") || str_eq(l, "us male") {
        owned("Perform TTS. Use the US male voice.")
    } else {
        concat3("Perform TTS. Use the ", l, " voice.")
    }
}

/// The token budget of a speech request that sets none.
pub const DEFAULT_SPEECH_MAX_TOKENS: usize = 1024;

/// The audio top-k of a speech request that sets none.
pub const DEFAULT_SPEECH_AUDIO_TOP_K: usize = 64;

/// The integer limits of a speech request, as (token budget, audio top-k):
/// each the request's own value, else its default.
pub fn speech_request_limits(max_tokens: Option<usize>, audio_top_k: Option<usize>) -> (r: (
    usize,
    usize,
))
    ensures
        r.0 == (match max_tokens {
            Some(n) => n,
            None => DEFAULT_SPEECH_MAX_TOKENS,
        }),
        r.1 == (match audio_top_k {
            Some(k) => k,
            None => DEFAULT_SPEECH_AUDIO_TOP_K,
        }),
{
    let budget = match max_tokens {
        Some(n) => n,
        None => DEFAULT_SPEECH_MAX_TOKENS,
    };
    let top_k = match audio_top_k {
        Some(k) => k,
        None => DEFAULT_SPEECH_AUDIO_TOP_K,
    };
    (budget, top_k)
}

/// Each named voice gets the prompt that names it, and different voices get
/// different prompts: `uk_female` or `uk female` the UK female voice,
/// `uk_male` or `uk male` the UK male voice, `us_female` or `us female` the US
/// female voice, and `us_male` or `us male` the US male voice; with no voice
/// given, the UK female voice.
pub proof fn lemma_named_voice_prompts()
    ensures
        requested_voice_prompt(trimmed("uk_female"@)) == "Perform TTS. Use the UK female voice."@,
        requested_voice_prompt(trimmed("uk female"@)) == "Perform TTS. Use the UK female voice."@,
        requested_voice_prompt(trimmed("uk_male"@)) == "Perform TTS. Use the UK male voice."@,
        requested_voice_prompt(trimmed("uk male"@)) == "Perform TTS. Use the UK male voice."@,
        requested_voice_prompt(trimmed("us_female"@)) == "Perform TTS. Use the US female voice."@,
        requested_voice_prompt(trimmed("us female"@)) == "Perform TTS. Use the US female voice."@,
        requested_voice_prompt(trimmed("us_male"@)) == "Perform TTS. Use the US male voice."@,
        requested_voice_prompt(trimmed("us male"@)) == "Perform TTS. Use the US male voice."@,
        "Perform TTS. Use the UK female voice."@ != "Perform TTS. Use the UK male voice."@,
        "Perform TTS. Use the UK female voice."@ != "Perform TTS. Use the US female voice."@,
        "Perform TTS. Use the UK female voice."@ != "Perform TTS. Use the US male voice."@,
        "Perform TTS. Use the UK male voice."@ != "Perform TTS. Use the US female voice."@,
        "Perform TTS. Use the UK male voice."@ != "Perform TTS. Use the US male voice."@,
        "Perform TTS. Use the US female voice."@ != "Perform TTS. Use the US male voice."@,
{
    reveal_strlit("uk_female");
    reveal_strlit("uk female");
    reveal_strlit("uk_male");
    reveal_strlit("uk male");
    reveal_strlit("us_female");
    reveal_strlit("us female");
    reveal_strlit("us_male");
    reveal_strlit("us male");
    reveal_strlit("Perform TTS. Use the UK female voice.");
    reveal_strlit("Perform TTS. Use the UK male voice.");
    reveal_strlit("Perform TTS. Use the US female voice.");
    reveal_strlit("Perform TTS. Use the US male voice.");
    lemma_plain_voice_name("uk_female"@);
    lemma_plain_voice_name("uk female"@);
    lemma_plain_voice_name("uk_male"@);
    lemma_plain_voice_name("uk male"@);
    lemma_plain_voice_name("us_female"@);
    lemma_plain_voice_name("us female"@);
    lemma_plain_voice_name("us_male"@);
    lemma_plain_voice_name("us male"@);
    assert("uk_female"@.len() != "uk_male"@.len());
    assert("uk_female"@[1] != "us_female"@[1]);
    assert("uk_female"@[1] != "us female"@[1]);
    assert("uk_female"@.len() != "us_male"@.len());
    assert("uk_female"@.len() != "us male"@.len());
    assert("uk female"@[2] != "uk_female"@[2]);
    assert("uk female"@.len() != "uk_male"@.len());
    assert("uk female"@.len() != "uk male"@.len());
    assert("uk female"@[1] != "us_female"@[1]);
    assert("uk female"@[1] != "us female"@[1]);
    assert("uk female"@.len() != "us_male"@.len());
    assert("uk female"@.len() != "us male"@.len());
    assert("uk_male"@.len() != "us_female"@.len());
    assert("uk_male"@.len() != "us female"@.len());
    assert("uk_male"@[1] != "us_male"@[1]);
    assert("uk_male"@[1] != "us male"@[1]);
    assert("uk male"@.len() != "uk_female"@.len());
    assert("uk male"@[2] != "uk_male"@[2]);
    assert("uk male"@.len() != "us_female"@.len());
    assert("uk male"@.len() != "us female"@.len());
    assert("uk male"@[1] != "us_male"@[1]);
    assert("uk male"@[1] != "us male"@[1]);
    assert("us_female"@.len() != "us_male"@.len());
    assert("us female"@[2] != "us_female"@[2]);
    assert("us female"@.len() != "us_male"@.len());
    assert("us female"@.len() != "us male"@.len());
    assert("us male"@.len() != "us_female"@.len());
    assert("us male"@[2] != "us_male"@[2]);
    assert("Perform TTS. Use the UK female voice."@.len() != "Perform TTS. Use the UK male voice."@.len());
    assert("Perform TTS. Use the UK female voice."@[22] != "Perform TTS. Use the US female voice."@[22]);
    assert("Perform TTS. Use the UK female voice."@.len() != "Perform TTS. Use the US male voice."@.len());
    assert("Perform TTS. Use the UK male voice."@.len() != "Perform TTS. Use the US female voice."@.len());
    assert("Perform TTS. Use the UK male voice."@[22] != "Perform TTS. Use the US male voice."@[22]);
    assert("Perform TTS. Use the US female voice."@.len() != "Perform TTS. Use the US male voice."@.len());
}

/// A voice name that is already trimmed, lower case and not a sentence.
proof fn lemma_plain_voice_name(v: Seq<char>)
    requires
        v.len() > 0,
        !is_unicode_whitespace(v[0]),
        !is_unicode_whitespace(v.last()),
        v.last() != '.' && v.last() != '!' && v.last() != '?',
        forall|i: int| 0 <= i < v.len() ==> !('A' <= #[trigger] v[i] && v[i] <= 'Z'),
    ensures
        trimmed(v) == v,
        !is_voice_sentence(v),
        ascii_lowercase(v) == v,
        requested_voice_prompt(trimmed(v)) == voice_prompt(v),
{
    assert(trim_start_spec(v) == v);
    assert(trim_end_spec(v) == v);
    assert(ascii_lowercase(v) =~= v);
}

/// PCM samples are little-endian: the first byte is the low byte and the
/// second the high, signed byte; so a sample below 256 is its first byte, and
/// the second byte alone gives 256 times its signed value.
pub proof fn lemma_pcm_little_endian(lo: u8, hi: u8)
    ensures
        le_i16(lo, 0) == lo,
        hi < 128 ==> le_i16(0, hi) == 256 * hi,
        hi >= 128 ==> le_i16(0, hi) == 256 * hi - 65536,
        le_i16(255, 255) == -1,
        -32768 <= le_i16(lo, hi) < 32768,
{
}

} // verus!
