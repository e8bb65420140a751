//! The websocket conversation of the demo server: what each client message
//! asks of the session, which worker serves a session, what the client is
//! told about an assistant turn, and how a streamed reply is relayed to the
//! client at playback pace.
//!
//! The server performs the sends, the model calls and the waiting; the
//! functions here decide what to do next.

use vstd::prelude::*;

use std::collections::HashMap;
use std::collections::VecDeque;

use crate::chat::AssistantResponse;
use crate::server::{
    background_worker_index, pcm_s16le_bytes_to_samples, ApiError, PendingAudioTurn, DEFAULT_SYSTEM_PROMPT_INTERLEAVED,
    STATUS_BAD_REQUEST, STATUS_UNSUPPORTED_MEDIA_TYPE, STREAM_OUTPUT_QUEUE_CHUNKS, le_i16,
};
use crate::streaming::{
    chunk_playback_duration, pacer_enqueue, pacer_finish_input, pacer_new, pacer_release_one,
    spec_playback_nanos, AudioOutputPacer, OutputQueueConfig, QueuedAudioChunk,
};
use crate::text::{owned, str_eq, trim, trimmed};

verus! {

/// Sample rate announced for streamed assistant audio.
pub const STREAM_AUDIO_SAMPLE_RATE: u32 = 24000;

/// Sample format of websocket audio, both ways.
pub const PCM_FORMAT: &'static str = "pcm_s16le";

/// What the client is told the conversation is doing.
#[derive(Debug, Clone, Copy, PartialEq, Eq, Structural)]
pub enum Phase {
    Listening,
    Recording,
    Processing,
    Responding,
}

pub open spec fn phase_name(p: Phase) -> Seq<char> {
    match p {
        Phase::Listening => "listening"@,
        Phase::Recording => "recording"@,
        Phase::Processing => "processing"@,
        Phase::Responding => "responding"@,
    }
}

impl Phase {
    /// The phase's name on the wire.
    pub fn as_str(&self) -> (s: &'static str)
        ensures
            s@ == phase_name(*self),
    {
        match self {
            Phase::Listening => "listening",
            Phase::Recording => "recording",
            Phase::Processing => "processing",
            Phase::Responding => "responding",
        }
    }
}

/// A message from the websocket client.
#[derive(Debug)]
pub enum ClientMessage {
    SessionStart { system_prompt: Option<String> },
    UserText { text: String },
    UserAudioStart { sample_rate: u32, format: String, channels: u16 },
    UserAudioEnd { text_prompt: Option<String>, include_transcript: bool },
    SessionReset,
    Ping,
}

/// A message to the websocket client, other than the streamed audio chunks.
#[derive(Debug)]
pub enum ServerMessage {
    Status { phase: Phase },
    AssistantTextDelta { text: String },
    AssistantTextDone { text: String },
    UserTranscript { text: String },
    AssistantAudioStart {
        sample_rate: u32,
        format: &'static str,
        channels: u16,
        chunk_samples: usize,
    },
    /// Announces the binary frame that follows: which chunk it is, where its
    /// audio came from, and how long it waited and took.
    AssistantAudioChunk {
        chunk_index: usize,
        frame_index: usize,
        frame_elapsed_ms: u64,
        frame_gap_ms: u64,
        decode_elapsed_ms: u64,
        queue_wait_ms: u64,
        chunk_samples: usize,
        backend: &'static str,
    },
    AssistantAudioEnd,
    SessionStarted,
    SessionReset,
    Pong,
    Error { message: String },
}

/// What the session has to do for a client message.
#[derive(Debug)]
pub enum SessionAction {
    /// Start the model session with this system prompt, then report
    /// `session.started` and `listening`.
    Start { system_prompt: String },
    /// Report `processing`, run a text turn and stream the reply.
    Text { text: String },
    /// Report `recording`: an audio turn is being received.
    Recording,
    /// Report `processing`, run an audio turn on these samples and stream the
    /// reply, transcribing the user's audio on the side if asked to.
    Audio {
        samples: Vec<i16>,
        sample_rate: u32,
        text_prompt: Option<String>,
        include_transcript: bool,
    },
    /// Reset the model session, then report `session.reset` and `listening`.
    Reset,
    /// Answer `pong`.
    Pong,
}

pub open spec fn opt_text(o: Option<String>) -> Option<Seq<char>> {
    match o {
        Some(s) => Some(s@),
        None => None,
    }
}

/// The samples are the little-endian 16-bit decoding of the bytes.
pub open spec fn pcm_decoding(bytes: Seq<u8>, samples: Seq<i16>) -> bool {
    &&& samples.len() == bytes.len() / 2
    &&& forall|i: int|
        0 <= i < samples.len() ==> #[trigger] samples[i] as int == le_i16(
            bytes[2 * i],
            bytes[2 * i + 1],
        )
}

pub open spec fn is_error(r: Result<SessionAction, ApiError>, status: u16, message: Seq<char>) -> bool {
    r matches Err(e) && e.status == status && e.message@ == message
}

/// What a client message does: the action or error it gives, and the audio
/// turn being received before (`old_pending`) and after (`new_pending`).
/// Starting an audio turn opens an empty one, ending an audio turn or
/// resetting the session drops it, and other messages leave it as it is.
pub open spec fn client_message_outcome(
    old_pending: Option<PendingAudioTurn>,
    new_pending: Option<PendingAudioTurn>,
    message: ClientMessage,
    r: Result<SessionAction, ApiError>,
) -> bool {
    match message {
        ClientMessage::SessionStart { system_prompt } => {
            &&& new_pending == old_pending
            &&& r matches Ok(SessionAction::Start { system_prompt: p })
            &&& p@ == match system_prompt {
                Some(s) => s@,
                None => DEFAULT_SYSTEM_PROMPT_INTERLEAVED@,
            }
        },
        ClientMessage::UserText { text } => {
            &&& new_pending == old_pending
            &&& if trimmed(text@).len() == 0 {
                is_error(r, STATUS_BAD_REQUEST, "text turn must not be empty"@)
            } else {
                r matches Ok(SessionAction::Text { text: t }) && t@ == text@
            }
        },
        ClientMessage::UserAudioStart { sample_rate, format, channels } => {
            if format@ != PCM_FORMAT@ {
                &&& new_pending == old_pending
                &&& is_error(
                    r,
                    STATUS_UNSUPPORTED_MEDIA_TYPE,
                    "only pcm_s16le is supported for websocket audio"@,
                )
            } else if channels != 1 {
                &&& new_pending == old_pending
                &&& is_error(
                    r,
                    STATUS_UNSUPPORTED_MEDIA_TYPE,
                    "only mono websocket audio is supported"@,
                )
            } else {
                &&& r matches Ok(SessionAction::Recording)
                &&& new_pending matches Some(p)
                &&& p.sample_rate == sample_rate
                &&& p.bytes@.len() == 0
            }
        },
        ClientMessage::UserAudioEnd { text_prompt, include_transcript } => {
            &&& new_pending is None
            &&& match old_pending {
                None => is_error(
                    r,
                    STATUS_BAD_REQUEST,
                    "received user.audio.end without user.audio.start"@,
                ),
                Some(p) => if p.bytes@.len() == 0 {
                    is_error(r, STATUS_BAD_REQUEST, "audio turn was empty"@)
                } else if p.bytes@.len() % 2 != 0 {
                    is_error(
                        r,
                        STATUS_BAD_REQUEST,
                        "pcm_s16le audio must have an even number of bytes"@,
                    )
                } else {
                    &&& r matches Ok(
                        SessionAction::Audio {
                            samples,
                            sample_rate,
                            text_prompt: tp,
                            include_transcript: it,
                        },
                    )
                    &&& pcm_decoding(p.bytes@, samples@)
                    &&& sample_rate == p.sample_rate
                    &&& opt_text(tp) == opt_text(text_prompt)
                    &&& it == include_transcript
                },
            }
        },
        ClientMessage::SessionReset => {
            &&& new_pending is None
            &&& r matches Ok(SessionAction::Reset)
        },
        ClientMessage::Ping => {
            &&& new_pending == old_pending
            &&& r matches Ok(SessionAction::Pong)
        },
    }
}

/// Decide what a client message asks of the session, updating the audio
/// turn being received: starting an audio turn opens an empty one, ending
/// an audio turn or resetting the session drops it, and other messages
/// leave it as it is.
pub fn handle_client_message(pending_audio: &mut Option<PendingAudioTurn>, message: ClientMessage) -> (r: Result<SessionAction, ApiError>)
    ensures
        client_message_outcome(*old(pending_audio), *final(pending_audio), message, r),

{
    match message {
        ClientMessage::SessionStart { system_prompt } => {
            let prompt = match system_prompt {
                Some(p) => p,
                None => owned(DEFAULT_SYSTEM_PROMPT_INTERLEAVED),
            };
            Ok(SessionAction::Start { system_prompt: prompt })
        },
        ClientMessage::UserText { text } => {
            if trim(text.as_str()).is_empty() {
                return Err(ApiError::bad_request(owned("text turn must not be empty")));
            }
            Ok(SessionAction::Text { text })
        },
        ClientMessage::UserAudioStart { sample_rate, format, channels } => {
            if !str_eq(format.as_str(), PCM_FORMAT) {
                return Err(
                    ApiError::unsupported(owned("only pcm_s16le is supported for websocket audio")),
                );
            }
            if channels != 1 {
                return Err(ApiError::unsupported(owned("only mono websocket audio is supported")));
            }
            *pending_audio = Some(PendingAudioTurn { sample_rate, bytes: Vec::new() });
            Ok(SessionAction::Recording)
        },
        ClientMessage::UserAudioEnd { text_prompt, include_transcript } => {
            let taken = pending_audio.take();
            let pending = match taken {
                Some(p) => p,
                None => {
                    return Err(
                        ApiError::bad_request(
                            owned("received user.audio.end without user.audio.start"),
                        ),
                    );
                },
            };
            if pending.bytes.len() == 0 {
                return Err(ApiError::bad_request(owned("audio turn was empty")));
            }
            match pcm_s16le_bytes_to_samples(pending.bytes.as_slice()) {
                Ok(samples) => Ok(
                    SessionAction::Audio {
                        samples,
                        sample_rate: pending.sample_rate,
                        text_prompt,
                        include_transcript,
                    },
                ),
                Err(e) => Err(e),
            }
        },
        ClientMessage::SessionReset => {
            *pending_audio = None;
            Ok(SessionAction::Reset)
        },
        ClientMessage::Ping => Ok(SessionAction::Pong),
    }
}

/// A finished assistant turn as reported to the client.
#[derive(Debug)]
pub struct AssistantTurn {
    pub user_transcript: Option<String>,
    pub text: String,
}

/// The turn reported for a generated response.
pub fn assistant_turn_from_response<A>(response: AssistantResponse<A>, user_transcript: Option<String>) -> (r: Result<AssistantTurn, ApiError>)
    ensures
        r matches Ok(t) && t.text@ == response.text@ && opt_text(t.user_transcript) == opt_text(
            user_transcript,
        ),
{
    Ok(AssistantTurn { user_transcript, text: response.text })
}

/// Attach the transcript of the user's audio to the turn, unless it is blank.
pub fn attach_transcript(turn: &mut AssistantTurn, transcript: Option<String>)
    ensures
        final(turn).text == old(turn).text,
        opt_text(final(turn).user_transcript) == match transcript {
            Some(t) => if trimmed(t@).len() > 0 {
                Some(t@)
            } else {
                opt_text(old(turn).user_transcript)
            },
            None => opt_text(old(turn).user_transcript),
        },
{
    if let Some(t) = transcript {
        if !trim(t.as_str()).is_empty() {
            turn.user_transcript = Some(t);
        }
    }
}

/// The messages that close an assistant turn: the user's transcript, when
/// there is one that is not blank, then the assistant's full text.
pub fn turn_messages(turn: &AssistantTurn) -> (msgs: Vec<ServerMessage>)
    ensures
        match turn.user_transcript {
            Some(t) if trimmed(t@).len() > 0 => {
                &&& msgs@.len() == 2
                &&& msgs@[0] matches ServerMessage::UserTranscript { text } && text@ == t@
                &&& msgs@[1] matches ServerMessage::AssistantTextDone { text } && text@
                    == turn.text@
            },
            _ => {
                &&& msgs@.len() == 1
                &&& msgs@[0] matches ServerMessage::AssistantTextDone { text } && text@
                    == turn.text@
            },
        },
{
    let mut msgs: Vec<ServerMessage> = Vec::new();
    if let Some(t) = &turn.user_transcript {
        if !trim(t.as_str()).is_empty() {
            msgs.push(ServerMessage::UserTranscript { text: owned(t.as_str()) });
        }
    }
    msgs.push(ServerMessage::AssistantTextDone { text: owned(turn.text.as_str()) });
    msgs
}

/// Which worker serves each websocket session: requests go round-robin over
/// the workers, and a session keeps the worker it was first given until it
/// is closed.
pub struct SessionRouter {
    pub worker_count: usize,
    pub next_worker: usize,
    pub assignments: HashMap<u64, usize>,
}

impl SessionRouter {
    /// Every assigned worker exists.
    pub open spec fn inv(&self) -> bool {
        &&& self.worker_count > 0
        &&& forall|s: u64| #[trigger]
            self.assignments@.contains_key(s) ==> self.assignments@[s] < self.worker_count
    }

    pub fn new(worker_count: usize) -> (r: Self)
        requires
            worker_count > 0,
        ensures
            r.inv(),
            r.worker_count == worker_count,
            r.next_worker == 0,
            r.assignments@ == Map::<u64, usize>::empty(),
    {
        SessionRouter { worker_count, next_worker: 0, assignments: HashMap::new() }
    }

    /// The next worker in round-robin order; the counter wraps around.
    pub fn next_worker_index(&mut self) -> (w: usize)
        requires
            old(self).inv(),
        ensures
            final(self).inv(),
            w == old(self).next_worker % old(self).worker_count,
            w < old(self).worker_count,
            final(self).next_worker == (if old(self).next_worker == usize::MAX {
                0
            } else {
                old(self).next_worker + 1
            }),
            final(self).worker_count == old(self).worker_count,
            final(self).assignments@ == old(self).assignments@,
    {
        let w = self.next_worker % self.worker_count;
        self.next_worker = if self.next_worker == usize::MAX {
            0
        } else {
            self.next_worker + 1
        };
        w
    }

    /// The worker of a session: the one it was given before, else the next in
    /// round-robin order, which it keeps from now on.
    pub fn session_worker_index(&mut self, session_id: u64) -> (w: usize)
        requires
            old(self).inv(),
        ensures
            final(self).inv(),
            w < old(self).worker_count,
            final(self).worker_count == old(self).worker_count,
            old(self).assignments@.contains_key(session_id) ==> {
                &&& w == old(self).assignments@[session_id]
                &&& final(self).next_worker == old(self).next_worker
                &&& final(self).assignments@ == old(self).assignments@
            },
            !old(self).assignments@.contains_key(session_id) ==> {
                &&& w == old(self).next_worker % old(self).worker_count
                &&& final(self).next_worker == (if old(self).next_worker == usize::MAX {
                    0
                } else {
                    old(self).next_worker + 1
                })
                &&& final(self).assignments@ == old(self).assignments@.insert(session_id, w)
            },
    {
        broadcast use vstd::std_specs::hash::group_hash_axioms;

        match self.assignments.get(&session_id) {
            Some(existing) => {
                return *existing;
            },
            None => {},
        }
        let w = self.next_worker_index();
        self.assignments.insert(session_id, w);
        w
    }

    /// Forget a closed session, answering the worker it had, if any.
    pub fn close_session_worker(&mut self, session_id: u64) -> (r: Option<usize>)
        requires
            old(self).inv(),
        ensures
            final(self).inv(),
            final(self).worker_count == old(self).worker_count,
            final(self).next_worker == old(self).next_worker,
            final(self).assignments@ == old(self).assignments@.remove(session_id),
            r == (if old(self).assignments@.contains_key(session_id) {
                Some(old(self).assignments@[session_id])
            } else {
                None::<usize>
            }),
    {
        broadcast use vstd::std_specs::hash::group_hash_axioms;

        let r = self.assignments.remove(&session_id);
        proof {
            assert(final(self).assignments@ =~= old(self).assignments@.remove(session_id));
        }
        r
    }

    /// The workers of an audio turn: the session's own worker runs the turn,
    /// and, when a transcript is asked for, the user's audio is transcribed on
    /// the next worker (the session's own when it is the only one).
    pub fn audio_turn_workers(&mut self, session_id: u64, include_transcript: bool) -> (r: (usize, Option<usize>))
        requires
            old(self).inv(),
        ensures
            final(self).inv(),
            final(self).worker_count == old(self).worker_count,
            r.0 < old(self).worker_count,
            old(self).assignments@.contains_key(session_id) ==> {
                &&& r.0 == old(self).assignments@[session_id]
                &&& final(self).next_worker == old(self).next_worker
                &&& final(self).assignments@ == old(self).assignments@
            },
            !old(self).assignments@.contains_key(session_id) ==> {
                &&& r.0 == old(self).next_worker % old(self).worker_count
                &&& final(self).next_worker == (if old(self).next_worker == usize::MAX {
                    0
                } else {
                    old(self).next_worker + 1
                })
                &&& final(self).assignments@ == old(self).assignments@.insert(session_id, r.0)
            },
            !include_transcript ==> r.1 is None,
            include_transcript ==> r.1 == Some(
                if old(self).worker_count <= 1 {
                    r.0
                } else {
                    ((r.0 + 1) % (old(self).worker_count as int)) as usize
                },
            ),
            r.1 matches Some(t) ==> t < old(self).worker_count,
            old(self).worker_count > 1 ==> r.1 != Some(r.0),
    {
        let w = self.session_worker_index(session_id);
        if include_transcript {
            let t = background_worker_index(w, self.worker_count);
            (w, Some(t))
        } else {
            (w, None)
        }
    }
}

/// What the relay does in a reply: forward a text update, take in an audio
/// chunk, release a queued chunk, or finish the reply.
pub enum ReplyOp {
    Text,
    Audio,
    Release,
    Finish,
}

/// What reaches the client, message by message; `ChunkHeader` is the
/// `assistant.audio.chunk` message and `AudioChunk` the binary frame of
/// samples it announces.
pub enum Sent {
    Responding,
    TextDelta,
    AudioStart,
    ChunkHeader,
    AudioChunk,
    AudioEnd,
    Other,
}

/// The kind of a server message.
pub open spec fn message_sent(m: ServerMessage) -> Sent {
    match m {
        ServerMessage::Status { phase: Phase::Responding } => Sent::Responding,
        ServerMessage::AssistantTextDelta { .. } => Sent::TextDelta,
        ServerMessage::AssistantAudioStart { .. } => Sent::AudioStart,
        ServerMessage::AssistantAudioChunk { .. } => Sent::ChunkHeader,
        ServerMessage::AssistantAudioEnd => Sent::AudioEnd,
        _ => Sent::Other,
    }
}

/// The kinds of a list of server messages.
pub open spec fn messages_sent(ms: Seq<ServerMessage>) -> Seq<Sent> {
    ms.map_values(|m: ServerMessage| message_sent(m))
}

/// What a released chunk sends: its audio start, if any, then the chunk.
pub open spec fn released_sent<T>(rel: ReleasedChunk<T>) -> Seq<Sent> {
    match rel.audio_start {
        Some(m) => seq![message_sent(m), Sent::ChunkHeader, Sent::AudioChunk],
        None => seq![Sent::ChunkHeader, Sent::AudioChunk],
    }
}

/// What the end of a reply sends.
pub open spec fn finished_sent(m: Option<ServerMessage>) -> Seq<Sent> {
    match m {
        Some(x) => seq![message_sent(x)],
        None => Seq::<Sent>::empty(),
    }
}

/// One step of the relay from its flags (a first event was seen, the audio
/// start was sent): the flags after it and what it sends.
pub open spec fn relay_step(saw_event: bool, sent_audio_start: bool, op: ReplyOp) -> (bool, bool, Seq<Sent>) {
    match op {
        ReplyOp::Text => (true, sent_audio_start, if saw_event {
            seq![Sent::TextDelta]
        } else {
            seq![Sent::Responding, Sent::TextDelta]
        }),
        ReplyOp::Audio => (true, sent_audio_start, if saw_event {
            Seq::<Sent>::empty()
        } else {
            seq![Sent::Responding]
        }),
        ReplyOp::Release => (saw_event, true, if sent_audio_start {
            seq![Sent::ChunkHeader, Sent::AudioChunk]
        } else {
            seq![Sent::AudioStart, Sent::ChunkHeader, Sent::AudioChunk]
        }),
        ReplyOp::Finish => (saw_event, sent_audio_start, if sent_audio_start {
            seq![Sent::AudioEnd]
        } else {
            Seq::<Sent>::empty()
        }),
    }
}

/// A whole reply from a fresh relay: the final flags and everything sent.
pub open spec fn relay_run(ops: Seq<ReplyOp>) -> (bool, bool, Seq<Sent>)
    decreases ops.len(),
{
    if ops.len() == 0 {
        (false, false, Seq::<Sent>::empty())
    } else {
        let before = relay_run(ops.drop_last());
        let step = relay_step(before.0, before.1, ops.last());
        (step.0, step.1, before.2 + step.2)
    }
}

/// Audio chunks taken in and not yet released.
pub open spec fn queued_chunks(ops: Seq<ReplyOp>) -> int
    decreases ops.len(),
{
    if ops.len() == 0 {
        0
    } else {
        queued_chunks(ops.drop_last()) + match ops.last() {
            ReplyOp::Audio => 1int,
            ReplyOp::Release => -1int,
            _ => 0int,
        }
    }
}

/// A reply the relay can go through: a chunk is released only while one is
/// queued, and the reply finishes last.
pub open spec fn valid_reply(ops: Seq<ReplyOp>) -> bool {
    forall|k: int|
        0 <= k < ops.len() ==> (#[trigger] ops[k] is Release ==> queued_chunks(ops.take(k)) > 0)
            && (ops[k] is Finish ==> k == ops.len() - 1)
}

/// The message just before position `j`.
#[verifier::opaque]
pub open spec fn sent_before(t: Seq<Sent>, j: int) -> Sent {
    t[j - 1]
}

/// The message just after position `i`.
#[verifier::opaque]
pub open spec fn sent_after(t: Seq<Sent>, i: int) -> Sent {
    t[i + 1]
}

proof fn lemma_neighbours(t: Seq<Sent>, i: int)
    ensures
        sent_before(t, i) == t[i - 1],
        sent_after(t, i) == t[i + 1],
{
    reveal(sent_before);
    reveal(sent_after);
}

/// The order the client sees, given the position `start` of the audio start
/// (`t.len()` when there is none): `responding` first and only there, no
/// other audio start, every audio chunk after the audio start and right after
/// its `assistant.audio.chunk` message (which is always followed by its
/// chunk), and an audio end only as the last message.
pub open spec fn reply_order_at(t: Seq<Sent>, start: int) -> bool {
    &&& 0 <= start <= t.len()
    &&& start < t.len() ==> t[start] == Sent::AudioStart
    &&& t.len() > 0 ==> t[0] == Sent::Responding
    &&& forall|i: int| 0 < i < t.len() ==> #[trigger] t[i] != Sent::Responding
    &&& forall|i: int| 0 <= i < t.len() && #[trigger] t[i] == Sent::AudioStart ==> i == start
    &&& forall|j: int| 0 <= j < t.len() && #[trigger] t[j] == Sent::AudioChunk ==> start < j
    &&& forall|j: int|
        0 <= j < t.len() && #[trigger] t[j] == Sent::AudioChunk ==> 0 < j && sent_before(t, j)
            == Sent::ChunkHeader
    &&& forall|i: int|
        0 <= i < t.len() && #[trigger] t[i] == Sent::ChunkHeader ==> i + 1 < t.len() && sent_after(
            t,
            i,
        ) == Sent::AudioChunk
    &&& forall|i: int| 0 <= i < t.len() && #[trigger] t[i] == Sent::AudioEnd ==> i == t.len() - 1
}

/// The messages come in the order of [`reply_order_at`] for some position of
/// the audio start.
pub open spec fn reply_order(t: Seq<Sent>) -> bool {
    exists|start: int| reply_order_at(t, start)
}

/// What holds of the relay while the reply is still coming.
spec fn relay_inv(saw: bool, started: bool, queued: int, t: Seq<Sent>, start: int) -> bool {
    &&& queued >= 0
    &&& !saw ==> (queued == 0 && !started && t.len() == 0)
    &&& saw ==> t.len() > 0
    &&& started <==> start < t.len()
    &&& reply_order_at(t, start)
    &&& forall|i: int| 0 <= i < t.len() ==> #[trigger] t[i] != Sent::AudioEnd
}

spec fn queued_after(queued: int, op: ReplyOp) -> int {
    queued + match op {
        ReplyOp::Audio => 1int,
        ReplyOp::Release => -1int,
        _ => 0int,
    }
}

#[verifier::rlimit(40)]
#[verifier::spinoff_prover]
proof fn lemma_relay_step(saw: bool, started: bool, queued: int, t: Seq<Sent>, start: int, op: ReplyOp)
    requires
        relay_inv(saw, started, queued, t, start),
        !(op is Finish),
        op is Release ==> queued > 0,
    ensures
        relay_inv(
            relay_step(saw, started, op).0,
            relay_step(saw, started, op).1,
            queued_after(queued, op),
            t + relay_step(saw, started, op).2,
            if started {
                start
            } else if op is Release {
                t.len() as int
            } else {
                (t + relay_step(saw, started, op).2).len() as int
            },
        ),
{
    let e = relay_step(saw, started, op).2;
    let u = t + e;
    assert forall|i: int| 0 <= i < t.len() implies u[i] == t[i] by {}
    match op {
        ReplyOp::Text => {
            if !saw {
                assert(u =~= seq![Sent::Responding, Sent::TextDelta]);
            } else {
                assert(u[t.len() as int] == Sent::TextDelta);
            }
        },
        ReplyOp::Audio => {
            if !saw {
                assert(u =~= seq![Sent::Responding]);
            } else {
                assert(u =~= t);
            }
        },
        ReplyOp::Release => {
            if started {
                assert(u[t.len() as int] == Sent::ChunkHeader);
                assert(u[t.len() as int + 1] == Sent::AudioChunk);
            } else {
                assert(u[t.len() as int] == Sent::AudioStart);
                assert(u[t.len() as int + 1] == Sent::ChunkHeader);
                assert(u[t.len() as int + 2] == Sent::AudioChunk);
            }
        },
        ReplyOp::Finish => {},
    }
    let k = t.len() as int;
    assert forall|j: int| 0 <= j < u.len() && #[trigger] u[j] == Sent::AudioChunk implies 0 < j
        && sent_before(u, j) == Sent::ChunkHeader by {
        lemma_neighbours(u, j);
        if j < k {
            assert(t[j] == Sent::AudioChunk);
            lemma_neighbours(t, j);
        } else {
            assert(u[j] == e[j - k]);
            assert(u[j - 1] == e[j - 1 - k]);
        }
    }
    assert forall|i: int| 0 <= i < u.len() && #[trigger] u[i] == Sent::ChunkHeader implies i + 1
        < u.len() && sent_after(u, i) == Sent::AudioChunk by {
        lemma_neighbours(u, i);
        if i < k {
            assert(t[i] == Sent::ChunkHeader);
            lemma_neighbours(t, i);
        } else {
            assert(u[i] == e[i - k]);
            assert(u[i + 1] == e[i + 1 - k]);
        }
    }
}

proof fn lemma_valid_prefix(ops: Seq<ReplyOp>)
    requires
        valid_reply(ops),
        ops.len() > 0,
    ensures
        valid_reply(ops.drop_last()),
        forall|k: int| 0 <= k < ops.len() - 1 ==> !(#[trigger] ops.drop_last()[k] is Finish),
{
    let prev = ops.drop_last();
    assert forall|k: int| 0 <= k < prev.len() implies (#[trigger] prev[k] is Release
        ==> queued_chunks(prev.take(k)) > 0) && (prev[k] is Finish ==> k == prev.len() - 1) by {
        assert(prev.take(k) =~= ops.take(k));
        assert(prev[k] == ops[k]);
    }
    assert forall|k: int| 0 <= k < ops.len() - 1 implies !(#[trigger] prev[k] is Finish) by {
        assert(prev[k] == ops[k]);
    }
}

proof fn lemma_relay_prefix(ops: Seq<ReplyOp>) -> (start: int)
    requires
        valid_reply(ops),
        forall|k: int| 0 <= k < ops.len() ==> !(#[trigger] ops[k] is Finish),
    ensures
        relay_inv(relay_run(ops).0, relay_run(ops).1, queued_chunks(ops), relay_run(ops).2, start),
    decreases ops.len(),
{
    if ops.len() == 0 {
        0
    } else {
        let prev = ops.drop_last();
        lemma_valid_prefix(ops);
        let s0 = lemma_relay_prefix(prev);
        let last = ops.len() - 1;
        assert(ops[last] == ops.last());
        assert(ops.take(last) =~= prev);
        let before = relay_run(prev);
        lemma_relay_step(before.0, before.1, queued_chunks(prev), before.2, s0, ops.last());
        if before.1 {
            s0
        } else if ops.last() is Release {
            before.2.len() as int
        } else {
            (before.2 + relay_step(before.0, before.1, ops.last()).2).len() as int
        }
    }
}

#[verifier::rlimit(40)]
#[verifier::spinoff_prover]
proof fn lemma_relay_finish(saw: bool, started: bool, queued: int, t: Seq<Sent>, start: int)
    requires
        relay_inv(saw, started, queued, t, start),
    ensures
        reply_order_at(t, start),
        reply_order_at(t + relay_step(saw, started, ReplyOp::Finish).2, start),
{
    let u = t + relay_step(saw, started, ReplyOp::Finish).2;
    if started {
        assert forall|i: int| 0 <= i < t.len() implies u[i] == t[i] by {}
        assert(u[t.len() as int] == Sent::AudioEnd);
        let k = t.len() as int;
        assert forall|j: int| 0 <= j < u.len() && #[trigger] u[j] == Sent::AudioChunk implies 0 < j
            && sent_before(u, j) == Sent::ChunkHeader by {
            lemma_neighbours(u, j);
            assert(j < k);
            assert(t[j] == Sent::AudioChunk);
            lemma_neighbours(t, j);
        }
        assert forall|i: int| 0 <= i < u.len() && #[trigger] u[i] == Sent::ChunkHeader implies i + 1
            < u.len() && sent_after(u, i) == Sent::AudioChunk by {
            lemma_neighbours(u, i);
            assert(i < k);
            assert(t[i] == Sent::ChunkHeader);
            lemma_neighbours(t, i);
        }
    } else {
        assert(u =~= t);
    }
}

/// The messages of a whole reply come in order: the `responding` status
/// first and only once, at most one audio start and every binary audio chunk
/// after it, each chunk right after its `assistant.audio.chunk` message, and
/// the audio end, when there is one, last of all.
pub proof fn lemma_reply_message_order(ops: Seq<ReplyOp>)
    requires
        valid_reply(ops),
    ensures
        reply_order(relay_run(ops).2),
{
    if ops.len() > 0 && ops.last() is Finish {
        lemma_valid_prefix(ops);
        let prev = ops.drop_last();
        let s0 = lemma_relay_prefix(prev);
        let before = relay_run(prev);
        lemma_relay_finish(before.0, before.1, queued_chunks(prev), before.2, s0);
        assert(reply_order_at(relay_run(ops).2, s0));
    } else {
        assert forall|k: int| 0 <= k < ops.len() implies !(#[trigger] ops[k] is Finish) by {
            if ops[k] is Finish {
                assert(ops[k] == ops.last());
            }
        }
        let s0 = lemma_relay_prefix(ops);
        let r = relay_run(ops);
        lemma_relay_finish(r.0, r.1, queued_chunks(ops), r.2, s0);
        assert(reply_order_at(r.2, s0));
    }
}

/// The workers that serve an action: the session's worker for the model
/// session's own work, and the worker that transcribes the user's audio.
#[derive(Debug, Clone, Copy, PartialEq, Eq, Structural)]
pub struct Dispatch {
    pub worker: Option<usize>,
    pub transcript_worker: Option<usize>,
}

/// The router gives the session the worker `w`: the one it had, else the next
/// in round-robin order, which the session keeps from then on.
pub open spec fn routes_session(old: SessionRouter, new: SessionRouter, session_id: u64, w: usize) -> bool {
    &&& new.worker_count == old.worker_count
    &&& w < old.worker_count
    &&& old.assignments@.contains_key(session_id) ==> {
        &&& w == old.assignments@[session_id]
        &&& new.next_worker == old.next_worker
        &&& new.assignments@ == old.assignments@
    }
    &&& !old.assignments@.contains_key(session_id) ==> {
        &&& w == old.next_worker % old.worker_count
        &&& new.next_worker == (if old.next_worker == usize::MAX {
            0
        } else {
            old.next_worker + 1
        })
        &&& new.assignments@ == old.assignments@.insert(session_id, w)
    }
}

/// The router is as it was.
pub open spec fn router_unchanged(old: SessionRouter, new: SessionRouter) -> bool {
    &&& new.worker_count == old.worker_count
    &&& new.next_worker == old.next_worker
    &&& new.assignments@ == old.assignments@
}

/// The action of a dispatched message, or its error.
pub open spec fn action_of(r: Result<(SessionAction, Dispatch), ApiError>) -> Result<SessionAction, ApiError> {
    match r {
        Ok((a, _)) => Ok(a),
        Err(e) => Err(e),
    }
}

/// Which workers serve an action: starting, text turns and resets go to the
/// session's worker; an audio turn goes there too, and its transcript, when
/// asked for, to the next worker (the same one when it is the only one);
/// reporting `recording` and answering `pong` need no worker.
pub open spec fn dispatch_for(
    action: SessionAction,
    d: Dispatch,
    old: SessionRouter,
    new: SessionRouter,
    session_id: u64,
) -> bool {
    match action {
        SessionAction::Start { .. } | SessionAction::Text { .. } | SessionAction::Reset => {
            &&& d.worker matches Some(w) && routes_session(old, new, session_id, w)
            &&& d.transcript_worker is None
        },
        SessionAction::Audio { include_transcript, .. } => {
            &&& d.worker matches Some(w) && routes_session(old, new, session_id, w) && d.transcript_worker == (
            if include_transcript {
                Some(
                    if old.worker_count <= 1 {
                        w
                    } else {
                        ((w + 1) % (old.worker_count as int)) as usize
                    },
                )
            } else {
                None::<usize>
            })
        },
        SessionAction::Recording | SessionAction::Pong => {
            &&& d.worker is None
            &&& d.transcript_worker is None
            &&& router_unchanged(old, new)
        },
    }
}

/// Decide what a client message of a session asks for and which workers
/// serve it.
pub fn dispatch_client_message(
    router: &mut SessionRouter,
    session_id: u64,
    pending_audio: &mut Option<PendingAudioTurn>,
    message: ClientMessage,
) -> (r: Result<(SessionAction, Dispatch), ApiError>)
    requires
        old(router).inv(),
    ensures
        final(router).inv(),
        client_message_outcome(*old(pending_audio), *final(pending_audio), message, action_of(r)),
        r is Err ==> router_unchanged(*old(router), *final(router)),
        r matches Ok((a, d)) ==> dispatch_for(a, d, *old(router), *final(router), session_id),
{
    let action = match handle_client_message(pending_audio, message) {
        Ok(a) => a,
        Err(e) => {
            return Err(e);
        },
    };
    let d = match &action {
        SessionAction::Start { .. } | SessionAction::Text { .. } | SessionAction::Reset => {
            let w = router.session_worker_index(session_id);
            Dispatch { worker: Some(w), transcript_worker: None }
        },
        SessionAction::Audio { include_transcript, .. } => {
            let (w, t) = router.audio_turn_workers(session_id, *include_transcript);
            Dispatch { worker: Some(w), transcript_worker: t }
        },
        SessionAction::Recording | SessionAction::Pong => Dispatch {
            worker: None,
            transcript_worker: None,
        },
    };
    Ok((action, d))
}

/// The `assistant.audio.chunk` message that announces a released chunk's
/// binary frame: the chunk's own indices and timings, how long it waited in
/// the output queue, its sample count and the decoder that made it.
pub fn chunk_header<T>(chunk: &QueuedAudioChunk<T>, queue_wait_ms: u64) -> (m: ServerMessage)
    ensures
        m == (ServerMessage::AssistantAudioChunk {
            chunk_index: chunk.chunk_index,
            frame_index: chunk.frame_index,
            frame_elapsed_ms: chunk.frame_elapsed_ms,
            frame_gap_ms: chunk.frame_gap_ms,
            decode_elapsed_ms: chunk.decode_elapsed_ms,
            queue_wait_ms,
            chunk_samples: (chunk.bytes@.len() / 2) as usize,
            backend: chunk.backend,
        }),
        message_sent(m) == Sent::ChunkHeader,
{
    ServerMessage::AssistantAudioChunk {
        chunk_index: chunk.chunk_index,
        frame_index: chunk.frame_index,
        frame_elapsed_ms: chunk.frame_elapsed_ms,
        frame_gap_ms: chunk.frame_gap_ms,
        decode_elapsed_ms: chunk.decode_elapsed_ms,
        queue_wait_ms,
        chunk_samples: chunk.chunk_samples(),
        backend: chunk.backend,
    }
}

/// An event of the model's streamed reply.
#[derive(Debug)]
pub enum AssistantStreamEvent<T> {
    TextUpdated(String),
    AudioChunk(QueuedAudioChunk<T>),
}

/// Relays a streamed reply to the client: the first event is announced with
/// the `responding` phase, text updates are forwarded at once, and audio
/// chunks are queued and released at playback pace, the first one announced
/// by an audio start.
pub struct AssistantRelay<T> {
    pub saw_event: bool,
    pub sent_audio_start: bool,
    pub stream_closed: bool,
    pub queue: VecDeque<QueuedAudioChunk<T>>,
    pub pacer: AudioOutputPacer,
}

/// A chunk due for release, preceded by the audio start when it is the
/// first.
pub struct ReleasedChunk<T> {
    pub audio_start: Option<ServerMessage>,
    pub chunk: QueuedAudioChunk<T>,
}

impl<T> AssistantRelay<T> {
    pub fn new() -> (r: Self)
        ensures
            !r.saw_event,
            !r.sent_audio_start,
            !r.stream_closed,
            r.queue@.len() == 0,
            r.pacer == pacer_new(OutputQueueConfig { startup_chunks: STREAM_OUTPUT_QUEUE_CHUNKS }),
            r.pacer.inv(),
    {
        AssistantRelay {
            saw_event: false,
            sent_audio_start: false,
            stream_closed: false,
            queue: VecDeque::new(),
            pacer: AudioOutputPacer::new(OutputQueueConfig::new(STREAM_OUTPUT_QUEUE_CHUNKS)),
        }
    }

    /// The relay is over once the stream has ended and every chunk is out.
    pub fn is_done(&self) -> (b: bool)
        ensures
            b == (self.stream_closed && self.queue@.len() == 0),
    {
        broadcast use vstd::std_specs::vecdeque::group_vec_dequeue_axioms;

        self.stream_closed && self.queue.len() == 0
    }

    /// Events are awaited until the stream ends.
    pub fn accepts_events(&self) -> (b: bool)
        ensures
            b == !self.stream_closed,
    {
        !self.stream_closed
    }

    /// Time from `now` until the next chunk is due, if one is scheduled.
    pub fn wake_delay(&self, now: u64) -> (d: Option<u64>)
        ensures
            d == (match self.pacer.next_release_at {
                Some(deadline) => Some(
                    if deadline > now {
                        (deadline - now) as u64
                    } else {
                        0u64
                    },
                ),
                None => None,
            }),
    {
        self.pacer.next_wake_delay(now)
    }

    fn announce(&mut self, msgs: &mut Vec<ServerMessage>)
        requires
            old(msgs)@.len() == 0,
        ensures
            final(self).saw_event,
            final(self).sent_audio_start == old(self).sent_audio_start,
            final(self).stream_closed == old(self).stream_closed,
            final(self).queue@ == old(self).queue@,
            final(self).pacer == old(self).pacer,
            old(self).saw_event ==> final(msgs)@.len() == 0,
            !old(self).saw_event ==> (final(msgs)@.len() == 1 && final(msgs)@[0] matches ServerMessage::Status { phase: Phase::Responding }),
    {
        if !self.saw_event {
            msgs.push(ServerMessage::Status { phase: Phase::Responding });
            self.saw_event = true;
        }
    }

    /// A text update arrived: forward it, announcing the reply first if it is
    /// the first event.
    pub fn on_text(&mut self, text: String) -> (msgs: Vec<ServerMessage>)
        ensures
            final(self).saw_event,
            final(self).sent_audio_start == old(self).sent_audio_start,
            final(self).stream_closed == old(self).stream_closed,
            final(self).queue@ == old(self).queue@,
            final(self).pacer == old(self).pacer,
            msgs@.len() == (if old(self).saw_event {
                1int
            } else {
                2int
            }),
            !old(self).saw_event ==> msgs@[0] matches ServerMessage::Status {
                phase: Phase::Responding,
            },
            msgs@.last() matches ServerMessage::AssistantTextDelta { text: t } && t@ == text@,
            messages_sent(msgs@) == relay_step(old(self).saw_event, old(self).sent_audio_start, ReplyOp::Text).2,
    {
        let mut msgs: Vec<ServerMessage> = Vec::new();
        self.announce(&mut msgs);
        msgs.push(ServerMessage::AssistantTextDelta { text });
        proof {
            assert(messages_sent(msgs@) =~= relay_step(old(self).saw_event, old(self).sent_audio_start, ReplyOp::Text).2);
        }
        msgs
    }

    /// An audio chunk arrived at `now`: queue it behind the others,
    /// announcing the reply first if it is the first event.
    pub fn on_audio(&mut self, chunk: QueuedAudioChunk<T>, now: u64) -> (msgs: Vec<ServerMessage>)
        requires
            old(self).pacer.pending_chunks < usize::MAX,
        ensures
            final(self).saw_event,
            final(self).sent_audio_start == old(self).sent_audio_start,
            final(self).stream_closed == old(self).stream_closed,
            final(self).queue@ == old(self).queue@.push(chunk),
            final(self).pacer == pacer_enqueue(old(self).pacer, now),
            old(self).pacer.inv() ==> final(self).pacer.inv(),
            old(self).saw_event ==> msgs@.len() == 0,
            !old(self).saw_event ==> (msgs@.len() == 1 && msgs@[0] matches ServerMessage::Status {
                phase: Phase::Responding,
            }),
            messages_sent(msgs@) == relay_step(old(self).saw_event, old(self).sent_audio_start, ReplyOp::Audio).2,
    {
        let mut msgs: Vec<ServerMessage> = Vec::new();
        self.announce(&mut msgs);
        self.queue.push_back(chunk);
        self.pacer.enqueue(now);
        proof {
            assert(messages_sent(msgs@) =~= relay_step(old(self).saw_event, old(self).sent_audio_start, ReplyOp::Audio).2);
        }
        msgs
    }

    /// The stream ended at `now`: what is queued is released without
    /// waiting for the startup queue.
    pub fn on_stream_end(&mut self, now: u64)
        ensures
            final(self).stream_closed,
            final(self).saw_event == old(self).saw_event,
            final(self).sent_audio_start == old(self).sent_audio_start,
            final(self).queue@ == old(self).queue@,
            final(self).pacer == pacer_finish_input(old(self).pacer, now),
            old(self).pacer.inv() ==> final(self).pacer.inv(),
    {
        self.stream_closed = true;
        self.pacer.finish_input(now);
    }

    /// The release time came: take the oldest queued chunk, if any, preceded
    /// by the audio start when no audio was sent before.
    pub fn take_due_chunk(&mut self) -> (r: Option<ReleasedChunk<T>>)
        ensures
            final(self).saw_event == old(self).saw_event,
            final(self).stream_closed == old(self).stream_closed,
            final(self).pacer == old(self).pacer,
            old(self).queue@.len() == 0 ==> {
                &&& r is None
                &&& final(self).queue@ == old(self).queue@
                &&& final(self).sent_audio_start == old(self).sent_audio_start
            },
            old(self).queue@.len() > 0 ==> {
                &&& r matches Some(rel)
                &&& rel.chunk == old(self).queue@[0]
                &&& final(self).queue@ == old(self).queue@.subrange(
                    1,
                    old(self).queue@.len() as int,
                )
                &&& final(self).sent_audio_start
                &&& old(self).sent_audio_start ==> rel.audio_start is None
                &&& !old(self).sent_audio_start ==> (rel.audio_start matches Some(
                    ServerMessage::AssistantAudioStart {
                        sample_rate,
                        format,
                        channels,
                        chunk_samples,
                    },
                ) && sample_rate == STREAM_AUDIO_SAMPLE_RATE && format@ == PCM_FORMAT@
                    && channels == 1 && chunk_samples == rel.chunk.bytes@.len() / 2)
                &&& released_sent(rel) == relay_step(
                    old(self).saw_event,
                    old(self).sent_audio_start,
                    ReplyOp::Release,
                ).2
            },
    {
        match self.queue.pop_front() {
            None => None,
            Some(chunk) => {
                let audio_start = if !self.sent_audio_start {
                    self.sent_audio_start = true;
                    Some(
                        ServerMessage::AssistantAudioStart {
                            sample_rate: STREAM_AUDIO_SAMPLE_RATE,
                            format: PCM_FORMAT,
                            channels: 1,
                            chunk_samples: chunk.chunk_samples(),
                        },
                    )
                } else {
                    None
                };
                Some(ReleasedChunk { audio_start, chunk })
            },
        }
    }

    /// A chunk of `chunk_samples` samples was sent at `now`: the next one is
    /// due when it has played.
    /// Recording a chunk sent at `now` keeps the pacer's clock in range.
    pub open spec fn send_fits(&self, now: u64, chunk_samples: usize) -> bool {
        &&& chunk_samples * 125000 + 1 <= u64::MAX
        &&& self.pacer.pending_chunks > 1 ==> match self.pacer.next_release_at {
            Some(d) => (if d > now {
                d
            } else {
                now
            }) + spec_playback_nanos(chunk_samples as nat) <= u64::MAX,
            None => now + spec_playback_nanos(chunk_samples as nat) <= u64::MAX,
        }
    }

    /// Whether a chunk sent at `now` can be recorded with [`Self::chunk_sent`].
    pub fn chunk_send_fits(&self, now: u64, chunk_samples: usize) -> (b: bool)
        ensures
            b == self.send_fits(now, chunk_samples),
    {
        let total: u128 = (chunk_samples as u128) * 125000 + 1;
        if total > u64::MAX as u128 {
            return false;
        }
        if self.pacer.pending_chunks <= 1 {
            return true;
        }
        let duration: u128 = total / 3;
        let from: u64 = match self.pacer.next_release_at {
            Some(d) => if d > now {
                d
            } else {
                now
            },
            None => now,
        };
        (from as u128) + duration <= u64::MAX as u128
    }

    pub fn chunk_sent(&mut self, now: u64, chunk_samples: usize)
        requires
            chunk_samples * 125000 + 1 <= u64::MAX,
            old(self).pacer.pending_chunks > 1 ==> match old(self).pacer.next_release_at {
                Some(d) => (if d > now {
                    d
                } else {
                    now
                }) + spec_playback_nanos(chunk_samples as nat) <= u64::MAX,
                None => now + spec_playback_nanos(chunk_samples as nat) <= u64::MAX,
            },
        ensures
            final(self).saw_event == old(self).saw_event,
            final(self).sent_audio_start == old(self).sent_audio_start,
            final(self).stream_closed == old(self).stream_closed,
            final(self).queue@ == old(self).queue@,
            final(self).pacer == pacer_release_one(
                old(self).pacer,
                now,
                spec_playback_nanos(chunk_samples as nat) as u64,
            ),
    {
        let d = chunk_playback_duration(chunk_samples);
        self.pacer.release_one(now, d);
    }

    /// The message that ends the reply's audio, if any audio was sent.
    pub fn finish(&self) -> (m: Option<ServerMessage>)
        ensures
            self.sent_audio_start ==> m matches Some(ServerMessage::AssistantAudioEnd),
            !self.sent_audio_start ==> m is None,
            finished_sent(m) == relay_step(self.saw_event, self.sent_audio_start, ReplyOp::Finish).2,
    {
        if self.sent_audio_start {
            Some(ServerMessage::AssistantAudioEnd)
        } else {
            None
        }
    }
}

/// An audio turn carries exactly the audio received for it: the sample rate
/// announced at its start, the transcript flag of its end, and its bytes read
/// as little-endian 16-bit samples (low byte first, the high byte signed);
/// the turn is then closed.
pub proof fn lemma_audio_turn_carries_its_audio(
    pending: PendingAudioTurn,
    after: Option<PendingAudioTurn>,
    text_prompt: Option<String>,
    include_transcript: bool,
    r: Result<SessionAction, ApiError>,
    i: int,
)
    requires
        client_message_outcome(
            Some(pending),
            after,
            ClientMessage::UserAudioEnd { text_prompt, include_transcript },
            r,
        ),
        pending.bytes@.len() > 0,
        pending.bytes@.len() % 2 == 0,
    ensures
        after is None,
        r matches Ok(SessionAction::Audio { samples, sample_rate, include_transcript: it, .. }) && {
            &&& sample_rate == pending.sample_rate
            &&& it == include_transcript
            &&& 2 * samples@.len() == pending.bytes@.len()
            &&& 0 <= i < samples@.len() ==> samples@[i] as int == pending.bytes@[2 * i] as int
                + 256 * (pending.bytes@[2 * i + 1] as int) - (if pending.bytes@[2 * i + 1] >= 128 {
                65536int
            } else {
                0int
            })
        },
{
}

/// Every open audio turn ends in exactly one answer: with no audio the client
/// is told so, with an odd number of bytes it is refused, and otherwise it
/// is turned into an audio action; in every case no audio turn stays open.
pub proof fn lemma_audio_end_closes_the_turn(
    before: Option<PendingAudioTurn>,
    after: Option<PendingAudioTurn>,
    text_prompt: Option<String>,
    include_transcript: bool,
    r: Result<SessionAction, ApiError>,
)
    requires
        client_message_outcome(
            before,
            after,
            ClientMessage::UserAudioEnd { text_prompt, include_transcript },
            r,
        ),
    ensures
        after is None,
        before is None ==> r is Err,
        before matches Some(p) ==> (r is Ok <==> (p.bytes@.len() > 0 && p.bytes@.len() % 2 == 0)),
{
}

/// Only the audio messages touch the audio turn being received: starting a
/// session, a text turn and a ping leave it as it is, a reset drops it.
pub proof fn lemma_other_messages_keep_the_audio_turn(
    before: Option<PendingAudioTurn>,
    after: Option<PendingAudioTurn>,
    message: ClientMessage,
    r: Result<SessionAction, ApiError>,
)
    requires
        client_message_outcome(before, after, message, r),
    ensures
        (message is SessionStart || message is UserText || message is Ping) ==> after == before,
        message is SessionReset ==> (after is None && r matches Ok(SessionAction::Reset)),
        message is Ping ==> r matches Ok(SessionAction::Pong),
{
}

/// With several workers, a transcript is never asked of the worker that runs
/// the audio turn it transcribes, and no action needs a transcript worker
/// unless it is an audio turn that asks for one.
pub proof fn lemma_transcript_runs_beside_the_turn(
    action: SessionAction,
    d: Dispatch,
    old: SessionRouter,
    new: SessionRouter,
    session_id: u64,
)
    requires
        dispatch_for(action, d, old, new, session_id),
    ensures
        old.worker_count > 1 && d.transcript_worker is Some ==> d.transcript_worker != d.worker,
        d.transcript_worker is Some ==> action matches SessionAction::Audio {
            include_transcript: true,
            ..
        },
        d.worker matches Some(w) ==> w < old.worker_count,
        d.transcript_worker matches Some(t) ==> t < old.worker_count,
{
    if let SessionAction::Audio { include_transcript, .. } = action {
        if include_transcript && old.worker_count > 1 {
            let w = d.worker.unwrap();
            assert((w + 1) % (old.worker_count as int) != w) by (nonlinear_arith)
                requires
                    0 <= w < old.worker_count,
                    old.worker_count > 1,
            {
                if w + 1 < old.worker_count {
                    vstd::arithmetic::div_mod::lemma_small_mod((w + 1) as nat, old.worker_count as nat);
                } else {
                    vstd::arithmetic::div_mod::lemma_mod_self_0(old.worker_count as int);
                }
            }
            assert((w + 1) % (old.worker_count as int) < old.worker_count) by (nonlinear_arith)
                requires
                    old.worker_count > 1,
            ;
        }
    }
}

} // verus!
