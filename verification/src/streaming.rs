//! Streaming audio output of the demo server: the windowing of the streaming
//! detokenizer, which decodes recent frames with some retained context and
//! emits only the samples it has not emitted before, and the pacing of the
//! decoded chunks sent to the client.
//!
//! Instants are nanoseconds on a monotonic clock and durations are
//! nanoseconds.

use vstd::prelude::*;

use crate::server::{ApiError, StreamingDecodeConfig, STATUS_INTERNAL_SERVER_ERROR, SAMPLES_PER_FRAME};
use crate::text::owned;

verus! {

/// Windowing state of the streaming detokenizer.
pub struct StreamingDecodeState {
    /// Frames of the current decode window: retained context, then frames not
    /// yet decoded
    pub all_codes: Vec<[u16; 8]>,
    /// Frames of the window already decoded and emitted
    pub flushed_frames: usize,
    pub batch_frames: usize,
    pub context_frames: usize,
    pub decode_index: usize,
    /// Samples of the window's waveform already emitted
    pub last_emitted_samples: usize,
}

pub open spec fn sat_sub(a: int, b: int) -> int {
    if a > b {
        a - b
    } else {
        0
    }
}

/// Frames dropped from the front of a window of `len` frames so that at most
/// `context` remain.
pub open spec fn frames_to_drop(len: int, context: int) -> int {
    sat_sub(len, context)
}

pub open spec fn no_tail_message() -> Seq<char> {
    "streaming detokenizer produced no new waveform tail"@
}

/// Accounting of a decode window as plain numbers: frames in the window,
/// frames of it already decoded, and samples of its waveform already emitted.
pub open spec fn window_accounting(s: StreamingDecodeState) -> (nat, nat, nat) {
    (s.all_codes@.len(), s.flushed_frames as nat, s.last_emitted_samples as nat)
}

/// The accounting after `frames` more frames are pushed.
pub open spec fn accounting_after_push(a: (nat, nat, nat), frames: nat) -> (nat, nat, nat) {
    (a.0 + frames, a.1, a.2)
}

/// The accounting after the whole window is decoded to a waveform of
/// `samples` samples: the most recent `context` frames are kept, all counted
/// as decoded, and the emitted count is shifted by the samples of the dropped
/// frames.
pub open spec fn accounting_after_decode(a: (nat, nat, nat), samples: nat, context: nat) -> (nat, nat, nat) {
    let drop = frames_to_drop(a.0 as int, context as int);
    (
        (a.0 - drop) as nat,
        (a.0 - drop) as nat,
        sat_sub(samples as int, drop * SAMPLES_PER_FRAME) as nat,
    )
}

/// Samples of `frames` frames.
pub open spec fn frame_samples(frames: nat) -> nat {
    (frames * SAMPLES_PER_FRAME) as nat
}

/// Samples a decode of `samples` samples emits: those beyond the ones
/// emitted before.
pub open spec fn samples_emitted(a: (nat, nat, nat), samples: nat) -> nat {
    sat_sub(samples as int, a.2 as int) as nat
}

/// Samples emitted over a stream decoded batch by batch: before each decode
/// the next batch of frames is pushed, and each decode turns every frame of
/// the window into one frame of samples.
pub open spec fn stream_emitted(a: (nat, nat, nat), batches: Seq<nat>, context: nat) -> nat
    decreases batches.len(),
{
    if batches.len() == 0 {
        0
    } else {
        let pushed = accounting_after_push(a, batches[0]);
        let samples = frame_samples(pushed.0);
        samples_emitted(pushed, samples) + stream_emitted(
            accounting_after_decode(pushed, samples, context),
            batches.drop_first(),
            context,
        )
    }
}

/// Frames in all the batches.
pub open spec fn frames_total(batches: Seq<nat>) -> nat
    decreases batches.len(),
{
    if batches.len() == 0 {
        0
    } else {
        batches[0] + frames_total(batches.drop_first())
    }
}

proof fn lemma_stream_from_decoded_window(len: nat, batches: Seq<nat>, context: nat)
    requires
        context >= 1,
    ensures
        stream_emitted((len, len, frame_samples(len)), batches, context) == frame_samples(
            frames_total(batches),
        ),
    decreases batches.len(),
{
    if batches.len() > 0 {
        let b = batches[0];
        let pushed = accounting_after_push((len, len, frame_samples(len)), b);
        let samples = frame_samples(pushed.0);
        assert(samples == len * SAMPLES_PER_FRAME + b * SAMPLES_PER_FRAME) by (nonlinear_arith)
            requires
                samples == (len + b) * SAMPLES_PER_FRAME,
        ;
        let drop = frames_to_drop(pushed.0 as int, context as int);
        let kept = (pushed.0 - drop) as nat;
        assert(sat_sub(samples as int, drop * SAMPLES_PER_FRAME) == kept * SAMPLES_PER_FRAME)
            by (nonlinear_arith)
            requires
                samples == pushed.0 * SAMPLES_PER_FRAME,
                0 <= drop <= pushed.0,
                kept == pushed.0 - drop,
        ;
        lemma_stream_from_decoded_window(kept, batches.drop_first(), context);
        assert((b + frames_total(batches.drop_first())) * SAMPLES_PER_FRAME == b
            * SAMPLES_PER_FRAME + frames_total(batches.drop_first()) * SAMPLES_PER_FRAME)
            by (nonlinear_arith);
    }
}

/// From an empty window, a stream decoded batch by batch emits exactly the
/// samples of the frames pushed: every frame's samples once, none of the
/// retained context twice.
pub proof fn lemma_stream_emits_every_sample_once(batches: Seq<nat>, context: nat)
    requires
        context >= 1,
    ensures
        stream_emitted((0, 0, 0), batches, context) == frame_samples(frames_total(batches)),
{
    lemma_stream_from_decoded_window(0, batches, context);
}

impl StreamingDecodeState {
    pub fn new(config: StreamingDecodeConfig) -> (s: Self)
        ensures
            s.all_codes@.len() == 0,
            s.flushed_frames == 0,
            s.batch_frames == config.batch_frames,
            s.context_frames == config.context_frames,
            s.decode_index == 0,
            s.last_emitted_samples == 0,
    {
        StreamingDecodeState {
            all_codes: Vec::new(),
            flushed_frames: 0,
            batch_frames: config.batch_frames,
            context_frames: config.context_frames,
            decode_index: 0,
            last_emitted_samples: 0,
        }
    }

    pub open spec fn spec_pending_frames(&self) -> int {
        sat_sub(self.all_codes@.len() as int, self.flushed_frames as int)
    }

    /// Frames received but not yet decoded.
    pub fn pending_frames(&self) -> (n: usize)
        ensures
            n == self.spec_pending_frames(),
    {
        if self.all_codes.len() > self.flushed_frames {
            self.all_codes.len() - self.flushed_frames
        } else {
            0
        }
    }

    /// Add a generated frame; returns whether enough frames are pending to
    /// decode the window now.
    pub fn push_frame(&mut self, frame: [u16; 8]) -> (decode_now: bool)
        requires
            (old(self).all_codes@.len() + 1) * SAMPLES_PER_FRAME <= usize::MAX,
        ensures
            final(self).all_codes@ == old(self).all_codes@.push(frame),
            final(self).flushed_frames == old(self).flushed_frames,
            final(self).batch_frames == old(self).batch_frames,
            final(self).context_frames == old(self).context_frames,
            final(self).decode_index == old(self).decode_index,
            final(self).last_emitted_samples == old(self).last_emitted_samples,
            decode_now == (final(self).spec_pending_frames() >= old(self).batch_frames),
            window_accounting(*final(self)) == accounting_after_push(window_accounting(*old(self)), 1),
    {
        self.all_codes.push(frame);
        self.pending_frames() >= self.batch_frames
    }

    /// At the end of the stream: whether frames are left to decode.
    pub fn finish(&self) -> (decode_now: bool)
        ensures
            decode_now == (self.spec_pending_frames() > 0),
    {
        self.pending_frames() > 0
    }

    /// The frames to decode: the whole current window.
    pub fn window(&self) -> (w: &[[u16; 8]])
        ensures
            w@ == self.all_codes@,
    {
        self.all_codes.as_slice()
    }

    /// Account for the decoded waveform of the window, of `waveform_len`
    /// samples. Returns the range of samples to emit: those after the ones
    /// already emitted. Then only the most recent `context_frames` frames are
    /// kept as context, and the emitted count is shifted by the samples of the
    /// dropped frames.
    pub fn complete_decode(&mut self, waveform_len: usize) -> (r: Result<
        Option<(usize, usize)>,
        ApiError,
    >)
        requires
            old(self).all_codes@.len() > 0,
            old(self).decode_index < usize::MAX,
            old(self).all_codes@.len() * SAMPLES_PER_FRAME <= usize::MAX,
        ensures
            old(self).last_emitted_samples != 0 && old(self).last_emitted_samples >= waveform_len
                ==> {
                &&& r matches Err(e) && e.status == STATUS_INTERNAL_SERVER_ERROR && e.message@
                    == no_tail_message()
                &&& final(self).all_codes@ == old(self).all_codes@
                &&& final(self).flushed_frames == old(self).flushed_frames
                &&& final(self).decode_index == old(self).decode_index
                &&& final(self).last_emitted_samples == old(self).last_emitted_samples
            },
            !(old(self).last_emitted_samples != 0 && old(self).last_emitted_samples
                >= waveform_len) ==> {
                let drop = frames_to_drop(
                    old(self).all_codes@.len() as int,
                    old(self).context_frames as int,
                );
                &&& r == Ok::<Option<(usize, usize)>, ApiError>(
                    if old(self).last_emitted_samples == waveform_len {
                        None
                    } else {
                        Some((old(self).last_emitted_samples, waveform_len))
                    },
                )
                &&& final(self).all_codes@ == old(self).all_codes@.skip(drop)
                &&& final(self).flushed_frames == final(self).all_codes@.len()
                &&& final(self).decode_index == old(self).decode_index + 1
                &&& final(self).last_emitted_samples == sat_sub(
                    waveform_len as int,
                    drop * SAMPLES_PER_FRAME,
                )
            },
            final(self).batch_frames == old(self).batch_frames,
            final(self).context_frames == old(self).context_frames,
            r is Ok ==> window_accounting(*final(self)) == accounting_after_decode(
                window_accounting(*old(self)),
                waveform_len as nat,
                old(self).context_frames as nat,
            ),
            r matches Ok(Some((a, b))) ==> b - a == samples_emitted(
                window_accounting(*old(self)),
                waveform_len as nat,
            ),
            r matches Ok(None) ==> samples_emitted(window_accounting(*old(self)), waveform_len as nat)
                == 0,
            // When each frame of the window decodes to exactly one frame of
            // samples and the emitted count is the samples of the frames
            // already decoded, a decode with pending frames emits exactly the
            // samples of the pending frames, and the accounting holds again:
            // no sample of the retained context is emitted twice.
            old(self).flushed_frames <= old(self).all_codes@.len()
                && old(self).last_emitted_samples == old(self).flushed_frames * SAMPLES_PER_FRAME
                && waveform_len == old(self).all_codes@.len() * SAMPLES_PER_FRAME
                && old(self).spec_pending_frames() > 0 ==> {
                &&& r matches Ok(Some((a, b))) && b - a == old(self).spec_pending_frames()
                    * SAMPLES_PER_FRAME && b == waveform_len
                &&& final(self).last_emitted_samples == final(self).flushed_frames
                    * SAMPLES_PER_FRAME
            },
    {
        proof {
            if old(self).flushed_frames <= old(self).all_codes@.len() {
                lemma_frame_accounting(
                    old(self).all_codes@.len() as int,
                    old(self).flushed_frames as int,
                    frames_to_drop(
                        old(self).all_codes@.len() as int,
                        old(self).context_frames as int,
                    ),
                );
            }
        }
        let start = self.last_emitted_samples;
        if start != 0 && start >= waveform_len {
            return Err(ApiError::internal(owned("streaming detokenizer produced no new waveform tail")));
        }
        self.last_emitted_samples = waveform_len;
        self.retain_recent_context();
        self.decode_index = self.decode_index + 1;
        if start == waveform_len {
            Ok(None)
        } else {
            Ok(Some((start, waveform_len)))
        }
    }

    /// Keep only the most recent `context_frames` frames; the emitted count is
    /// shifted by the samples of the dropped frames.
    pub fn retain_recent_context(&mut self)
        requires
            old(self).all_codes@.len() * SAMPLES_PER_FRAME <= usize::MAX,
        ensures
            final(self).all_codes@ == old(self).all_codes@.skip(
                frames_to_drop(old(self).all_codes@.len() as int, old(self).context_frames as int),
            ),
            final(self).flushed_frames == final(self).all_codes@.len(),
            final(self).last_emitted_samples == sat_sub(
                old(self).last_emitted_samples as int,
                frames_to_drop(old(self).all_codes@.len() as int, old(self).context_frames as int)
                    * SAMPLES_PER_FRAME,
            ),
            final(self).batch_frames == old(self).batch_frames,
            final(self).context_frames == old(self).context_frames,
            final(self).decode_index == old(self).decode_index,
    {
        let len = self.all_codes.len();
        let keep_start = if len > self.context_frames {
            len - self.context_frames
        } else {
            0
        };
        if keep_start > 0 {
            proof {
                assert(keep_start * SAMPLES_PER_FRAME <= len * SAMPLES_PER_FRAME) by (nonlinear_arith)
                    requires
                        keep_start <= len,
                ;
            }
            let drained_samples = keep_start * SAMPLES_PER_FRAME;
            self.last_emitted_samples = if self.last_emitted_samples > drained_samples {
                self.last_emitted_samples - drained_samples
            } else {
                0
            };
            let kept = self.all_codes.split_off(keep_start);
            self.all_codes = kept;
        } else {
            proof {
                assert(self.all_codes@.skip(0) =~= self.all_codes@);
            }
        }
        self.flushed_frames = self.all_codes.len();
    }
}

proof fn lemma_frame_accounting(len: int, flushed: int, drop: int)
    requires
        0 <= flushed <= len,
        0 <= drop <= len,
    ensures
        flushed * SAMPLES_PER_FRAME <= len * SAMPLES_PER_FRAME,
        len * SAMPLES_PER_FRAME - flushed * SAMPLES_PER_FRAME == (len - flushed) * SAMPLES_PER_FRAME,
        drop * SAMPLES_PER_FRAME <= len * SAMPLES_PER_FRAME,
        len * SAMPLES_PER_FRAME - drop * SAMPLES_PER_FRAME == (len - drop) * SAMPLES_PER_FRAME,
        flushed < len ==> flushed * SAMPLES_PER_FRAME < len * SAMPLES_PER_FRAME,
{
    assert(flushed * SAMPLES_PER_FRAME <= len * SAMPLES_PER_FRAME) by (nonlinear_arith)
        requires
            flushed <= len,
    ;
    assert(len * SAMPLES_PER_FRAME - flushed * SAMPLES_PER_FRAME == (len - flushed)
        * SAMPLES_PER_FRAME) by (nonlinear_arith);
    assert(drop * SAMPLES_PER_FRAME <= len * SAMPLES_PER_FRAME) by (nonlinear_arith)
        requires
            drop <= len,
    ;
    assert(len * SAMPLES_PER_FRAME - drop * SAMPLES_PER_FRAME == (len - drop) * SAMPLES_PER_FRAME)
        by (nonlinear_arith);
    assert(flushed < len ==> flushed * SAMPLES_PER_FRAME < len * SAMPLES_PER_FRAME)
        by (nonlinear_arith);
}

/// Startup configuration of the output queue.
#[derive(Debug, Clone, Copy, PartialEq, Eq, Structural)]
pub struct OutputQueueConfig {
    pub startup_chunks: usize,
}

impl OutputQueueConfig {
    pub fn new(startup_chunks: usize) -> (c: Self)
        ensures
            c.startup_chunks == (if startup_chunks < 1 {
                1
            } else {
                startup_chunks
            }),
    {
        OutputQueueConfig {
            startup_chunks: if startup_chunks < 1 {
                1
            } else {
                startup_chunks
            },
        }
    }
}

/// Pacing of decoded audio chunks: nothing is released until the startup
/// queue is full (or the stream has ended), and after that chunks are released
/// no faster than they play.
#[derive(Debug, Clone, Copy, PartialEq, Eq, Structural)]
pub struct AudioOutputPacer {
    pub config: OutputQueueConfig,
    pub pending_chunks: usize,
    pub started: bool,
    pub next_release_at: Option<u64>,
}

pub open spec fn pacer_new(config: OutputQueueConfig) -> AudioOutputPacer {
    AudioOutputPacer { config, pending_chunks: 0, started: false, next_release_at: None }
}

pub open spec fn pacer_enqueue(p: AudioOutputPacer, now: u64) -> AudioOutputPacer {
    let pending = (p.pending_chunks + 1) as usize;
    if p.started && p.next_release_at is None {
        AudioOutputPacer { pending_chunks: pending, next_release_at: Some(now), ..p }
    } else if !p.started && pending >= p.config.startup_chunks {
        AudioOutputPacer {
            pending_chunks: pending,
            started: true,
            next_release_at: Some(now),
            ..p
        }
    } else {
        AudioOutputPacer { pending_chunks: pending, ..p }
    }
}

pub open spec fn pacer_finish_input(p: AudioOutputPacer, now: u64) -> AudioOutputPacer {
    if p.pending_chunks > 0 && p.next_release_at is None {
        AudioOutputPacer { started: true, next_release_at: Some(now), ..p }
    } else {
        p
    }
}

pub open spec fn pacer_release_one(p: AudioOutputPacer, now: u64, chunk_duration: u64) -> AudioOutputPacer {
    let pending = sat_sub(p.pending_chunks as int, 1) as usize;
    if pending == 0 {
        AudioOutputPacer { pending_chunks: 0, next_release_at: None, ..p }
    } else {
        let from = match p.next_release_at {
            Some(d) => if d > now {
                d
            } else {
                now
            },
            None => now,
        };
        AudioOutputPacer {
            pending_chunks: pending,
            next_release_at: Some((from + chunk_duration) as u64),
            ..p
        }
    }
}

/// `k` chunks enqueued at `now`.
pub open spec fn pacer_enqueue_n(p: AudioOutputPacer, k: nat, now: u64) -> AudioOutputPacer
    decreases k,
{
    if k == 0 {
        p
    } else {
        pacer_enqueue(pacer_enqueue_n(p, (k - 1) as nat, now), now)
    }
}

impl AudioOutputPacer {
    /// A release is scheduled exactly when the queue has started and holds
    /// chunks.
    pub open spec fn inv(&self) -> bool {
        self.next_release_at is Some <==> (self.started && self.pending_chunks > 0)
    }

    pub fn new(config: OutputQueueConfig) -> (p: Self)
        ensures
            p == pacer_new(config),
            p.inv(),
    {
        AudioOutputPacer { config, pending_chunks: 0, started: false, next_release_at: None }
    }

    /// A decoded chunk was queued at `now`.
    pub fn enqueue(&mut self, now: u64)
        requires
            old(self).pending_chunks < usize::MAX,
        ensures
            *final(self) == pacer_enqueue(*old(self), now),
            old(self).inv() ==> final(self).inv(),
            final(self).pending_chunks == old(self).pending_chunks + 1,
            old(self).inv() && old(self).next_release_at is Some ==> final(self).next_release_at
                == old(self).next_release_at,
    {
        self.pending_chunks = self.pending_chunks + 1;
        if self.started && self.next_release_at.is_none() {
            self.next_release_at = Some(now);
            return ;
        }
        if !self.started && self.pending_chunks >= self.config.startup_chunks {
            self.started = true;
            self.next_release_at = Some(now);
        }
    }

    /// The stream of chunks has ended at `now`: whatever is queued is
    /// released without waiting for the startup queue.
    pub fn finish_input(&mut self, now: u64)
        ensures
            *final(self) == pacer_finish_input(*old(self), now),
            old(self).inv() ==> final(self).inv(),
    {
        if self.pending_chunks > 0 && self.next_release_at.is_none() {
            self.started = true;
            self.next_release_at = Some(now);
        }
    }

    /// Time to wait from `now` until the next release, if one is scheduled.
    pub fn next_wake_delay(&self, now: u64) -> (d: Option<u64>)
        ensures
            d == (match self.next_release_at {
                Some(deadline) => Some(sat_sub(deadline as int, now as int) as u64),
                None => None,
            }),
    {
        match self.next_release_at {
            Some(deadline) => Some(
                if deadline > now {
                    deadline - now
                } else {
                    0
                },
            ),
            None => None,
        }
    }

    /// A chunk of `chunk_duration` was released at `now`; the next one is due
    /// one chunk duration after the later of its schedule and now.
    pub fn release_one(&mut self, now: u64, chunk_duration: u64)
        requires
            old(self).pending_chunks > 1 ==> match old(self).next_release_at {
                Some(d) => (if d > now {
                    d
                } else {
                    now
                }) + chunk_duration <= u64::MAX,
                None => now + chunk_duration <= u64::MAX,
            },
        ensures
            *final(self) == pacer_release_one(*old(self), now, chunk_duration),
            old(self).inv() && old(self).next_release_at is Some ==> final(self).inv(),
            final(self).next_release_at matches Some(d) ==> d >= now + chunk_duration,
            final(self).next_release_at matches Some(d) ==> (old(self).next_release_at matches Some(
                prev,
            ) ==> d >= prev + chunk_duration),
            final(self).pending_chunks == (if old(self).pending_chunks > 0 {
                old(self).pending_chunks - 1
            } else {
                0
            }),
    {
        self.pending_chunks = if self.pending_chunks > 0 {
            self.pending_chunks - 1
        } else {
            0
        };
        if self.pending_chunks == 0 {
            self.next_release_at = None;
            return ;
        }
        let scheduled_from = match self.next_release_at {
            Some(deadline) => if deadline > now {
                deadline
            } else {
                now
            },
            None => now,
        };
        self.next_release_at = Some(scheduled_from + chunk_duration);
    }
}

/// Nothing is released before the startup queue is full: after fewer than
/// `startup_chunks` chunks no release is scheduled, and the chunk that fills
/// the queue schedules one immediately.
pub proof fn lemma_startup_gate(config: OutputQueueConfig, k: nat, now: u64)
    requires
        config.startup_chunks >= 1,
        k <= config.startup_chunks,
    ensures
        pacer_enqueue_n(pacer_new(config), k, now).config == config,
        pacer_enqueue_n(pacer_new(config), k, now).pending_chunks == k,
        pacer_enqueue_n(pacer_new(config), k, now).started == (k == config.startup_chunks),
        pacer_enqueue_n(pacer_new(config), k, now).next_release_at == (if k
            < config.startup_chunks {
            None
        } else {
            Some(now)
        }),
    decreases k,
{
    if k > 0 {
        lemma_startup_gate(config, (k - 1) as nat, now);
    }
}

/// When the stream ends before the startup queue is full, the queued chunks
/// are released immediately.
pub proof fn lemma_early_end_flushes(config: OutputQueueConfig, k: nat, now: u64)
    requires
        config.startup_chunks >= 1,
        0 < k < config.startup_chunks,
    ensures
        pacer_finish_input(pacer_enqueue_n(pacer_new(config), k, now), now).next_release_at
            == Some(now),
{
    lemma_startup_gate(config, k, now);
}

/// Once started, a drained queue restarts at once: the next chunk is released
/// without waiting for the startup queue again.
pub proof fn lemma_restart_after_drain(p: AudioOutputPacer, now: u64)
    requires
        p.inv(),
        p.started,
        p.pending_chunks == 0,
    ensures
        pacer_enqueue(p, now).next_release_at == Some(now),
        pacer_enqueue(p, now).inv(),
{
}

/// A chunk released to the client, with the instant `T` it was produced at.
#[derive(Debug)]
pub struct QueuedAudioChunk<T> {
    pub bytes: Vec<u8>,
    pub chunk_index: usize,
    pub frame_index: usize,
    pub frame_elapsed_ms: u64,
    pub frame_gap_ms: u64,
    pub decode_elapsed_ms: u64,
    pub backend: &'static str,
    pub produced_at: T,
}

impl<T> QueuedAudioChunk<T> {
    /// Samples in the chunk: two bytes each.
    pub fn chunk_samples(&self) -> (n: usize)
        ensures
            n == self.bytes@.len() / 2,
    {
        self.bytes.len() / 2
    }
}

/// Playback duration of `chunk_samples` samples at 24 kHz, in nanoseconds,
/// rounded to the nearest nanosecond.
pub open spec fn spec_playback_nanos(chunk_samples: nat) -> nat {
    (chunk_samples * 125000 + 1) / 3
}

pub fn chunk_playback_duration(chunk_samples: usize) -> (d: u64)
    requires
        chunk_samples * 125000 + 1 <= u64::MAX,
    ensures
        d == spec_playback_nanos(chunk_samples as nat),
{
    let n = chunk_samples as u64;
    (n * 125000 + 1) / 3
}

/// Chunks are released at playback pace: queueing a chunk never moves a
/// scheduled release (in particular never earlier), and each release
/// schedules the next one at least one chunk duration after both the
/// previous schedule and the moment of the release.
pub proof fn lemma_releases_keep_pace(p: AudioOutputPacer, now: u64, later: u64, chunk_duration: u64)
    requires
        p.inv(),
        p.pending_chunks < usize::MAX,
        p.next_release_at is Some,
        (if p.next_release_at.unwrap() > later {
            p.next_release_at.unwrap()
        } else {
            later
        }) + chunk_duration <= u64::MAX,
    ensures
        pacer_enqueue(p, now).next_release_at == p.next_release_at,
        pacer_enqueue(p, now).pending_chunks == p.pending_chunks + 1,
        pacer_release_one(p, later, chunk_duration).next_release_at matches Some(d) ==> {
            &&& d >= later + chunk_duration
            &&& d >= p.next_release_at.unwrap() + chunk_duration
        },
        p.pending_chunks > 1 ==> pacer_release_one(p, later, chunk_duration).next_release_at is Some,
{
}

/// Playback time follows the 24 kHz output rate: 24 000 samples last one
/// second, and a chunk plays for at least as long as any smaller one.
pub proof fn lemma_playback_rate(k: nat, a: nat, b: nat)
    requires
        a <= b,
    ensures
        spec_playback_nanos(24000 * k) == 1_000_000_000 * k,
        spec_playback_nanos(a) <= spec_playback_nanos(b),
{
    assert(24000 * k * 125000 + 1 == 3 * (1_000_000_000 * k) + 1) by (nonlinear_arith);
    assert(a * 125000 + 1 <= b * 125000 + 1) by (nonlinear_arith)
        requires
            a <= b,
    ;
    vstd::arithmetic::div_mod::lemma_div_is_ordered(
        (a * 125000 + 1) as int,
        (b * 125000 + 1) as int,
        3,
    );
}

} // verus!
