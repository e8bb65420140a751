//! Interleaved audio-text generation schedule.
//!
//! The decoder alternates between a text phase, in which one text token is
//! sampled per step, and an audio phase, in which one frame of eight audio
//! codes is sampled per step. This module decides, from each sampled token or
//! frame, what is fed back to the decoder, what is emitted to the caller and
//! when the phase changes or the run stops. Sampling and the decoder run
//! themselves stay with the caller.

use vstd::prelude::*;

use crate::constants::{END_OF_AUDIO_TOKEN, MAX_AUDIO_CODE};
use crate::tokenizer::SpecialTokens;

verus! {

/// Incremental events emitted during interleaved generation.
#[derive(Debug, Clone)]
pub enum InterleavedEvent {
    TextUpdated(String),
    AudioFrame([u16; 8]),
}

/// A code as the detokenizer and the audio embeddings accept it.
pub open spec fn clamp_code(c: u16) -> u16 {
    if c > MAX_AUDIO_CODE {
        MAX_AUDIO_CODE
    } else {
        c
    }
}

/// A code as it is fed back to the decoder during interleaved generation:
/// the end-of-audio code is kept, every other code is clamped.
pub open spec fn feed_code(c: u16) -> u16 {
    if c == END_OF_AUDIO_TOKEN {
        END_OF_AUDIO_TOKEN
    } else {
        clamp_code(c)
    }
}

/// Every code of the frame is a valid audio code.
pub open spec fn frame_is_decodable(f: Seq<u16>) -> bool {
    forall|i: int| 0 <= i < f.len() ==> #[trigger] f[i] <= MAX_AUDIO_CODE
}

pub fn clamp_audio_code(c: u16) -> (r: u16)
    ensures
        r == clamp_code(c),
{
    if c > MAX_AUDIO_CODE {
        MAX_AUDIO_CODE
    } else {
        c
    }
}

/// Clamp every code of a frame to the valid audio range.
pub fn clamp_audio_frame(frame: [u16; 8]) -> (r: [u16; 8])
    ensures
        r@ == frame@.map_values(|c: u16| clamp_code(c)),
        frame_is_decodable(r@),
{
    let r = [
        clamp_audio_code(frame[0]),
        clamp_audio_code(frame[1]),
        clamp_audio_code(frame[2]),
        clamp_audio_code(frame[3]),
        clamp_audio_code(frame[4]),
        clamp_audio_code(frame[5]),
        clamp_audio_code(frame[6]),
        clamp_audio_code(frame[7]),
    ];
    assert(r@ =~= frame@.map_values(|c: u16| clamp_code(c)));
    r
}

fn feed_audio_code(c: u16) -> (r: u16)
    ensures
        r == feed_code(c),
{
    if c == END_OF_AUDIO_TOKEN {
        END_OF_AUDIO_TOKEN
    } else {
        clamp_audio_code(c)
    }
}

fn feed_audio_frame(frame: [u16; 8]) -> (r: [u16; 8])
    ensures
        r@ == frame@.map_values(|c: u16| feed_code(c)),
{
    let r = [
        feed_audio_code(frame[0]),
        feed_audio_code(frame[1]),
        feed_audio_code(frame[2]),
        feed_audio_code(frame[3]),
        feed_audio_code(frame[4]),
        feed_audio_code(frame[5]),
        feed_audio_code(frame[6]),
        feed_audio_code(frame[7]),
    ];
    assert(r@ =~= frame@.map_values(|c: u16| feed_code(c)));
    r
}

/// The per-phase budget: the override if given, else the model default, and at least one.
pub open spec fn spec_modality_budget(override_value: Option<usize>, default_value: usize) -> usize {
    let v = match override_value {
        Some(v) => v,
        None => default_value,
    };
    if v < 1 {
        1
    } else {
        v
    }
}

pub fn modality_budget(override_value: Option<usize>, default_value: usize) -> (r: usize)
    ensures
        r == spec_modality_budget(override_value, default_value),
        r >= 1,
{
    let v = match override_value {
        Some(v) => v,
        None => default_value,
    };
    if v < 1 {
        1
    } else {
        v
    }
}

/// Integer parameters of one interleaved generation run.
#[derive(Debug, Clone, Copy, PartialEq, Eq, Structural)]
pub struct InterleavedSchedule {
    /// Maximum number of decoder steps (text tokens plus audio frames)
    pub max_new_tokens: usize,
    /// Text tokens per text phase
    pub n_text: usize,
    /// Audio frames per audio phase
    pub n_audio: usize,
    /// Stop at `<|audio_start|>` and produce text only
    pub text_only: bool,
}

impl InterleavedSchedule {
    /// Resolve the schedule from the options and the model's defaults. In
    /// text-only mode the text phase is unbounded.
    pub fn new(
        max_new_tokens: usize,
        n_text_override: Option<usize>,
        n_audio_override: Option<usize>,
        model_n_text: usize,
        model_n_audio: usize,
        text_only: bool,
    ) -> (s: Self)
        ensures
            s.max_new_tokens == max_new_tokens,
            s.text_only == text_only,
            s.n_text == (if text_only {
                usize::MAX
            } else {
                spec_modality_budget(n_text_override, model_n_text)
            }),
            s.n_audio == spec_modality_budget(n_audio_override, model_n_audio),
            s.n_text >= 1,
            s.n_audio >= 1,
    {
        let n_text = if text_only {
            usize::MAX
        } else {
            modality_budget(n_text_override, model_n_text)
        };
        InterleavedSchedule {
            max_new_tokens,
            n_text,
            n_audio: modality_budget(n_audio_override, model_n_audio),
            text_only,
        }
    }
}

/// What the caller does after a text step.
#[derive(Debug, Clone, Copy, PartialEq, Eq, Structural)]
pub enum TextStep {
    /// The run is over: nothing is fed.
    Stop,
    /// Feed this text token to the decoder and report the updated text.
    Feed(u32),
}

/// What the caller does after an audio step.
#[derive(Debug, Clone, Copy)]
pub struct AudioStep {
    /// The frame fed back to the decoder through the audio embeddings
    pub feed: [u16; 8],
    /// The frame reported to the caller and kept for decoding, if any
    pub emitted: Option<[u16; 8]>,
}

/// One interleaved generation run in progress.
pub struct InterleavedState {
    pub schedule: InterleavedSchedule,
    pub special: SpecialTokens,
    pub in_audio_mode: bool,
    pub modality_left: usize,
    pub text_done: bool,
    pub finished: bool,
    /// Decoder steps fed so far
    pub steps: usize,
    /// Decoder cache length when the run started
    pub start_len: usize,
    /// Decoder cache length now
    pub total_len: usize,
    pub text_tokens: Vec<u32>,
    pub audio_codes: Vec<[u16; 8]>,
}

pub open spec fn saturating_dec(m: usize) -> usize {
    if m == 0 {
        0
    } else {
        (m - 1) as usize
    }
}

impl InterleavedState {
    /// The state stays consistent through every step.
    pub open spec fn inv(&self) -> bool {
        &&& self.schedule.n_text >= 1
        &&& self.schedule.n_audio >= 1
        &&& self.steps <= self.schedule.max_new_tokens
        &&& self.total_len < usize::MAX
        &&& self.total_len == self.start_len + self.steps
        &&& self.text_tokens.len() + self.audio_codes.len() <= self.steps
        &&& forall|i: int|
            0 <= i < self.text_tokens.len() ==> !self.special.spec_is_eos(
                #[trigger] self.text_tokens@[i],
            )
        &&& forall|i: int|
            0 <= i < self.audio_codes.len() ==> frame_is_decodable(
                #[trigger] self.audio_codes@[i]@,
            )
        &&& self.schedule.text_only ==> !self.in_audio_mode
        &&& self.schedule.text_only ==> self.audio_codes.len() == 0
    }

    /// Another step may be taken: the run is not over, the token budget is
    /// not spent, and the decoder has a position left for the step and for
    /// the closing `<|im_end|>`.
    pub open spec fn can_step(&self) -> bool {
        !self.finished && self.steps < self.schedule.max_new_tokens && self.total_len + 2
            < usize::MAX
    }

    /// Whether another step may be taken.
    pub fn can_continue(&self) -> (b: bool)
        requires
            self.inv(),
        ensures
            b == self.can_step(),
    {
        !self.finished && self.steps < self.schedule.max_new_tokens && self.total_len < usize::MAX
            - 2
    }

    /// Start a run on a decoder cache that already holds `cache_seq_len`
    /// positions, right after the prompt was prefilled.
    pub fn new(schedule: InterleavedSchedule, special: SpecialTokens, cache_seq_len: usize) -> (s: Self)
        requires
            schedule.n_text >= 1,
            schedule.n_audio >= 1,
            cache_seq_len < usize::MAX,
        ensures
            s.inv(),
            s.schedule == schedule,
            s.special == special,
            !s.in_audio_mode,
            s.modality_left == schedule.n_text,
            !s.text_done,
            !s.finished,
            s.steps == 0,
            s.start_len == cache_seq_len,
            s.total_len == cache_seq_len,
            s.text_tokens@ == Seq::<u32>::empty(),
            s.audio_codes@ == Seq::<[u16; 8]>::empty(),
    {
        InterleavedState {
            schedule,
            special,
            in_audio_mode: false,
            modality_left: schedule.n_text,
            text_done: false,
            finished: false,
            steps: 0,
            start_len: cache_seq_len,
            total_len: cache_seq_len,
            text_tokens: Vec::new(),
            audio_codes: Vec::new(),
        }
    }

    /// Take a text step with the sampled token.
    pub fn on_text_token(&mut self, token: u32) -> (r: TextStep)
        requires
            old(self).inv(),
            old(self).can_step(),
            !old(self).in_audio_mode,
        ensures
            final(self).inv(),
            final(self).schedule == old(self).schedule,
            final(self).special == old(self).special,
            final(self).start_len == old(self).start_len,
            final(self).audio_codes@ == old(self).audio_codes@,
            final(self).modality_left == (if r is Feed && (token == old(self).special.audio_start
                || ((saturating_dec(old(self).modality_left) == 0 || final(self).text_done)
                && !old(self).schedule.text_only)) {
                old(self).schedule.n_audio
            } else {
                saturating_dec(old(self).modality_left)
            }),
            old(self).special.spec_is_eos(token) ==> {
                &&& r == TextStep::Stop
                &&& final(self).finished
                &&& final(self).text_done == old(self).text_done
                &&& final(self).steps == old(self).steps
                &&& final(self).text_tokens@ == old(self).text_tokens@
                &&& final(self).in_audio_mode == old(self).in_audio_mode
            },
            !old(self).special.spec_is_eos(token) ==> {
                &&& final(self).text_done == (old(self).text_done || token
                    == old(self).special.text_end)
            },
            !old(self).special.spec_is_eos(token) && token == old(self).special.audio_start
                && old(self).schedule.text_only ==> {
                &&& r == TextStep::Stop
                &&& final(self).finished
                &&& final(self).steps == old(self).steps
                &&& final(self).text_tokens@ == old(self).text_tokens@
                &&& final(self).in_audio_mode == old(self).in_audio_mode
            },
            !old(self).special.spec_is_eos(token) && !(token == old(self).special.audio_start
                && old(self).schedule.text_only) ==> {
                &&& r == TextStep::Feed(token)
                &&& !final(self).finished
                &&& final(self).steps == old(self).steps + 1
                &&& final(self).text_tokens@ == old(self).text_tokens@.push(token)
                &&& final(self).in_audio_mode == (token == old(self).special.audio_start || ((
                saturating_dec(old(self).modality_left) == 0 || final(self).text_done)
                    && !old(self).schedule.text_only))
            },
            r is Feed && old(self).steps + 1 < old(self).schedule.max_new_tokens
                && old(self).total_len + 3 < usize::MAX ==> final(self).can_step(),
    {
        let m = if self.modality_left == 0 {
            0
        } else {
            self.modality_left - 1
        };
        self.modality_left = m;
        if self.special.is_eos(token) {
            self.finished = true;
            return TextStep::Stop;
        }
        if token == self.special.text_end {
            self.text_done = true;
        }
        if token == self.special.audio_start {
            if self.schedule.text_only {
                self.finished = true;
                return TextStep::Stop;
            }
            self.in_audio_mode = true;
            self.modality_left = self.schedule.n_audio;
        } else if (m == 0 || self.text_done) && !self.schedule.text_only {
            self.in_audio_mode = true;
            self.modality_left = self.schedule.n_audio;
        }
        self.text_tokens.push(token);
        self.steps = self.steps + 1;
        self.total_len = self.total_len + 1;
        TextStep::Feed(token)
    }

    /// Take an audio step with the sampled frame.
    pub fn on_audio_frame(&mut self, frame: [u16; 8]) -> (r: AudioStep)
        requires
            old(self).inv(),
            old(self).can_step(),
            old(self).in_audio_mode,
        ensures
            final(self).inv(),
            final(self).schedule == old(self).schedule,
            final(self).special == old(self).special,
            final(self).start_len == old(self).start_len,
            final(self).text_tokens@ == old(self).text_tokens@,
            final(self).text_done == old(self).text_done,
            !final(self).finished,
            final(self).steps == old(self).steps + 1,
            final(self).modality_left == (if saturating_dec(old(self).modality_left) == 0
                && !old(self).text_done {
                old(self).schedule.n_text
            } else {
                saturating_dec(old(self).modality_left)
            }),
            frame[0] == END_OF_AUDIO_TOKEN ==> {
                &&& r.emitted is None
                &&& r.feed@ == Seq::new(8, |i: int| END_OF_AUDIO_TOKEN)
                &&& !final(self).in_audio_mode
                &&& final(self).audio_codes@ == old(self).audio_codes@
            },
            frame[0] != END_OF_AUDIO_TOKEN ==> {
                &&& r.emitted is Some
                &&& r.emitted.unwrap()@ == frame@.map_values(|c: u16| clamp_code(c))
                &&& r.feed@ == frame@.map_values(|c: u16| feed_code(c))
                &&& final(self).in_audio_mode == !(saturating_dec(old(self).modality_left) == 0
                    && !old(self).text_done)
                &&& final(self).audio_codes@ == old(self).audio_codes@.push(r.emitted.unwrap())
            },
            old(self).steps + 1 < old(self).schedule.max_new_tokens && old(self).total_len + 3
                < usize::MAX ==> final(self).can_step(),
    {
        let m = if self.modality_left == 0 {
            0
        } else {
            self.modality_left - 1
        };
        self.modality_left = m;
        if m == 0 && !self.text_done {
            self.in_audio_mode = false;
            self.modality_left = self.schedule.n_text;
        }
        let r = if frame[0] == END_OF_AUDIO_TOKEN {
            self.in_audio_mode = false;
            let feed = [END_OF_AUDIO_TOKEN; 8];
            assert(feed@ =~= Seq::new(8, |i: int| END_OF_AUDIO_TOKEN));
            AudioStep { feed, emitted: None }
        } else {
            let clamped = clamp_audio_frame(frame);
            self.audio_codes.push(clamped);
            AudioStep { feed: feed_audio_frame(frame), emitted: Some(clamped) }
        };
        self.steps = self.steps + 1;
        self.total_len = self.total_len + 1;
        proof {
            assert forall|i: int| 0 <= i < self.audio_codes.len() implies frame_is_decodable(
                #[trigger] self.audio_codes@[i]@,
            ) by {
                if i < old(self).audio_codes.len() {
                    assert(self.audio_codes@[i] == old(self).audio_codes@[i]);
                }
            }
        }
        r
    }

    /// Close the assistant turn: `<|im_end|>` is fed once more, and the
    /// resulting decoder cache length is returned.
    pub fn finish(&mut self) -> (cache_seq_len: usize)
        requires
            old(self).inv(),
        ensures
            cache_seq_len == old(self).total_len + 1,
            final(self).total_len == cache_seq_len,
            final(self).finished,
            final(self).text_tokens@ == old(self).text_tokens@,
            final(self).audio_codes@ == old(self).audio_codes@,
    {
        self.finished = true;
        self.total_len = self.total_len + 1;
        self.total_len
    }
}

/// Only an end of the run stops it: whether another step may be taken does
/// not depend on the modality, on whether `<|text_end|>` was fed, on the
/// tokens and frames so far or on the modality budget; an unfinished run with
/// budget and decoder positions left goes on, and a finished or spent one
/// does not.
pub proof fn lemma_only_the_end_stops_a_run(s: InterleavedState, t: InterleavedState)
    requires
        t.finished == s.finished,
        t.steps == s.steps,
        t.schedule.max_new_tokens == s.schedule.max_new_tokens,
        t.total_len == s.total_len,
    ensures
        t.can_step() == s.can_step(),
        !s.finished && s.steps < s.schedule.max_new_tokens && s.total_len + 2 < usize::MAX
            ==> s.can_step(),
        s.finished ==> !s.can_step(),
        s.steps >= s.schedule.max_new_tokens ==> !s.can_step(),
{
}

/// Audio codes reach the detokenizer and the embeddings within the valid
/// range 0..=2047: a valid code passes as it is, anything above becomes 2047.
/// Fed back to the decoder, the end-of-audio code 2048 is kept and every
/// other code is clamped the same way.
pub proof fn lemma_audio_code_range(c: u16)
    ensures
        clamp_code(c) <= 2047,
        c <= 2047 ==> clamp_code(c) == c,
        c > 2047 ==> clamp_code(c) == 2047,
        feed_code(2048) == 2048,
        c != 2048 ==> feed_code(c) <= 2047,
        c <= 2047 ==> feed_code(c) == c,
        c > 2048 ==> feed_code(c) == 2047,
{
}

/// A phase budget is the override when one is given, else the model's
/// default, and never less than one.
pub proof fn lemma_modality_budget(n: usize, default_value: usize)
    ensures
        n >= 1 ==> spec_modality_budget(Some(n), default_value) == n,
        default_value >= 1 ==> spec_modality_budget(None, default_value) == default_value,
        spec_modality_budget(Some(n), default_value) >= 1,
        spec_modality_budget(None, default_value) >= 1,
        n == 0 ==> spec_modality_budget(Some(n), default_value) == 1,
{
}

} // verus!
