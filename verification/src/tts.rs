//! Sequential generation schedules: the text phase (used by ASR and by the
//! first phase of TTS), the audio phase of TTS, the per-frame depthformer
//! steps, and the index layouts of the tensors exchanged with the decoder and
//! the detokenizer.

use vstd::prelude::*;

use crate::constants::{END_OF_AUDIO_TOKEN, MAX_AUDIO_CODE};
use crate::error::{ErrorKind, LFM2Error};
use crate::interleaved::{clamp_audio_frame, clamp_code, frame_is_decodable, TextStep};
use crate::tokenizer::SpecialTokens;

verus! {

/// Events emitted by streaming synthesis.
#[derive(Debug, Clone)]
pub enum TTSEvent {
    TextUpdated(String),
    AudioFrame([u16; 8]),
}

/// Result of streaming synthesis: the text generated before the audio and the
/// generated audio frames.
#[derive(Debug, Clone)]
pub struct TTSStreamOutput {
    pub text: String,
    pub audio_codes: Vec<[u16; 8]>,
}

/// Autoregressive text generation that stops on an end-of-sequence token and,
/// for TTS, on `<|audio_start|>`.
pub struct TextDecodeState {
    pub special: SpecialTokens,
    pub stop_on_audio_start: bool,
    /// Maximum number of tokens to generate
    pub limit: usize,
    pub finished: bool,
    pub tokens: Vec<u32>,
}

impl TextDecodeState {
    /// The token ends the text phase.
    pub open spec fn spec_is_stop(&self, token: u32) -> bool {
        self.special.spec_is_eos(token) || (self.stop_on_audio_start && token
            == self.special.audio_start)
    }

    pub open spec fn inv(&self) -> bool {
        &&& self.tokens.len() <= self.limit
        &&& forall|i: int|
            0 <= i < self.tokens.len() ==> !self.spec_is_stop(#[trigger] self.tokens@[i])
    }

    pub open spec fn can_step(&self) -> bool {
        !self.finished && self.tokens.len() < self.limit
    }

    /// Transcription: up to `max_new_tokens` tokens, stopping at end of sequence.
    pub fn for_asr(special: SpecialTokens, max_new_tokens: usize) -> (s: Self)
        ensures
            s.inv(),
            s.special == special,
            !s.stop_on_audio_start,
            s.limit == max_new_tokens,
            !s.finished,
            s.tokens@ == Seq::<u32>::empty(),
    {
        TextDecodeState {
            special,
            stop_on_audio_start: false,
            limit: max_new_tokens,
            finished: false,
            tokens: Vec::new(),
        }
    }

    /// Text phase of synthesis: half of the budget is reserved for audio, and
    /// the phase ends at `<|audio_start|>` or at end of sequence.
    pub fn for_tts(special: SpecialTokens, max_new_tokens: usize) -> (s: Self)
        ensures
            s.inv(),
            s.special == special,
            s.stop_on_audio_start,
            s.limit == max_new_tokens / 2,
            !s.finished,
            s.tokens@ == Seq::<u32>::empty(),
    {
        TextDecodeState {
            special,
            stop_on_audio_start: true,
            limit: max_new_tokens / 2,
            finished: false,
            tokens: Vec::new(),
        }
    }

    /// Take one step with the sampled token.
    pub fn on_token(&mut self, token: u32) -> (r: TextStep)
        requires
            old(self).inv(),
            old(self).can_step(),
        ensures
            final(self).inv(),
            final(self).special == old(self).special,
            final(self).stop_on_audio_start == old(self).stop_on_audio_start,
            final(self).limit == old(self).limit,
            old(self).spec_is_stop(token) ==> {
                &&& r == TextStep::Stop
                &&& final(self).finished
                &&& final(self).tokens@ == old(self).tokens@
            },
            !old(self).spec_is_stop(token) ==> {
                &&& r == TextStep::Feed(token)
                &&& !final(self).finished
                &&& final(self).tokens@ == old(self).tokens@.push(token)
            },
    {
        let stop = if self.stop_on_audio_start && token == self.special.audio_start {
            true
        } else {
            self.special.is_eos(token)
        };
        if stop {
            self.finished = true;
            TextStep::Stop
        } else {
            self.tokens.push(token);
            TextStep::Feed(token)
        }
    }
}

/// Autoregressive audio generation of synthesis: one frame per step until the
/// first codebook yields the end-of-audio code.
pub struct AudioCodeState {
    pub limit: usize,
    pub finished: bool,
    /// Generated frames, as sampled
    pub codes: Vec<[u16; 8]>,
}

impl AudioCodeState {
    pub open spec fn inv(&self) -> bool {
        &&& self.codes.len() <= self.limit
        &&& forall|i: int|
            0 <= i < self.codes.len() ==> (#[trigger] self.codes@[i])[0] != END_OF_AUDIO_TOKEN
    }

    pub open spec fn can_step(&self) -> bool {
        !self.finished && self.codes.len() < self.limit
    }

    pub fn new(max_new_tokens: usize) -> (s: Self)
        ensures
            s.inv(),
            s.limit == max_new_tokens,
            !s.finished,
            s.codes@ == Seq::<[u16; 8]>::empty(),
    {
        AudioCodeState { limit: max_new_tokens, finished: false, codes: Vec::new() }
    }

    /// Take one step with the sampled frame. Returns the frame to feed back
    /// through the audio embeddings, or `None` when audio has ended.
    pub fn on_frame(&mut self, frame: [u16; 8]) -> (feed: Option<[u16; 8]>)
        requires
            old(self).inv(),
            old(self).can_step(),
        ensures
            final(self).inv(),
            final(self).limit == old(self).limit,
            frame[0] == END_OF_AUDIO_TOKEN ==> {
                &&& feed is None
                &&& final(self).finished
                &&& final(self).codes@ == old(self).codes@
            },
            frame[0] != END_OF_AUDIO_TOKEN ==> {
                &&& feed is Some
                &&& feed.unwrap()@ == frame@.map_values(|c: u16| clamp_code(c))
                &&& !final(self).finished
                &&& final(self).codes@ == old(self).codes@.push(frame)
            },
    {
        if frame[0] == END_OF_AUDIO_TOKEN {
            self.finished = true;
            None
        } else {
            self.codes.push(frame);
            Some(clamp_audio_frame(frame))
        }
    }
}

/// Inputs of one depthformer step.
#[derive(Debug, Clone, Copy, PartialEq, Eq, Structural)]
pub struct DepthStep {
    pub step_idx: i64,
    pub prev_token: i64,
    pub seqlens_k: i32,
    pub total_seq_len: i32,
}

/// The eight codebooks of one frame are sampled one after another; each step
/// sees the token sampled at the previous step.
pub struct DepthformerSteps {
    pub codes: [u16; 8],
    pub next_codebook: usize,
    pub prev_token: i64,
}

impl DepthformerSteps {
    pub fn new() -> (s: Self)
        ensures
            s.next_codebook == 0,
            s.prev_token == 0,
            s.codes@ == Seq::new(8, |i: int| 0u16),
    {
        let s = DepthformerSteps { codes: [0u16; 8], next_codebook: 0, prev_token: 0 };
        assert(s.codes@ =~= Seq::new(8, |i: int| 0u16));
        s
    }

    /// The inputs of the next step.
    pub fn inputs(&self) -> (d: DepthStep)
        requires
            self.next_codebook < 8,
        ensures
            d.step_idx == self.next_codebook,
            d.prev_token == self.prev_token,
            d.seqlens_k == self.next_codebook,
            d.total_seq_len == self.next_codebook + 1,
    {
        DepthStep {
            step_idx: self.next_codebook as i64,
            prev_token: self.prev_token,
            seqlens_k: self.next_codebook as i32,
            total_seq_len: (self.next_codebook + 1) as i32,
        }
    }

    /// Record the token sampled for the current codebook.
    pub fn record(&mut self, token: u32)
        requires
            old(self).next_codebook < 8,
        ensures
            final(self).next_codebook == old(self).next_codebook + 1,
            final(self).prev_token == token,
            final(self).codes@ == old(self).codes@.update(
                old(self).next_codebook as int,
                token as u16,
            ),
    {
        let cb = self.next_codebook;
        self.codes[cb] = token as u16;
        self.prev_token = token as i64;
        self.next_codebook = cb + 1;
    }
}

/// The detokenizer input `[1, 8, frames]` in row-major order: codebook-major,
/// every code clamped to the valid audio range.
pub open spec fn spec_detokenizer_input(codes: Seq<[u16; 8]>) -> Seq<i64> {
    Seq::new(
        (8 * codes.len()) as nat,
        |k: int| clamp_code(codes[k % (codes.len() as int)]@[k / (codes.len() as int)]) as i64,
    )
}

/// The detokenizer's input does not depend on codes above the audio range:
/// two frame sequences whose codes clamp alike (for instance a sequence and
/// its clamped copy, the end-of-audio code among them) give the same input.
pub proof fn lemma_detokenizer_input_ignores_out_of_range(codes: Seq<[u16; 8]>, other: Seq<[u16; 8]>)
    requires
        codes.len() == other.len(),
        forall|t: int, c: int|
            0 <= t < codes.len() && 0 <= c < 8 ==> clamp_code(#[trigger] codes[t]@[c]) == clamp_code(
                other[t]@[c],
            ),
    ensures
        spec_detokenizer_input(codes) == spec_detokenizer_input(other),
{
    let n = codes.len() as int;
    let a = spec_detokenizer_input(codes);
    let b = spec_detokenizer_input(other);
    assert forall|k: int| 0 <= k < a.len() implies a[k] == b[k] by {
        assert(n > 0);
        assert(0 <= k % n < n) by (nonlinear_arith)
            requires
                n > 0,
        ;
        assert(0 <= k / n < 8) by (nonlinear_arith)
            requires
                n > 0,
                0 <= k < 8 * n,
        ;
        assert(clamp_code(codes[k % n]@[k / n]) == clamp_code(other[k % n]@[k / n]));
    }
    assert(a =~= b);
}

/// The detokenizer run for a list of frames: none when there are no frames
/// (their waveform is empty), else its `audio_codes` input.
pub fn detokenizer_request(codes: &Vec<[u16; 8]>) -> (r: Option<Vec<i64>>)
    requires
        8 * codes.len() <= usize::MAX,
    ensures
        codes.len() == 0 <==> r is None,
        r matches Some(input) ==> input@ == spec_detokenizer_input(codes@),
{
    if codes.len() == 0 {
        None
    } else {
        Some(detokenizer_input(codes))
    }
}

/// Lay out audio frames as the detokenizer's `audio_codes` tensor.
pub fn detokenizer_input(codes: &Vec<[u16; 8]>) -> (r: Vec<i64>)
    requires
        8 * codes.len() <= usize::MAX,
    ensures
        r@ == spec_detokenizer_input(codes@),
{
    let n = codes.len();
    let mut r: Vec<i64> = Vec::new();
    let mut cb: usize = 0;
    while cb < 8
        invariant
            n == codes.len(),
            8 * n <= usize::MAX,
            cb <= 8,
            r.len() == cb * n,
            forall|k: int|
                0 <= k < r.len() ==> #[trigger] r@[k] == clamp_code(codes@[k % (n as int)]@[k / (
                n as int)]) as i64,
        decreases 8 - cb,
    {
        let mut t: usize = 0;
        while t < n
            invariant
                n == codes.len(),
                8 * n <= usize::MAX,
                cb < 8,
                t <= n,
                r.len() == cb * n + t,
                forall|k: int|
                    0 <= k < r.len() ==> #[trigger] r@[k] == clamp_code(
                        codes@[k % (n as int)]@[k / (n as int)],
                    ) as i64,
            decreases n - t,
        {
            proof {
                assert(cb * n + t < 8 * n) by (nonlinear_arith)
                    requires
                        cb < 8,
                        t < n,
                ;
                let k = (cb * n + t) as int;
                assert(k % (n as int) == t && k / (n as int) == cb) by (nonlinear_arith)
                    requires
                        k == cb * n + t,
                        t < n,
                ;
            }
            let c = clamp_audio_code_i64(codes[t][cb]);
            r.push(c);
            t = t + 1;
        }
        proof {
            assert((cb + 1) * n == cb * n + n) by (nonlinear_arith);
        }
        cb = cb + 1;
    }
    proof {
        assert(r@ =~= spec_detokenizer_input(codes@));
    }
    r
}

fn clamp_audio_code_i64(c: u16) -> (r: i64)
    ensures
        r == clamp_code(c) as i64,
{
    if c > MAX_AUDIO_CODE {
        MAX_AUDIO_CODE as i64
    } else {
        c as i64
    }
}

/// The last of `seq_len` rows of width `width`, from a row-major buffer.
pub fn last_row<T: Copy>(data: &Vec<T>, seq_len: usize, width: usize) -> (r: Result<
    Vec<T>,
    LFM2Error,
>)
    requires
        seq_len >= 1,
        (seq_len - 1) * width + width <= usize::MAX,
    ensures
        ((seq_len - 1) * width + width > data.len()) <==> r is Err,
        r matches Ok(row) ==> row@ == data@.subrange(
            (seq_len - 1) * width,
            (seq_len - 1) * width + width,
        ),
        r matches Err(e) ==> e@ == (ErrorKind::Generation, "Invalid logits shape"@),
{
    let offset = (seq_len - 1) * width;
    if offset + width > data.len() {
        return Err(LFM2Error::Generation(crate::text::owned("Invalid logits shape")));
    }
    let mut row: Vec<T> = Vec::new();
    let mut i = offset;
    while i < offset + width
        invariant
            offset + width <= data.len(),
            offset <= i <= offset + width,
            row@ == data@.subrange(offset as int, i as int),
        decreases offset + width - i,
    {
        row.push(data[i]);
        i = i + 1;
        proof {
            assert(row@ =~= data@.subrange(offset as int, i as int));
        }
    }
    Ok(row)
}

/// The value at position `k` of a `[frames, width]` frame-major buffer holding
/// `width` consecutive values of every `stride`-wide source frame, starting at
/// column `first` of that frame.
pub open spec fn frame_column<T>(flat: Seq<T>, stride: int, first: int, width: int, k: int) -> T
    recommends
        width > 0,
{
    flat[(k / width) * stride + first + k % width]
}

/// Split frame-major detokenizer features `[frames, feature_dim]` into the
/// first `n_freqs` values of every frame (log-magnitude) and the next
/// `n_freqs` values (phase), each laid out frame-major `[frames, n_freqs]`.
pub fn split_polar_features<T: Copy>(
    flat: &Vec<T>,
    frames: usize,
    feature_dim: usize,
    n_freqs: usize,
) -> (r: (Vec<T>, Vec<T>))
    requires
        n_freqs > 0,
        frames * feature_dim <= usize::MAX,
        frames * n_freqs <= usize::MAX,
        frames == 0 || (frames - 1) * feature_dim + 2 * n_freqs <= flat.len(),
    ensures
        r.0@ == Seq::new(
            (frames * n_freqs) as nat,
            |k: int| frame_column(flat@, feature_dim as int, 0, n_freqs as int, k),
        ),
        r.1@ == Seq::new(
            (frames * n_freqs) as nat,
            |k: int| frame_column(flat@, feature_dim as int, n_freqs as int, n_freqs as int, k),
        ),
        forall|k: int|
            0 <= k < frames * n_freqs ==> #[trigger] r.0@[k] == flat@[(k / (n_freqs as int))
                * feature_dim + k % (n_freqs as int)],
        forall|k: int|
            0 <= k < frames * n_freqs ==> #[trigger] r.1@[k] == flat@[(k / (n_freqs as int))
                * feature_dim + n_freqs + k % (n_freqs as int)],
{
    let total = frames * n_freqs;
    let mut mag: Vec<T> = Vec::new();
    let mut phase: Vec<T> = Vec::new();
    let mut k: usize = 0;
    while k < total
        invariant
            n_freqs > 0,
            total == frames * n_freqs,
            frames * feature_dim <= usize::MAX,
            frames == 0 || (frames - 1) * feature_dim + 2 * n_freqs <= flat.len(),
            k <= total,
            mag@ == Seq::new(
                k as nat,
                |j: int| frame_column(flat@, feature_dim as int, 0, n_freqs as int, j),
            ),
            phase@ == Seq::new(
                k as nat,
                |j: int| frame_column(flat@, feature_dim as int, n_freqs as int, n_freqs as int, j),
            ),
        decreases total - k,
    {
        let f = k / n_freqs;
        let i = k % n_freqs;
        proof {
            assert(f < frames) by (nonlinear_arith)
                requires
                    f == k / n_freqs,
                    k < frames * n_freqs,
                    n_freqs > 0,
            ;
            assert(f * feature_dim <= (frames - 1) * feature_dim) by (nonlinear_arith)
                requires
                    f < frames,
            ;
        }
        let base = f * feature_dim;
        mag.push(flat[base + i]);
        phase.push(flat[base + n_freqs + i]);
        k = k + 1;
        proof {
            assert(mag@ =~= Seq::new(
                k as nat,
                |j: int| frame_column(flat@, feature_dim as int, 0, n_freqs as int, j),
            ));
            assert(phase@ =~= Seq::new(
                k as nat,
                |j: int| frame_column(flat@, feature_dim as int, n_freqs as int, n_freqs as int, j),
            ));
        }
    }
    (mag, phase)
}

/// Position `i` of frame `f` of the split halves: the magnitude half holds the
/// frame's first `width` values and the phase half the `width` values after
/// them, each in the frame's order.
pub proof fn lemma_frame_column_halves<T>(flat: Seq<T>, stride: int, width: int, f: int, i: int)
    requires
        width > 0,
        f >= 0,
        0 <= i < width,
    ensures
        frame_column(flat, stride, 0, width, f * width + i) == flat[f * stride + i],
        frame_column(flat, stride, width, width, f * width + i) == flat[f * stride + width + i],
{
    assert((f * width + i) / width == f && (f * width + i) % width == i) by (nonlinear_arith)
        requires
            width > 0,
            f >= 0,
            0 <= i < width,
    {
        vstd::arithmetic::div_mod::lemma_fundamental_div_mod_converse(f * width + i, width, f, i);
    }
}

/// The detokenizer input is codebook-major: codebook `cb` of frame `t` sits
/// at `cb * frames + t`, clamped to the valid code range.
pub proof fn lemma_detokenizer_input_layout(codes: Seq<[u16; 8]>, cb: int, t: int)
    requires
        0 <= cb < 8,
        0 <= t < codes.len(),
    ensures
        spec_detokenizer_input(codes).len() == 8 * codes.len(),
        cb * codes.len() + t < 8 * codes.len(),
        spec_detokenizer_input(codes)[cb * codes.len() + t] == (if codes[t]@[cb] > 2047 {
            2047
        } else {
            codes[t]@[cb]
        }) as i64,
{
    let n = codes.len() as int;
    let k = cb * n + t;
    assert(k < 8 * n && k / n == cb && k % n == t) by (nonlinear_arith)
        requires
            0 <= cb < 8,
            0 <= t < n,
            k == cb * n + t,
    {
        vstd::arithmetic::div_mod::lemma_fundamental_div_mod_converse(k, n, cb, t);
    }
}

/// Text decoding stops exactly at the end-of-sequence tokens
/// (`<|endoftext|>` and `<|im_end|>`) and, in the text phase of synthesis
/// only, at `<|audio_start|>`; any other token is kept.
pub proof fn lemma_text_stops(s: TextDecodeState, token: u32)
    ensures
        (token == s.special.end_of_text || token == s.special.im_end) ==> s.spec_is_stop(token),
        (s.stop_on_audio_start && token == s.special.audio_start) ==> s.spec_is_stop(token),
        (!s.stop_on_audio_start && token != s.special.end_of_text && token != s.special.im_end)
            ==> !s.spec_is_stop(token),
        (token != s.special.end_of_text && token != s.special.im_end && token
            != s.special.audio_start) ==> !s.spec_is_stop(token),
{
}

} // verus!
