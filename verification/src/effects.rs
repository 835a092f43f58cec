//! Offline effects on decoded PCM: reverse, linear fade in and out, and
//! partial playback, applied to a buffer of interleaved 16-bit samples.
//!
//! Gains are fixed point: a sample scaled by `num/den` becomes
//! `sample * num / den`, computed exactly in wide integers and truncated
//! toward zero.  Fade lengths are derived from a duration in milliseconds
//! and the source's sample rate and channel count; window bounds of partial
//! playback are permille fractions of the buffer.

use vstd::arithmetic::div_mod::{
    lemma_div_is_ordered, lemma_div_multiples_vanish, lemma_div_pos_is_pos,
};
use vstd::arithmetic::mul::{lemma_mul_inequality, lemma_mul_is_commutative, lemma_mul_nonnegative};
use vstd::pervasive::VecAdditionalExecFns;
use vstd::prelude::*;

verus! {

/// Effects that can be applied to a sample before playback.  Durations are
/// in milliseconds; window bounds are in permille of the sample's length.
#[derive(Debug, Clone, Copy, PartialEq, Eq, Structural)]
pub enum SampleEffect {
    /// Play the sample in reverse.
    Reverse,
    /// Ramp the first samples of the given duration linearly from silence
    /// to full scale.
    FadeIn(u32),
    /// Ramp the last samples of the given duration linearly from full
    /// scale to silence.
    FadeOut(u32),
    /// Keep only the window between two permille fractions of the sample's
    /// length; the bounds are clamped to `0 <= start <= end <= 1000`.
    Partial(u32, u32),
}

/// `s` scaled by `num/den`, truncated toward zero.
pub open spec fn scaled(s: int, num: int, den: int) -> int {
    if s >= 0 {
        s * num / den
    } else {
        -((-s) * num / den)
    }
}

/// Scaling by a factor of at most one keeps a value between zero and the
/// value itself (between the value and zero for negative values); in
/// particular it stays a 16-bit sample.
pub proof fn lemma_scaled_bounds(s: int, num: int, den: int)
    requires
        -0x8000 <= s <= 0x7fff,
        0 <= num <= den,
        0 < den,
    ensures
        s >= 0 ==> 0 <= scaled(s, num, den) <= s,
        s < 0 ==> s <= scaled(s, num, den) <= 0,
        -0x8000 <= scaled(s, num, den) <= 0x7fff,
{
    let a = if s >= 0 {
        s
    } else {
        -s
    };
    lemma_mul_nonnegative(a, num);
    lemma_div_pos_is_pos(a * num, den);
    lemma_mul_inequality(num, den, a);
    lemma_mul_is_commutative(num, a);
    lemma_mul_is_commutative(den, a);
    lemma_div_is_ordered(a * num, den * a, den);
    lemma_div_multiples_vanish(a, den);
}

/// Largest fade denominator the scaler accepts; far above any fade length
/// a sample rate, duration and channel count can produce.
pub const FADE_DEN_LIMIT: u128 = 0x100000000000000000000;

/// One sample scaled by `num/den`.
fn scale_sample(s: i16, num: u128, den: u128) -> (r: i16)
    requires
        0 < den <= FADE_DEN_LIMIT,
        num <= den,
    ensures
        r as int == scaled(s as int, num as int, den as int),
{
    proof {
        lemma_scaled_bounds(s as int, num as int, den as int);
    }
    if s >= 0 {
        proof {
            assert((s as u128) * num <= 0x8000u128 * FADE_DEN_LIMIT) by (nonlinear_arith)
                requires
                    s as u128 <= 0x7fffu128,
                    num <= FADE_DEN_LIMIT,
            ;
        }
        let v: u128 = (s as u128) * num / den;
        v as i16
    } else {
        let a: u128 = (-(s as i32)) as u128;
        proof {
            assert(a * num <= 0x8000u128 * FADE_DEN_LIMIT) by (nonlinear_arith)
                requires
                    a <= 0x8000u128,
                    num <= FADE_DEN_LIMIT,
            ;
        }
        let v: u128 = a * num / den;
        (-(v as i32)) as i16
    }
}

/// A buffer after a linear fade in over its first `fade` samples: sample
/// `i` is scaled by `i/fade` while `i < fade`, and untouched after.
pub open spec fn fade_in_seq(s: Seq<i16>, fade: int) -> Seq<i16> {
    Seq::new(
        s.len(),
        |i: int|
            if i < fade {
                scaled(s[i] as int, i, fade) as i16
            } else {
                s[i]
            },
    )
}

/// A buffer after a linear fade out over its last `fade` samples: sample
/// `i` is scaled by `(len - i)/fade` once `len - i <= fade`, so the ramp
/// ends at `1/fade` on the last sample.
pub open spec fn fade_out_seq(s: Seq<i16>, fade: int) -> Seq<i16> {
    Seq::new(
        s.len(),
        |i: int|
            if s.len() - i <= fade {
                scaled(s[i] as int, s.len() - i, fade) as i16
            } else {
                s[i]
            },
    )
}

/// Number of interleaved samples a duration covers: `rate` frames per
/// second times `ms/1000` seconds times `channels` samples per frame.
pub open spec fn fade_len(rate: int, ms: int, channels: int) -> int {
    rate * ms * channels / 1000
}

/// A permille fraction clamped into `[low, 1000]`.
pub open spec fn clamp_permille_from(v: int, low: int) -> int {
    if v < low {
        low
    } else if v > 1000 {
        1000
    } else {
        v
    }
}

/// The window of a buffer of length `len` that `Partial(a, b)` keeps,
/// after clamping to `0 <= a' <= b' <= 1000`: sample indices
/// `[len*a'/1000, len*b'/1000)`.
pub open spec fn partial_window(len: int, a: int, b: int) -> (int, int) {
    let a1 = clamp_permille_from(a, 0);
    let b1 = clamp_permille_from(b, a1);
    (len * a1 / 1000, len * b1 / 1000)
}

/// A buffer reduced to its `Partial(a, b)` window.
pub open spec fn partial_seq(s: Seq<i16>, a: int, b: int) -> Seq<i16> {
    let (start, end) = partial_window(s.len() as int, a, b);
    s.subrange(start, end)
}

/// The `Partial` window lies inside the buffer and is well ordered.
pub proof fn lemma_partial_window_in_bounds(len: int, a: int, b: int)
    requires
        0 <= len,
    ensures
        ({
            let (start, end) = partial_window(len, a, b);
            0 <= start <= end <= len
        }),
{
    let a1 = clamp_permille_from(a, 0);
    let b1 = clamp_permille_from(b, a1);
    lemma_mul_nonnegative(len, a1);
    lemma_div_pos_is_pos(len * a1, 1000);
    lemma_mul_inequality(a1, b1, len);
    lemma_mul_is_commutative(a1, len);
    lemma_mul_is_commutative(b1, len);
    lemma_div_is_ordered(len * a1, len * b1, 1000);
    lemma_mul_inequality(b1, 1000, len);
    lemma_mul_is_commutative(1000, len);
    lemma_div_is_ordered(len * b1, len * 1000, 1000);
    lemma_div_multiples_vanish(len, 1000);
    assert(len * 1000 == 1000 * len);
}

/// One effect applied to a buffer of interleaved samples.
pub open spec fn effect_applied(s: Seq<i16>, e: SampleEffect, channels: int, rate: int) -> Seq<
    i16,
> {
    match e {
        SampleEffect::Reverse => s.reverse(),
        SampleEffect::FadeIn(ms) => fade_in_seq(s, fade_len(rate, ms as int, channels)),
        SampleEffect::FadeOut(ms) => fade_out_seq(s, fade_len(rate, ms as int, channels)),
        SampleEffect::Partial(a, b) => partial_seq(s, a as int, b as int),
    }
}

/// A chain of effects applied in declared order.
pub open spec fn chain_applied(
    s: Seq<i16>,
    es: Seq<SampleEffect>,
    channels: int,
    rate: int,
) -> Seq<i16>
    decreases es.len(),
{
    if es.len() == 0 {
        s
    } else {
        chain_applied(
            effect_applied(s, es[0], channels, rate),
            es.subrange(1, es.len() as int),
            channels,
            rate,
        )
    }
}

/// Fade the first `fade` samples of a buffer in, in place.
fn apply_fade_in(samples: &mut Vec<i16>, fade: u128)
    requires
        0 < fade <= FADE_DEN_LIMIT,
    ensures
        final(samples)@ == fade_in_seq(old(samples)@, fade as int),
{
    let n = samples.len();
    let ghost target = fade_in_seq(old(samples)@, fade as int);
    let mut i: usize = 0;
    while i < n
        invariant
            n == samples@.len(),
            i <= n,
            0 < fade <= FADE_DEN_LIMIT,
            target == fade_in_seq(old(samples)@, fade as int),
            target.len() == n,
            forall|j: int| 0 <= j < i ==> samples@[j] == target[j],
            forall|j: int| i <= j < n ==> samples@[j] == old(samples)@[j],
        decreases n - i,
    {
        if (i as u128) < fade {
            let s = samples[i];
            let v = scale_sample(s, i as u128, fade);
            samples.set(i, v);
        }
        i = i + 1;
    }
    proof {
        assert(samples@ =~= target);
    }
}

/// Fade the last `fade` samples of a buffer out, in place.
fn apply_fade_out(samples: &mut Vec<i16>, fade: u128)
    requires
        0 < fade <= FADE_DEN_LIMIT,
    ensures
        final(samples)@ == fade_out_seq(old(samples)@, fade as int),
{
    let n = samples.len();
    let ghost target = fade_out_seq(old(samples)@, fade as int);
    let mut i: usize = 0;
    while i < n
        invariant
            n == samples@.len(),
            i <= n,
            0 < fade <= FADE_DEN_LIMIT,
            target == fade_out_seq(old(samples)@, fade as int),
            target.len() == n,
            forall|j: int| 0 <= j < i ==> samples@[j] == target[j],
            forall|j: int| i <= j < n ==> samples@[j] == old(samples)@[j],
        decreases n - i,
    {
        if ((n - i) as u128) <= fade {
            let s = samples[i];
            let v = scale_sample(s, (n - i) as u128, fade);
            samples.set(i, v);
        }
        i = i + 1;
    }
    proof {
        assert(samples@ =~= target);
    }
}

/// Reverse a buffer into a new one.
fn apply_reverse(samples: &Vec<i16>) -> (r: Vec<i16>)
    ensures
        r@ == samples@.reverse(),
{
    let n = samples.len();
    let mut out: Vec<i16> = Vec::new();
    let mut i: usize = 0;
    while i < n
        invariant
            n == samples@.len(),
            i <= n,
            out@.len() == i,
            forall|j: int| 0 <= j < i ==> out@[j] == samples@[n - 1 - j],
        decreases n - i,
    {
        out.push(samples[n - 1 - i]);
        i = i + 1;
    }
    proof {
        assert(out@ =~= samples@.reverse());
    }
    out
}

/// Cut a buffer down to its `Partial(a, b)` window.
fn apply_partial(samples: &Vec<i16>, a: u32, b: u32) -> (r: Vec<i16>)
    ensures
        r@ == partial_seq(samples@, a as int, b as int),
{
    let a1: u32 = if a > 1000 {
        1000
    } else {
        a
    };
    let b1: u32 = if b < a1 {
        a1
    } else if b > 1000 {
        1000
    } else {
        b
    };
    let n = samples.len();
    proof {
        lemma_partial_window_in_bounds(n as int, a as int, b as int);
    }
    let start: usize = ((n as u128) * (a1 as u128) / 1000) as usize;
    let end: usize = ((n as u128) * (b1 as u128) / 1000) as usize;
    let mut out: Vec<i16> = Vec::new();
    let mut i: usize = start;
    while i < end
        invariant
            n == samples@.len(),
            start <= i <= end <= n,
            out@.len() == i - start,
            forall|j: int| start <= j < i ==> out@[j - start] == samples@[j],
        decreases end - i,
    {
        out.push(samples[i]);
        i = i + 1;
    }
    proof {
        assert(out@ =~= partial_seq(samples@, a as int, b as int));
    }
    out
}

/// Appending an effect to a chain applies it after the chain.
pub proof fn lemma_chain_applied_snoc(
    s: Seq<i16>,
    es: Seq<SampleEffect>,
    e: SampleEffect,
    channels: int,
    rate: int,
)
    ensures
        chain_applied(s, es.push(e), channels, rate) == effect_applied(
            chain_applied(s, es, channels, rate),
            e,
            channels,
            rate,
        ),
    decreases es.len(),
{
    let snoc = es.push(e);
    if es.len() == 0 {
        assert(snoc[0] == e);
        assert(snoc.subrange(1, 1) =~= Seq::<SampleEffect>::empty());
        assert(chain_applied(s, snoc, channels, rate) == chain_applied(
            effect_applied(s, e, channels, rate),
            snoc.subrange(1, 1),
            channels,
            rate,
        ));
        assert(chain_applied(s, es, channels, rate) == s);
    } else {
        assert(snoc[0] == es[0]);
        assert(snoc.subrange(1, snoc.len() as int) =~= es.subrange(1, es.len() as int).push(e));
        lemma_chain_applied_snoc(
            effect_applied(s, es[0], channels, rate),
            es.subrange(1, es.len() as int),
            e,
            channels,
            rate,
        );
        assert(chain_applied(s, snoc, channels, rate) == chain_applied(
            effect_applied(s, es[0], channels, rate),
            snoc.subrange(1, snoc.len() as int),
            channels,
            rate,
        ));
        assert(chain_applied(s, es, channels, rate) == chain_applied(
            effect_applied(s, es[0], channels, rate),
            es.subrange(1, es.len() as int),
            channels,
            rate,
        ));
    }
}

/// Number of interleaved samples a fade of `ms` milliseconds covers, for a
/// source of the given rate and channel count.
fn fade_len_samples(rate: u32, ms: u32, channels: u16) -> (fade: u128)
    ensures
        fade == fade_len(rate as int, ms as int, channels as int),
        fade <= FADE_DEN_LIMIT,
{
    proof {
        assert((rate as u128) * (ms as u128) <= 0xffffffffu128 * 0xffffffffu128)
            by (nonlinear_arith)
            requires
                rate as u128 <= 0xffffffffu128,
                ms as u128 <= 0xffffffffu128,
        ;
        assert((rate as u128) * (ms as u128) * (channels as u128) <= 0xffffffffffffffffu128
            * 0xffffu128) by (nonlinear_arith)
            requires
                (rate as u128) * (ms as u128) <= 0xffffffffffffffffu128,
                channels as u128 <= 0xffffu128,
        ;
        lemma_div_is_ordered(
            (rate as u128) * (ms as u128) * (channels as u128) as int,
            0xffffffffffffffffu128 * 0xffffu128 as int,
            1000,
        );
    }
    (rate as u128) * (ms as u128) * (channels as u128) / 1000
}

/// Per-track effect chains, applied to decoded samples before playback.
pub struct SampleProcessor {
    effects: Vec<Vec<SampleEffect>>,
}

impl SampleProcessor {
    /// The effect chain configured for a track; empty when none is.
    pub closed spec fn effects_of(self, t: int) -> Seq<SampleEffect> {
        if 0 <= t < self.effects@.len() {
            self.effects@[t]@
        } else {
            Seq::empty()
        }
    }

    /// A processor with no effect configured on any track.
    pub fn new() -> (p: SampleProcessor)
        ensures
            forall|t: int| #[trigger] p.effects_of(t) == Seq::<SampleEffect>::empty(),
    {
        SampleProcessor { effects: Vec::new() }
    }

    /// Append an effect to a track's chain; effects apply in the order
    /// they were added.
    pub fn add_effect(&mut self, track_idx: usize, effect: SampleEffect)
        ensures
            final(self).effects_of(track_idx as int) == old(self).effects_of(
                track_idx as int,
            ).push(effect),
            forall|t: int|
                t != track_idx ==> #[trigger] final(self).effects_of(t) == old(self).effects_of(t),
    {
        while self.effects.len() <= track_idx
            invariant
                forall|t: int| #[trigger] self.effects_of(t) == old(self).effects_of(t),
            decreases track_idx + 1 - self.effects@.len(),
        {
            let ghost prev = *self;
            self.effects.push(Vec::new());
            proof {
                assert forall|t: int| #[trigger] self.effects_of(t) == prev.effects_of(t) by {
                    if 0 <= t < prev.effects@.len() {
                        assert(self.effects@[t] == prev.effects@[t]);
                    }
                }
            }
        }
        let ghost before = *self;
        let chain = &mut self.effects[track_idx];
        chain.push(effect);
        proof {
            assert(self.effects@[track_idx as int]@ == before.effects@[track_idx as int]@.push(
                effect,
            ));
            assert(self.effects_of(track_idx as int) == before.effects_of(track_idx as int).push(
                effect,
            ));
            assert(before.effects_of(track_idx as int) == old(self).effects_of(track_idx as int));
            assert forall|t: int|
                t != track_idx implies #[trigger] self.effects_of(t) == before.effects_of(t) by {
                if 0 <= t < before.effects@.len() {
                    assert(self.effects@[t] == before.effects@[t]);
                }
            }
        }
    }

    /// Remove every effect from a track's chain.
    pub fn clear_effects(&mut self, track_idx: usize)
        ensures
            final(self).effects_of(track_idx as int) == Seq::<SampleEffect>::empty(),
            forall|t: int|
                t != track_idx ==> #[trigger] final(self).effects_of(t) == old(self).effects_of(t),
    {
        if track_idx < self.effects.len() {
            let chain = &mut self.effects[track_idx];
            chain.clear();
            proof {
                assert forall|t: int|
                    t != track_idx ==> #[trigger] self.effects_of(t) == old(self).effects_of(
                        t,
                    ) by {
                    if t != track_idx && 0 <= t < old(self).effects@.len() {
                        assert(self.effects@[t] == old(self).effects@[t]);
                    }
                }
            }
        }
    }

    /// The chain configured for a track, or `None` when the track has no
    /// effects.
    pub fn get_effects(&self, track_idx: &usize) -> (r: Option<&Vec<SampleEffect>>)
        ensures
            match r {
                Some(chain) => chain@ == self.effects_of(*track_idx as int) && chain@.len() > 0,
                None => self.effects_of(*track_idx as int) == Seq::<SampleEffect>::empty(),
            },
    {
        if *track_idx < self.effects.len() {
            let chain = &self.effects[*track_idx];
            if chain.len() > 0 {
                Some(chain)
            } else {
                proof {
                    assert(chain@ =~= Seq::<SampleEffect>::empty());
                }
                None
            }
        } else {
            None
        }
    }

    /// Run a decoded sample through the track's effect chain, in declared
    /// order.  A track without effects gets its samples back unchanged.
    pub fn process_sample(
        &self,
        track_idx: usize,
        samples: Vec<i16>,
        channels: u16,
        sample_rate: u32,
    ) -> (r: Vec<i16>)
        ensures
            r@ == chain_applied(
                samples@,
                self.effects_of(track_idx as int),
                channels as int,
                sample_rate as int,
            ),
    {
        let ghost es = self.effects_of(track_idx as int);
        let ghost input = samples@;
        let mut out = samples;
        if track_idx >= self.effects.len() {
            return out;
        }
        let chain = &self.effects[track_idx];
        let n = chain.len();
        let mut k: usize = 0;
        while k < n
            invariant
                n == chain@.len(),
                k <= n,
                es == chain@,
                out@ == chain_applied(input, es.subrange(0, k as int), channels as int,
                    sample_rate as int),
            decreases n - k,
        {
            let e = chain[k];
            let ghost before = out@;
            match e {
                SampleEffect::Reverse => {
                    out = apply_reverse(&out);
                },
                SampleEffect::FadeIn(ms) => {
                    let fade = fade_len_samples(sample_rate, ms, channels);
                    if fade > 0 {
                        apply_fade_in(&mut out, fade);
                    } else {
                        proof {
                            assert(before =~= fade_in_seq(before, 0));
                        }
                    }
                },
                SampleEffect::FadeOut(ms) => {
                    let fade = fade_len_samples(sample_rate, ms, channels);
                    if fade > 0 {
                        apply_fade_out(&mut out, fade);
                    } else {
                        proof {
                            assert forall|j: int| 0 <= j < before.len() implies fade_out_seq(
                                before,
                                0,
                            )[j] == before[j] by {
                                assert(before.len() - j >= 1);
                            }
                            assert(before =~= fade_out_seq(before, 0));
                        }
                    }
                },
                SampleEffect::Partial(a, b) => {
                    out = apply_partial(&out, a, b);
                },
            }
            proof {
                assert(out@ == effect_applied(before, e, channels as int, sample_rate as int));
                assert(es.subrange(0, k + 1) =~= es.subrange(0, k as int).push(es[k as int]));
                lemma_chain_applied_snoc(
                    input,
                    es.subrange(0, k as int),
                    es[k as int],
                    channels as int,
                    sample_rate as int,
                );
            }
            k = k + 1;
        }
        proof {
            assert(es.subrange(0, n as int) =~= es);
        }
        out
    }
}

/// A fade-in rendered as a stream: yields the samples of its buffer one by
/// one, with the first `fade_samples` of them ramped linearly up.
pub struct FadeIn {
    samples: Vec<i16>,
    fade_samples: usize,
    current_sample: usize,
    channels: u16,
    sample_rate: u32,
}

impl FadeIn {
    /// The samples the stream has yet to yield.
    pub closed spec fn spec_output(self) -> Seq<i16> {
        let whole = fade_in_seq(self.samples@, self.fade_samples as int);
        if self.current_sample <= self.samples@.len() {
            whole.subrange(self.current_sample as int, whole.len() as int)
        } else {
            Seq::empty()
        }
    }

    /// Wrap a buffer so that its first `fade_samples` samples ramp up.
    pub fn new(samples: Vec<i16>, fade_samples: usize, channels: u16, sample_rate: u32) -> (r:
        FadeIn)
        ensures
            r.spec_output() == fade_in_seq(samples@, fade_samples as int),
            r.channels() == channels,
            r.sample_rate() == sample_rate,
    {
        let r = FadeIn { samples, fade_samples, current_sample: 0, channels, sample_rate };
        proof {
            assert(r.spec_output() =~= fade_in_seq(r.samples@, r.fade_samples as int));
        }
        r
    }

    /// The next faded sample, or `None` once the buffer is exhausted.
    pub fn next(&mut self) -> (r: Option<i16>)
        ensures
            old(self).spec_output().len() > 0 ==> {
                &&& r == Some(old(self).spec_output()[0])
                &&& final(self).spec_output() == old(self).spec_output().subrange(
                    1,
                    old(self).spec_output().len() as int,
                )
            },
            old(self).spec_output().len() == 0 ==> r is None && final(self).spec_output()
                == Seq::<i16>::empty(),
            final(self).channels() == old(self).channels(),
            final(self).sample_rate() == old(self).sample_rate(),
    {
        if self.current_sample < self.samples.len() {
            let i = self.current_sample;
            let s = self.samples[i];
            let v = if (i as u128) < (self.fade_samples as u128) {
                scale_sample(s, i as u128, self.fade_samples as u128)
            } else {
                s
            };
            self.current_sample = i + 1;
            proof {
                assert(final(self).spec_output() =~= old(self).spec_output().subrange(
                    1,
                    old(self).spec_output().len() as int,
                ));
            }
            Some(v)
        } else {
            None
        }
    }

    /// Channel count of the source, unchanged by the fade.
    pub closed spec fn channels(self) -> u16 {
        self.channels
    }

    /// Sample rate of the source, unchanged by the fade.
    pub closed spec fn sample_rate(self) -> u32 {
        self.sample_rate
    }

    /// Channel count of the source, unchanged by the fade.
    pub fn get_channels(&self) -> (c: u16)
        ensures
            c == self.channels(),
    {
        self.channels
    }

    /// Sample rate of the source, unchanged by the fade.
    pub fn get_sample_rate(&self) -> (r: u32)
        ensures
            r == self.sample_rate(),
    {
        self.sample_rate
    }
}

/// A fade-out rendered as a stream: yields the samples of its buffer one by
/// one, with the last `fade_samples` of them ramped linearly down.
pub struct FadeOut {
    samples: Vec<i16>,
    fade_samples: usize,
    current_sample: usize,
    channels: u16,
    sample_rate: u32,
}

impl FadeOut {
    /// The samples the stream has yet to yield.
    pub closed spec fn spec_output(self) -> Seq<i16> {
        let whole = fade_out_seq(self.samples@, self.fade_samples as int);
        if self.current_sample <= self.samples@.len() {
            whole.subrange(self.current_sample as int, whole.len() as int)
        } else {
            Seq::empty()
        }
    }

    /// Wrap a buffer so that its last `fade_samples` samples ramp down.
    pub fn new(samples: Vec<i16>, fade_samples: usize, channels: u16, sample_rate: u32) -> (r:
        FadeOut)
        ensures
            r.spec_output() == fade_out_seq(samples@, fade_samples as int),
            r.channels() == channels,
            r.sample_rate() == sample_rate,
    {
        let r = FadeOut { samples, fade_samples, current_sample: 0, channels, sample_rate };
        proof {
            assert(r.spec_output() =~= fade_out_seq(r.samples@, r.fade_samples as int));
        }
        r
    }

    /// The next faded sample, or `None` once the buffer is exhausted.
    pub fn next(&mut self) -> (r: Option<i16>)
        ensures
            old(self).spec_output().len() > 0 ==> {
                &&& r == Some(old(self).spec_output()[0])
                &&& final(self).spec_output() == old(self).spec_output().subrange(
                    1,
                    old(self).spec_output().len() as int,
                )
            },
            old(self).spec_output().len() == 0 ==> r is None && final(self).spec_output()
                == Seq::<i16>::empty(),
            final(self).channels() == old(self).channels(),
            final(self).sample_rate() == old(self).sample_rate(),
    {
        let n = self.samples.len();
        if self.current_sample < n {
            let i = self.current_sample;
            let s = self.samples[i];
            let remaining = n - i;
            let v = if (remaining as u128) <= (self.fade_samples as u128) {
                scale_sample(s, remaining as u128, self.fade_samples as u128)
            } else {
                s
            };
            self.current_sample = i + 1;
            proof {
                assert(final(self).spec_output() =~= old(self).spec_output().subrange(
                    1,
                    old(self).spec_output().len() as int,
                ));
            }
            Some(v)
        } else {
            None
        }
    }

    /// Channel count of the source, unchanged by the fade.
    pub closed spec fn channels(self) -> u16 {
        self.channels
    }

    /// Sample rate of the source, unchanged by the fade.
    pub closed spec fn sample_rate(self) -> u32 {
        self.sample_rate
    }

    /// Channel count of the source, unchanged by the fade.
    pub fn get_channels(&self) -> (c: u16)
        ensures
            c == self.channels(),
    {
        self.channels
    }

    /// Sample rate of the source, unchanged by the fade.
    pub fn get_sample_rate(&self) -> (r: u32)
        ensures
            r == self.sample_rate(),
    {
        self.sample_rate
    }
}

} // verus!
