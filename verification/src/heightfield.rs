//! Fractal-octave height computation.
//!
//! The seeded noise oracle is an external collaborator: its per-octave
//! samples arrive here as plain fixed-point integers in [-1, 1] (that is,
//! [-CUBE_SIZE, CUBE_SIZE]), and the fractal summation, scaling and
//! clamping are verified for every value those samples may take.

use vstd::prelude::*;
use vstd::arithmetic::div_mod::lemma_div_is_ordered;
use vstd::arithmetic::div_mod::lemma_div_of0;
use crate::config::TerrainConfiguration;
use crate::math::CUBE_SIZE;

verus! {

/// Amplitude of octave `i`, in fixed point: one unit halved `i` times
/// (integer halving, fixed persistence of one half per octave).
pub open spec fn spec_amplitude(i: nat) -> int
    decreases i,
{
    if i == 0 {
        CUBE_SIZE as int
    } else {
        spec_amplitude((i - 1) as nat) / 2
    }
}

/// Sum of the amplitudes of the first `n` octaves.
pub open spec fn spec_amplitude_sum(n: nat) -> int
    decreases n,
{
    if n == 0 {
        0
    } else {
        spec_amplitude_sum((n - 1) as nat) + spec_amplitude((n - 1) as nat)
    }
}

/// Largest magnitude the weighted sum of `n` bounded samples can reach:
/// one unit's worth of each octave's amplitude.
pub open spec fn spec_sum_cap(n: nat) -> int
    decreases n,
{
    if n == 0 {
        0
    } else {
        spec_sum_cap((n - 1) as nat) + 65536 * spec_amplitude((n - 1) as nat)
    }
}

/// Amplitude-weighted sum of per-octave noise samples. Samples are fixed
/// point, so the sum carries two fixed-point scale factors.
pub open spec fn spec_noise_sum(samples: Seq<int>) -> int
    decreases samples.len(),
{
    if samples.len() == 0 {
        0
    } else {
        spec_noise_sum(samples.drop_last()) + samples.last() * spec_amplitude(
            (samples.len() - 1) as nat,
        )
    }
}

/// Every sample lies in [-1, 1] fixed point.
pub open spec fn samples_bounded(samples: Seq<int>) -> bool {
    forall|i: int|
        0 <= i < samples.len() ==> -(CUBE_SIZE as int) <= #[trigger] samples[i] <= CUBE_SIZE as int
}

/// A raw sample grid whose entries all lie in [-1, 1] fixed point.
pub open spec fn noise_bounded(noise: Seq<i64>) -> bool {
    forall|i: int|
        0 <= i < noise.len() ==> -(CUBE_SIZE as i64) <= #[trigger] noise[i] <= CUBE_SIZE as i64
}

/// The `octaves` samples of one cell, starting at `base` in the flat grid.
pub open spec fn spec_samples_at(noise: Seq<i64>, base: int, octaves: nat) -> Seq<int> {
    Seq::new(octaves, |i: int| noise[base + i] as int)
}

/// The fractal height of one cell: the weighted noise sum scaled by the
/// height ceiling, then clamped to [0, max_height]. Negative accumulations
/// clamp to zero, biasing cancelling octaves toward flat terrain.
pub open spec fn spec_fractal_height(samples: Seq<int>, max_height: int) -> int {
    let raw = spec_noise_sum(samples) * max_height / (CUBE_SIZE as int * CUBE_SIZE as int);
    if raw < 0 {
        0
    } else if raw > max_height {
        max_height
    } else {
        raw
    }
}

pub proof fn lemma_amplitude_bounds(i: nat)
    ensures
        0 <= spec_amplitude(i) <= CUBE_SIZE as int,
    decreases i,
{
    if i > 0 {
        lemma_amplitude_bounds((i - 1) as nat);
    }
}

pub proof fn lemma_sum_cap_bound(n: nat)
    ensures
        0 <= spec_sum_cap(n),
        spec_sum_cap(n) + 2 * 65536 * spec_amplitude(n) <= 8589934592,
    decreases n,
{
    if n == 0 {
        lemma_amplitude_bounds(0);
        assert(spec_amplitude(0) == CUBE_SIZE as int);
        assert(CUBE_SIZE == 65536);
        assert(spec_sum_cap(0) == 0);
        assert(spec_sum_cap(n) + 2 * 65536 * spec_amplitude(n) <= 8589934592);
    } else {
        lemma_sum_cap_bound((n - 1) as nat);
        lemma_amplitude_bounds((n - 1) as nat);
        lemma_amplitude_bounds(n);
        let a = spec_amplitude((n - 1) as nat);
        let b = spec_amplitude(n);
        assert(b == a / 2);
        assert(2 * b <= a);
        assert(131072 * b <= 65536 * a);
        assert(spec_sum_cap(n) == spec_sum_cap((n - 1) as nat) + 65536 * a);
        assert(spec_sum_cap(n) + 2 * 65536 * b <= 8589934592);
    }
}

/// The weighted sum of bounded samples is bounded by the amplitude cap.
pub proof fn lemma_noise_sum_bound(samples: Seq<int>)
    requires
        samples_bounded(samples),
    ensures
        -spec_sum_cap(samples.len()) <= spec_noise_sum(samples) <= spec_sum_cap(samples.len()),
    decreases samples.len(),
{
    if samples.len() > 0 {
        let dl = samples.drop_last();
        assert(samples_bounded(dl));
        lemma_noise_sum_bound(dl);
        let k = (samples.len() - 1) as nat;
        lemma_amplitude_bounds(k);
        let s = samples.last();
        let a = spec_amplitude(k);
        assert(-65536 * a <= s * a <= 65536 * a) by (nonlinear_arith)
            requires
                -65536 <= s <= 65536,
                a >= 0,
        ;
    }
}

/// With zero octaves the accumulator never moves: the fractal height of
/// every cell is exactly zero.
pub proof fn lemma_zero_octaves(samples: Seq<int>, max_height: int)
    requires
        samples.len() == 0,
        max_height >= 0,
    ensures
        spec_fractal_height(samples, max_height) == 0,
{
    assert(spec_noise_sum(samples) == 0);
    assert(0 * max_height == 0) by (nonlinear_arith);
    lemma_div_of0(CUBE_SIZE as int * CUBE_SIZE as int);
}

/// The fractal height at the grid cell whose samples start at `base`:
/// amplitude-weighted octave summation, height scaling, and clamping.
pub fn fractal_noise(c: &TerrainConfiguration, noise: &Vec<i64>, base: usize) -> (r: u64)
    requires
        c.wf(),
        noise_bounded(noise@),
        base + c.fractal_octaves <= noise@.len(),
    ensures
        r == spec_fractal_height(
            spec_samples_at(noise@, base as int, c.fractal_octaves as nat),
            c.max_height as int,
        ),
        r <= c.max_height,
{
    let ghost samples = spec_samples_at(noise@, base as int, c.fractal_octaves as nat);
    let octaves = c.fractal_octaves as usize;
    let nlen = noise.len();
    let mut acc: i64 = 0;
    let mut amp: u64 = CUBE_SIZE;
    let mut i: usize = 0;
    while i < octaves
        invariant
            i <= octaves,
            octaves == c.fractal_octaves,
            nlen == noise@.len(),
            base + octaves <= nlen,
            noise_bounded(noise@),
            samples == spec_samples_at(noise@, base as int, octaves as nat),
            amp == spec_amplitude(i as nat),
            acc == spec_noise_sum(samples.take(i as int)),
            -spec_sum_cap(i as nat) <= acc <= spec_sum_cap(i as nat),
        decreases octaves - i,
    {
        let s = noise[base + i];
        proof {
            lemma_amplitude_bounds(i as nat);
            lemma_sum_cap_bound(i as nat);
            assert(-65536 * (amp as int) <= s as int * amp as int <= 65536 * (amp as int))
                by (nonlinear_arith)
                requires
                    -65536 <= s as int <= 65536,
                    amp as int >= 0,
            ;
            assert(samples.take(i + 1).drop_last() =~= samples.take(i as int));
            assert(samples.take(i + 1).last() == s as int);
        }
        acc = acc + s * (amp as i64);
        amp = amp / 2;
        i = i + 1;
    }
    proof {
        assert(samples.take(octaves as int) =~= samples);
        lemma_sum_cap_bound(octaves as nat);
    }
    if acc <= 0 {
        proof {
            let ns = spec_noise_sum(samples);
            let mh = c.max_height as int;
            assert(ns * mh <= 0) by (nonlinear_arith)
                requires
                    ns <= 0,
                    mh >= 0,
            ;
            lemma_div_is_ordered(ns * mh, 0, CUBE_SIZE as int * CUBE_SIZE as int);
            lemma_div_of0(CUBE_SIZE as int * CUBE_SIZE as int);
        }
        0
    } else {
        proof {
            let ns = spec_noise_sum(samples);
            let mh = c.max_height as int;
            assert(ns * mh <= 8589934592 * 0x100000000) by (nonlinear_arith)
                requires
                    0 <= ns <= 8589934592,
                    0 <= mh <= 0x100000000,
            ;
            assert(ns * mh >= 0) by (nonlinear_arith)
                requires
                    ns >= 0,
                    mh >= 0,
            ;
        }
        let prod: u128 = (acc as u128) * (c.max_height as u128);
        let q: u128 = prod / ((CUBE_SIZE as u128) * (CUBE_SIZE as u128));
        if q > c.max_height as u128 {
            c.max_height
        } else {
            q as u64
        }
    }
}

} // verus!
