use crate::plan::{plan_refs, plan_wf, FlatGraph, PlanNode, SourceKind, SynthKind};
use crate::scalar::{abs_bits, is_nan_bits, le_bits, neg_bits, scalar_is_nan, scalar_is_negative, scalar_v74};
use vstd::prelude::*;

verus! {

// The evaluator.  A prepared plan is walked from its output step; every
// step's inputs sit strictly before it, so the walk terminates for every
// plan the preparer hands out — that is checked here, not assumed.  The
// floating-point arithmetic itself cannot live in verified code, so the
// caller supplies it through the `ScalarBackend` trait: the evaluator owns
// the traversal, the octave synthesis loops, the comparisons and the sign
// operations (exact bit work), and delegates each rounding operation and
// noise primitive to the backend.  The trait carries no contracts: nothing
// about the backend is taken on trust.
/// Bit pattern of 0.0.
pub const BITS_ZERO: u64 = 0;

/// Bit pattern of 1.0.
pub const BITS_ONE: u64 = 0x3FF0_0000_0000_0000;

/// Bit pattern of -1.0.
pub const BITS_NEG_ONE: u64 = 0xBFF0_0000_0000_0000;

/// Bit pattern of 2.0.
pub const BITS_TWO: u64 = 0x4000_0000_0000_0000;

/// Bit pattern of 0.5.
pub const BITS_HALF: u64 = 0x3FE0_0000_0000_0000;

/// The arithmetic a sampler runs on: double operations and noise
/// primitives, over bit patterns.  Implementations live outside the
/// verified library (they are floating-point work); the evaluator promises
/// nothing about the values they return.
pub trait ScalarBackend {
    /// Samples one noise primitive with a seed at a coordinate.
    fn source_sample(&mut self, kind: &SourceKind, seed: u64, x: u64, y: u64) -> u64;

    /// Double addition.
    fn add_bits(&mut self, a: u64, b: u64) -> u64;

    /// Double multiplication.
    fn mul_bits(&mut self, a: u64, b: u64) -> u64;

    /// Double division.
    fn div_bits(&mut self, a: u64, b: u64) -> u64;

    /// Raises to a double power.
    fn powf_bits(&mut self, a: u64, b: u64) -> u64;

    /// Raises to a whole power.
    fn powi_bits(&mut self, a: u64, e: i32) -> u64;

    /// The exponential function.
    fn exp_bits(&mut self, a: u64) -> u64;

    /// Fused multiply-add: `a * b + c` with one rounding.
    fn mul_add_bits(&mut self, a: u64, b: u64, c: u64) -> u64;

    /// Sine and cosine of an angle.
    fn sin_cos_bits(&mut self, a: u64) -> (u64, u64);
}

/// Clamps a sample to a closed range: below the floor yields the floor,
/// above the ceiling yields the ceiling, and a NaN passes through, as the
/// standard clamp does.
fn clamp_bits(v: u64, min: u64, max: u64) -> (r: u64)
    requires
        !scalar_is_nan(min),
        !scalar_is_nan(max),
    ensures
        scalar_is_nan(v) ==> r == v,
        !scalar_is_nan(v) ==> r == (if scalar_v74(v) < scalar_v74(min) {
            min
        } else if scalar_v74(v) > scalar_v74(max) {
            max
        } else {
            v
        }),
{
    if is_nan_bits(v) {
        v
    } else if !le_bits(min, v) {
        min
    } else if !le_bits(v, max) {
        max
    } else {
        v
    }
}

/// The larger of two samples; a NaN loses to the other side.
fn max_bits(a: u64, b: u64) -> (r: u64)
    ensures
        scalar_is_nan(a) ==> r == b,
        !scalar_is_nan(a) && scalar_is_nan(b) ==> r == a,
        !scalar_is_nan(a) && !scalar_is_nan(b) ==> r == (if scalar_v74(a) <= scalar_v74(b) {
            b
        } else {
            a
        }),
{
    if is_nan_bits(a) {
        b
    } else if is_nan_bits(b) {
        a
    } else if le_bits(a, b) {
        b
    } else {
        a
    }
}

/// The smaller of two samples; a NaN loses to the other side.
fn min_bits(a: u64, b: u64) -> (r: u64)
    ensures
        scalar_is_nan(a) ==> r == b,
        !scalar_is_nan(a) && scalar_is_nan(b) ==> r == a,
        !scalar_is_nan(a) && !scalar_is_nan(b) ==> r == (if scalar_v74(a) <= scalar_v74(b) {
            a
        } else {
            b
        }),
{
    if is_nan_bits(a) {
        b
    } else if is_nan_bits(b) {
        a
    } else if le_bits(a, b) {
        a
    } else {
        b
    }
}

/// What holds of a step's sample whatever the backend computes: a
/// constant step samples to its own bits, and an absolute-value step
/// never carries a sign.
pub open spec fn step_pinned(p: FlatGraph, idx: int, v: u64) -> bool {
    match p.nodes@[idx] {
        PlanNode::ConstantVal { bits } => v == bits,
        PlanNode::Abs { .. } => !scalar_is_negative(v),
        _ => true,
    }
}

/// Every cached sample satisfies what its step pins down.
pub open spec fn memo_ok(memo: Seq<(usize, u64, u64, u64)>, p: FlatGraph) -> bool {
    forall|i: int|
        0 <= i < memo.len() ==> (#[trigger] memo[i]).0 < p.nodes@.len() && step_pinned(
            p,
            memo[i].0 as int,
            memo[i].3,
        )
}

/// Looks a coordinate-tagged sample up in the per-call cache.
fn memo_lookup(
    p: &FlatGraph,
    memo: &Vec<(usize, u64, u64, u64)>,
    idx: usize,
    x: u64,
    y: u64,
) -> (r: Option<u64>)
    requires
        memo_ok(memo@, *p),
    ensures
        r matches Some(v) ==> step_pinned(*p, idx as int, v),
{
    let n = memo.len();
    let mut i: usize = 0;
    while i < n
        invariant
            n == memo@.len(),
            i <= n,
            memo_ok(memo@, *p),
        decreases n - i,
    {
        let e = memo[i];
        if e.0 == idx && e.1 == x && e.2 == y {
            proof {
                assert(step_pinned(*p, memo@[i as int].0 as int, memo@[i as int].3));
            }
            return Some(e.3);
        }
        i = i + 1;
    }
    None
}

/// The normalization factor of a multi-octave synthesis: one over the sum
/// of the attenuated amplitudes, as the octave convention defines it.
fn normalization_factor<B: ScalarBackend>(backend: &mut B, octaves: usize, persistence: u64) -> (r:
    u64)
    requires
        octaves <= 0x7FFF_FFFF,
{
    let mut acc: u64 = BITS_ZERO;
    let mut o: usize = 0;
    while o < octaves
        invariant
            octaves <= 0x7FFF_FFFF,
            o <= octaves,
        decreases octaves - o,
    {
        let term = backend.powi_bits(persistence, o as i32);
        acc = backend.add_bits(acc, term);
        o = o + 1;
    }
    backend.div_bits(BITS_ONE, acc)
}

/// Evaluates one plan step at a coordinate, recursing into its inputs.
/// Every recursive call goes to a strictly earlier step, which bounds the
/// walk; the cache keeps a step sampled at one coordinate from being
/// computed twice.
fn eval_at<B: ScalarBackend>(
    p: &FlatGraph,
    backend: &mut B,
    idx: usize,
    x: u64,
    y: u64,
    memo: &mut Vec<(usize, u64, u64, u64)>,
) -> (r: u64)
    requires
        plan_wf(*p),
        idx < p.nodes@.len(),
        memo_ok(old(memo)@, *p),
    ensures
        memo_ok(final(memo)@, *p),
        step_pinned(*p, idx as int, r),
    decreases idx, 0nat,
{
    match memo_lookup(p, memo, idx, x, y) {
        Some(v) => {
            return v;
        },
        None => {},
    }
    let node = p.nodes[idx];
    proof {
        assert(p.nodes@[idx as int] == node);
    }
    let r = match node {
        PlanNode::ConstantVal { bits } => bits,
        PlanNode::Source { kind, seed } => backend.source_sample(&kind, seed, x, y),
        PlanNode::Abs { input } => {
            proof {
                assert(plan_refs(node)[0] == input);
            }
            abs_bits(eval_at(p, backend, input, x, y, memo))
        },
        PlanNode::Exp { input } => {
            proof {
                assert(plan_refs(node)[0] == input);
            }
            let v = eval_at(p, backend, input, x, y, memo);
            backend.exp_bits(v)
        },
        PlanNode::Neg { input } => {
            proof {
                assert(plan_refs(node)[0] == input);
            }
            neg_bits(eval_at(p, backend, input, x, y, memo))
        },
        PlanNode::AddScalar { input, value } => {
            proof {
                assert(plan_refs(node)[0] == input);
            }
            let v = eval_at(p, backend, input, x, y, memo);
            backend.add_bits(v, value)
        },
        PlanNode::MulScalar { input, value } => {
            proof {
                assert(plan_refs(node)[0] == input);
            }
            let v = eval_at(p, backend, input, x, y, memo);
            backend.mul_bits(v, value)
        },
        PlanNode::Clamp { input, min, max } => {
            proof {
                assert(plan_refs(node)[0] == input);
            }
            let v = eval_at(p, backend, input, x, y, memo);
            clamp_bits(v, min, max)
        },
        PlanNode::PowScalar { input, exponent } => {
            proof {
                assert(plan_refs(node)[0] == input);
            }
            let v = eval_at(p, backend, input, x, y, memo);
            backend.powf_bits(v, exponent)
        },
        PlanNode::Octaves { synth, input, octaves, frequency, lacunarity, persistence } => {
            proof {
                assert(plan_refs(node)[0] == input);
            }
            eval_octaves(
                p,
                backend,
                input,
                &synth,
                octaves,
                frequency,
                lacunarity,
                persistence,
                x,
                y,
                memo,
            )
        },
        PlanNode::Max { a, b } => {
            proof {
                assert(plan_refs(node)[0] == a);
                assert(plan_refs(node)[1] == b);
            }
            let va = eval_at(p, backend, a, x, y, memo);
            let vb = eval_at(p, backend, b, x, y, memo);
            max_bits(va, vb)
        },
        PlanNode::Min { a, b } => {
            proof {
                assert(plan_refs(node)[0] == a);
                assert(plan_refs(node)[1] == b);
            }
            let va = eval_at(p, backend, a, x, y, memo);
            let vb = eval_at(p, backend, b, x, y, memo);
            min_bits(va, vb)
        },
        PlanNode::Power { a, b } => {
            proof {
                assert(plan_refs(node)[0] == a);
                assert(plan_refs(node)[1] == b);
            }
            let va = eval_at(p, backend, a, x, y, memo);
            let vb = eval_at(p, backend, b, x, y, memo);
            backend.powf_bits(va, vb)
        },
        PlanNode::Product { a, b } => {
            proof {
                assert(plan_refs(node)[0] == a);
                assert(plan_refs(node)[1] == b);
            }
            let va = eval_at(p, backend, a, x, y, memo);
            let vb = eval_at(p, backend, b, x, y, memo);
            backend.mul_bits(va, vb)
        },
        PlanNode::Sum { a, b } => {
            proof {
                assert(plan_refs(node)[0] == a);
                assert(plan_refs(node)[1] == b);
            }
            let va = eval_at(p, backend, a, x, y, memo);
            let vb = eval_at(p, backend, b, x, y, memo);
            backend.add_bits(va, vb)
        },
        PlanNode::Blend { a, b, control } => {
            proof {
                assert(plan_refs(node)[0] == a);
                assert(plan_refs(node)[1] == b);
                assert(plan_refs(node)[2] == control);
            }
            let va = eval_at(p, backend, a, x, y, memo);
            let vb = eval_at(p, backend, b, x, y, memo);
            let vc = eval_at(p, backend, control, x, y, memo);
            // a + t * (b - a), with the control remapped from [-1, 1] to
            // [0, 1].
            let t0 = backend.mul_bits(vc, BITS_HALF);
            let t = backend.add_bits(t0, BITS_HALF);
            let diff = backend.add_bits(vb, neg_bits(va));
            let scaled = backend.mul_bits(t, diff);
            backend.add_bits(va, scaled)
        },
        PlanNode::Select { a, b, control, lower, upper } => {
            proof {
                assert(plan_refs(node)[0] == a);
                assert(plan_refs(node)[1] == b);
                assert(plan_refs(node)[2] == control);
            }
            let vc = eval_at(p, backend, control, x, y, memo);
            if le_bits(lower, vc) && le_bits(vc, upper) {
                eval_at(p, backend, a, x, y, memo)
            } else {
                eval_at(p, backend, b, x, y, memo)
            }
        },
        PlanNode::Rotate { input, angle } => {
            proof {
                assert(plan_refs(node)[0] == input);
            }
            let (sin_t, cos_t) = backend.sin_cos_bits(angle);
            let xc = backend.mul_bits(x, cos_t);
            let ys = backend.mul_bits(y, sin_t);
            let xr = backend.add_bits(xc, neg_bits(ys));
            let xs = backend.mul_bits(x, sin_t);
            let yc = backend.mul_bits(y, cos_t);
            let yr = backend.add_bits(xs, yc);
            eval_at(p, backend, input, xr, yr, memo)
        },
        PlanNode::Scale { input, x: sx, y: sy } => {
            proof {
                assert(plan_refs(node)[0] == input);
            }
            let xr = backend.mul_bits(x, sx);
            let yr = backend.mul_bits(y, sy);
            eval_at(p, backend, input, xr, yr, memo)
        },
        PlanNode::Translate { input, x: tx, y: ty } => {
            proof {
                assert(plan_refs(node)[0] == input);
            }
            let xr = backend.add_bits(x, tx);
            let yr = backend.add_bits(y, ty);
            eval_at(p, backend, input, xr, yr, memo)
        },
    };
    memo.push((idx, x, y, r));
    r
}

/// One multi-octave synthesis: samples the input at octave-scaled
/// frequencies and accumulates the layers per the synthesis kind, then
/// normalizes.
fn eval_octaves<B: ScalarBackend>(
    p: &FlatGraph,
    backend: &mut B,
    input: usize,
    synth: &SynthKind,
    octaves: usize,
    frequency: u64,
    lacunarity: u64,
    persistence: u64,
    x: u64,
    y: u64,
    memo: &mut Vec<(usize, u64, u64, u64)>,
) -> (r: u64)
    requires
        plan_wf(*p),
        input < p.nodes@.len(),
        memo_ok(old(memo)@, *p),
    ensures
        memo_ok(final(memo)@, *p),
    decreases input, 1nat,
{
    // Octave counts beyond the signed 32-bit range saturate: the whole
    // exponent of the normalization terms must fit that range.
    let capped: usize = if octaves > 0x7FFF_FFFFusize {
        0x7FFF_FFFFusize
    } else {
        octaves
    };
    let mut noise: u64 = BITS_ZERO;
    let mut amp: u64 = BITS_ONE;
    let mut freq: u64 = frequency;
    let mut o: usize = 0;
    while o < capped
        invariant
            plan_wf(*p),
            input < p.nodes@.len(),
            capped <= 0x7FFF_FFFF,
            o <= capped,
            memo_ok(memo@, *p),
        decreases capped - o,
    {
        let sx = backend.mul_bits(x, freq);
        let sy = backend.mul_bits(y, freq);
        let s = eval_at(p, backend, input, sx, sy, memo);
        match synth {
            SynthKind::Fbm => {
                let layer = backend.mul_bits(amp, s);
                noise = backend.add_bits(noise, layer);
                freq = backend.mul_bits(freq, lacunarity);
                amp = backend.mul_bits(amp, persistence);
            },
            SynthKind::Billow => {
                // amp * (|s| * 2 - 1), fused as the convention computes it.
                let folded = backend.mul_add_bits(abs_bits(s), BITS_TWO, BITS_NEG_ONE);
                let layer = backend.mul_bits(amp, folded);
                noise = backend.add_bits(noise, layer);
                freq = backend.mul_bits(freq, lacunarity);
                amp = backend.mul_bits(amp, persistence);
            },
            SynthKind::RidgedMulti => {
                // layer = (1 - |s|)^2 * amp; the next amplitude is the layer
                // attenuated and clamped to [0, 1].
                let mut layer = backend.add_bits(BITS_ONE, neg_bits(abs_bits(s)));
                layer = backend.mul_bits(layer, layer);
                layer = backend.mul_bits(layer, amp);
                noise = backend.add_bits(noise, layer);
                freq = backend.mul_bits(freq, lacunarity);
                let att = backend.div_bits(layer, persistence);
                amp = clamp_bits(att, BITS_ZERO, BITS_ONE);
            },
        }
        o = o + 1;
    }
    // The ridged synthesis normalizes by powers of the reciprocal
    // attenuation; the others by powers of the persistence itself.
    let norm_base = match synth {
        SynthKind::RidgedMulti => backend.div_bits(BITS_ONE, persistence),
        _ => persistence,
    };
    let norm = normalization_factor(backend, capped, norm_base);
    let total = backend.mul_bits(noise, norm);
    match synth {
        SynthKind::RidgedMulti => backend.mul_add_bits(total, BITS_TWO, BITS_NEG_ONE),
        _ => total,
    }
}

/// Samples a prepared graph at a coordinate: evaluates the designated
/// output step with a fresh per-call cache.  The walk terminates for every
/// prepared plan, whatever the backend computes, and what a step pins
/// down independently of arithmetic holds of the sample: a constant
/// output yields its own bits, an absolute-value output carries no sign.
pub fn sample_plan<B: ScalarBackend>(p: &FlatGraph, backend: &mut B, x: u64, y: u64) -> (r: u64)
    requires
        plan_wf(*p),
    ensures
        p.nodes@[p.output as int] matches PlanNode::ConstantVal { bits } ==> r == bits,
        p.nodes@[p.output as int] is Abs ==> !scalar_is_negative(r),
{
    let mut memo: Vec<(usize, u64, u64, u64)> = Vec::new();
    proof {
        assert(memo@ =~= Seq::<(usize, u64, u64, u64)>::empty());
    }
    eval_at(p, backend, p.output, x, y, &mut memo)
}

} // verus!
