use crate::model::{
    Combiner, ConstantOrValue, Generator, Modifier, Node, NoiseParameters, ScalarBits, ScalarPair,
    Transformer,
};
use vstd::prelude::*;

verus! {

// Deep copies of the node structures.  The derived `Clone` carries no
// specification for these types, so the copies are spelled out, each one
// proved to reproduce its source exactly.
/// Copies an indirect scalar literal.
fn copy_cov_sb(v: &ConstantOrValue<ScalarBits>) -> (r: ConstantOrValue<ScalarBits>)
    ensures
        r == *v,
{
    match v {
        ConstantOrValue::Constant(name) => ConstantOrValue::Constant(name.clone()),
        ConstantOrValue::RawValue(b) => ConstantOrValue::RawValue(*b),
    }
}

/// Copies an indirect seed.
fn copy_cov_u64(v: &ConstantOrValue<u64>) -> (r: ConstantOrValue<u64>)
    ensures
        r == *v,
{
    match v {
        ConstantOrValue::Constant(name) => ConstantOrValue::Constant(name.clone()),
        ConstantOrValue::RawValue(b) => ConstantOrValue::RawValue(*b),
    }
}

/// Copies an indirect octave count.
fn copy_cov_usize(v: &ConstantOrValue<usize>) -> (r: ConstantOrValue<usize>)
    ensures
        r == *v,
{
    match v {
        ConstantOrValue::Constant(name) => ConstantOrValue::Constant(name.clone()),
        ConstantOrValue::RawValue(b) => ConstantOrValue::RawValue(*b),
    }
}

/// Copies an indirect vector of scalar literals.
fn copy_cov_pair(v: &ConstantOrValue<ScalarPair>) -> (r: ConstantOrValue<ScalarPair>)
    ensures
        r == *v,
{
    match v {
        ConstantOrValue::Constant(name) => ConstantOrValue::Constant(name.clone()),
        ConstantOrValue::RawValue(p) => ConstantOrValue::RawValue(*p),
    }
}

/// Copies a parameter set.
fn copy_parameters(p: &NoiseParameters) -> (r: NoiseParameters)
    ensures
        r == *p,
{
    NoiseParameters {
        octaves: copy_cov_usize(&p.octaves),
        frequency: copy_cov_sb(&p.frequency),
        lacunarity: copy_cov_sb(&p.lacunarity),
        persistence: copy_cov_sb(&p.persistence),
    }
}

/// Copies a node of any family.
pub fn copy_node(n: &Node) -> (r: Node)
    ensures
        r == *n,
{
    match n {
        Node::Generator(g) => Node::Generator(
            match g {
                Generator::Constant { value } => Generator::Constant { value: copy_cov_sb(value) },
                Generator::Checkerboard => Generator::Checkerboard,
                Generator::ImprovedPerlin { seed } => Generator::ImprovedPerlin {
                    seed: copy_cov_u64(seed),
                },
                Generator::Perlin { seed } => Generator::Perlin { seed: copy_cov_u64(seed) },
                Generator::Value { seed } => Generator::Value { seed: copy_cov_u64(seed) },
                Generator::Simplex { seed } => Generator::Simplex { seed: copy_cov_u64(seed) },
                Generator::Worley { seed } => Generator::Worley { seed: copy_cov_u64(seed) },
            },
        ),
        Node::Modifier(md) => Node::Modifier(
            match md {
                Modifier::Fbm { input, parameters } => Modifier::Fbm {
                    input: input.clone(),
                    parameters: copy_parameters(parameters),
                },
                Modifier::RidgedMulti { input, parameters } => Modifier::RidgedMulti {
                    input: input.clone(),
                    parameters: copy_parameters(parameters),
                },
                Modifier::Billow { input, parameters } => Modifier::Billow {
                    input: input.clone(),
                    parameters: copy_parameters(parameters),
                },
                Modifier::Abs { input } => Modifier::Abs { input: input.clone() },
                Modifier::Exp { input } => Modifier::Exp { input: input.clone() },
                Modifier::Neg { input } => Modifier::Neg { input: input.clone() },
                Modifier::Add { input, value } => Modifier::Add {
                    input: input.clone(),
                    value: copy_cov_sb(value),
                },
                Modifier::Mul { input, value } => Modifier::Mul {
                    input: input.clone(),
                    value: copy_cov_sb(value),
                },
                Modifier::Clamp { input, min, max } => Modifier::Clamp {
                    input: input.clone(),
                    min: copy_cov_sb(min),
                    max: copy_cov_sb(max),
                },
                Modifier::Pow { input, exponent } => Modifier::Pow {
                    input: input.clone(),
                    exponent: copy_cov_sb(exponent),
                },
            },
        ),
        Node::Combiner(c) => Node::Combiner(
            match c {
                Combiner::Blend { base, other, control } => Combiner::Blend {
                    base: base.clone(),
                    other: other.clone(),
                    control: control.clone(),
                },
                Combiner::Max { base, other } => Combiner::Max {
                    base: base.clone(),
                    other: other.clone(),
                },
                Combiner::Min { base, other } => Combiner::Min {
                    base: base.clone(),
                    other: other.clone(),
                },
                Combiner::Power { base, exponent } => Combiner::Power {
                    base: base.clone(),
                    exponent: exponent.clone(),
                },
                Combiner::Product { base, other } => Combiner::Product {
                    base: base.clone(),
                    other: other.clone(),
                },
                Combiner::Sum { base, other } => Combiner::Sum {
                    base: base.clone(),
                    other: other.clone(),
                },
                Combiner::Select { base, other, control, lower_bound, upper_bound } => {
                    Combiner::Select {
                        base: base.clone(),
                        other: other.clone(),
                        control: control.clone(),
                        lower_bound: copy_cov_sb(lower_bound),
                        upper_bound: copy_cov_sb(upper_bound),
                    }
                },
            },
        ),
        Node::Transformer(t) => Node::Transformer(
            match t {
                Transformer::Rotate { input, rotation } => Transformer::Rotate {
                    input: input.clone(),
                    rotation: copy_cov_sb(rotation),
                },
                Transformer::Scale { input, scale } => Transformer::Scale {
                    input: input.clone(),
                    scale: copy_cov_pair(scale),
                },
                Transformer::Translate { input, translation } => Transformer::Translate {
                    input: input.clone(),
                    translation: copy_cov_pair(translation),
                },
            },
        ),
    }
}

} // verus!
