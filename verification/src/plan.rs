use crate::constants::{const_as_u64_spec, const_as_usize_spec, const_double_v74, ConstantTypes};
use crate::errors::{NoiseError, NoiseErrorView};
use crate::model::{
    Combiner, ConstantOrValue, Generator, Modifier, Node, NoiseParameters, ScalarBits, ScalarPair,
    Transformer,
};
use crate::named_map::{nm_contains, nm_get, nm_unique_keys, NamedMap};
use crate::scalar::{is_finite_bits, scalar_is_finite, scalar_v74};
use vstd::prelude::*;

verus! {

// The evaluation plan: the flattened graph with names resolved to dense
// indices in a topological order (every input strictly before its user)
// and every indirect parameter resolved to a concrete value.  Preparing a
// plan is the last static pass; sampling walks the plan and can no longer
// fail.
/// The noise primitives a source node can call on.
#[derive(Debug, Clone, Copy, PartialEq, Eq, Structural)]
pub enum SourceKind {
    Perlin,
    ImprovedPerlin,
    Value,
    Simplex,
    Worley,
    Checkerboard,
}

/// The three multi-octave syntheses.
#[derive(Debug, Clone, Copy, PartialEq, Eq, Structural)]
pub enum SynthKind {
    Fbm,
    Billow,
    RidgedMulti,
}

/// One step of the plan.  `usize` fields are indices of earlier steps;
/// `u64` fields are resolved scalar parameters as double bit patterns.
#[derive(Debug, Clone, Copy, PartialEq, Eq, Structural)]
pub enum PlanNode {
    ConstantVal { bits: u64 },
    Source { kind: SourceKind, seed: u64 },
    Abs { input: usize },
    Exp { input: usize },
    Neg { input: usize },
    AddScalar { input: usize, value: u64 },
    MulScalar { input: usize, value: u64 },
    Clamp { input: usize, min: u64, max: u64 },
    PowScalar { input: usize, exponent: u64 },
    Octaves {
        synth: SynthKind,
        input: usize,
        octaves: usize,
        frequency: u64,
        lacunarity: u64,
        persistence: u64,
    },
    Max { a: usize, b: usize },
    Min { a: usize, b: usize },
    Power { a: usize, b: usize },
    Product { a: usize, b: usize },
    Sum { a: usize, b: usize },
    Blend { a: usize, b: usize, control: usize },
    Select { a: usize, b: usize, control: usize, lower: u64, upper: u64 },
    Rotate { input: usize, angle: u64 },
    Scale { input: usize, x: u64, y: u64 },
    Translate { input: usize, x: u64, y: u64 },
}

/// The prepared, evaluable graph: one name and one step per node, in a
/// topological order, and the index of the designated output step.
#[derive(Debug, Clone, PartialEq)]
pub struct FlatGraph {
    pub names: Vec<String>,
    pub nodes: Vec<PlanNode>,
    pub output: usize,
}

/// The input references of a document node, in field order.
pub open spec fn node_refs(n: Node) -> Seq<Seq<char>> {
    match n {
        Node::Generator(_) => seq![],
        Node::Modifier(md) => match md {
            Modifier::Fbm { input, parameters: _ } => seq![input@],
            Modifier::RidgedMulti { input, parameters: _ } => seq![input@],
            Modifier::Billow { input, parameters: _ } => seq![input@],
            Modifier::Abs { input } => seq![input@],
            Modifier::Exp { input } => seq![input@],
            Modifier::Neg { input } => seq![input@],
            Modifier::Add { input, value: _ } => seq![input@],
            Modifier::Mul { input, value: _ } => seq![input@],
            Modifier::Clamp { input, min: _, max: _ } => seq![input@],
            Modifier::Pow { input, exponent: _ } => seq![input@],
        },
        Node::Combiner(c) => match c {
            Combiner::Blend { base, other, control } => seq![base@, other@, control@],
            Combiner::Max { base, other } => seq![base@, other@],
            Combiner::Min { base, other } => seq![base@, other@],
            Combiner::Power { base, exponent } => seq![base@, exponent@],
            Combiner::Product { base, other } => seq![base@, other@],
            Combiner::Sum { base, other } => seq![base@, other@],
            Combiner::Select { base, other, control, lower_bound: _, upper_bound: _ } => seq![
                base@,
                other@,
                control@,
            ],
        },
        Node::Transformer(t) => match t {
            Transformer::Rotate { input, rotation: _ } => seq![input@],
            Transformer::Scale { input, scale: _ } => seq![input@],
            Transformer::Translate { input, translation: _ } => seq![input@],
        },
    }
}

/// The input indices of a plan step, in the same order as the document
/// node's references.
pub open spec fn plan_refs(pn: PlanNode) -> Seq<usize> {
    match pn {
        PlanNode::ConstantVal { .. } => seq![],
        PlanNode::Source { .. } => seq![],
        PlanNode::Abs { input } => seq![input],
        PlanNode::Exp { input } => seq![input],
        PlanNode::Neg { input } => seq![input],
        PlanNode::AddScalar { input, .. } => seq![input],
        PlanNode::MulScalar { input, .. } => seq![input],
        PlanNode::Clamp { input, .. } => seq![input],
        PlanNode::PowScalar { input, .. } => seq![input],
        PlanNode::Octaves { input, .. } => seq![input],
        PlanNode::Max { a, b } => seq![a, b],
        PlanNode::Min { a, b } => seq![a, b],
        PlanNode::Power { a, b } => seq![a, b],
        PlanNode::Product { a, b } => seq![a, b],
        PlanNode::Sum { a, b } => seq![a, b],
        PlanNode::Blend { a, b, control } => seq![a, b, control],
        PlanNode::Select { a, b, control, .. } => seq![a, b, control],
        PlanNode::Rotate { input, .. } => seq![input],
        PlanNode::Scale { input, .. } => seq![input],
        PlanNode::Translate { input, .. } => seq![input],
    }
}

/// Every resolved scalar parameter of a plan step is a finite double.
pub open spec fn plan_params_finite(pn: PlanNode) -> bool {
    match pn {
        PlanNode::ConstantVal { bits } => scalar_is_finite(bits),
        PlanNode::Source { .. } => true,
        PlanNode::Abs { .. } => true,
        PlanNode::Exp { .. } => true,
        PlanNode::Neg { .. } => true,
        PlanNode::AddScalar { value, .. } => scalar_is_finite(value),
        PlanNode::MulScalar { value, .. } => scalar_is_finite(value),
        PlanNode::Clamp { min, max, .. } => scalar_is_finite(min) && scalar_is_finite(max)
            && scalar_v74(min) <= scalar_v74(max),
        PlanNode::PowScalar { exponent, .. } => scalar_is_finite(exponent),
        PlanNode::Octaves { frequency, lacunarity, persistence, .. } => scalar_is_finite(frequency)
            && scalar_is_finite(lacunarity) && scalar_is_finite(persistence),
        PlanNode::Max { .. } => true,
        PlanNode::Min { .. } => true,
        PlanNode::Power { .. } => true,
        PlanNode::Product { .. } => true,
        PlanNode::Sum { .. } => true,
        PlanNode::Blend { .. } => true,
        PlanNode::Select { lower, upper, .. } => scalar_is_finite(lower) && scalar_is_finite(
            upper,
        ),
        PlanNode::Rotate { angle, .. } => scalar_is_finite(angle),
        PlanNode::Scale { x, y, .. } => scalar_is_finite(x) && scalar_is_finite(y),
        PlanNode::Translate { x, y, .. } => scalar_is_finite(x) && scalar_is_finite(y),
    }
}

/// A well-formed plan: one name per step, every input index strictly
/// before its user (so any walk of the plan terminates), the designated
/// output in range, distinct names, and every resolved parameter finite.
pub open spec fn plan_wf(p: FlatGraph) -> bool {
    &&& p.names@.len() == p.nodes@.len()
    &&& p.output < p.nodes@.len()
    &&& forall|q: int, j: int|
        0 <= q < p.nodes@.len() && 0 <= j < plan_refs(p.nodes@[q]).len() ==> #[trigger] plan_refs(
            p.nodes@[q],
        )[j] < q
    &&& forall|q: int| 0 <= q < p.nodes@.len() ==> plan_params_finite(#[trigger] p.nodes@[q])
    &&& forall|q1: int, q2: int|
        0 <= q1 < q2 < p.names@.len() ==> (#[trigger] p.names@[q1])@ != (#[trigger] p.names@[q2])@
}

/// How a resolved scalar relates to the indirect value it came from: a
/// literal keeps its bits; a named double keeps the constant's bits; a
/// named integer is encoded exactly.
pub open spec fn rs_sb_rel(
    cov: ConstantOrValue<ScalarBits>,
    pool: Seq<(Seq<char>, ConstantTypes)>,
    bits: u64,
) -> bool {
    match cov {
        ConstantOrValue::RawValue(b) => bits == b.bits,
        ConstantOrValue::Constant(nm) => match nm_get(pool, nm@) {
            Some(c) => const_float_rel(c, bits),
            None => false,
        },
    }
}

/// The bits a constant resolves to as a double.
pub open spec fn const_float_rel(c: ConstantTypes, bits: u64) -> bool {
    match c {
        ConstantTypes::Float(b) => bits == b,
        _ => scalar_is_finite(bits) && scalar_v74(bits) == const_double_v74(c),
    }
}

/// How a resolved seed relates to the indirect value it came from.
pub open spec fn rs_u64_rel(
    cov: ConstantOrValue<u64>,
    pool: Seq<(Seq<char>, ConstantTypes)>,
    n: u64,
) -> bool {
    match cov {
        ConstantOrValue::RawValue(v) => n == v,
        ConstantOrValue::Constant(nm) => match nm_get(pool, nm@) {
            Some(c) => const_as_u64_spec(c) == Some(n),
            None => false,
        },
    }
}

/// How a resolved octave count relates to the indirect value it came from.
pub open spec fn rs_usize_rel(
    cov: ConstantOrValue<usize>,
    pool: Seq<(Seq<char>, ConstantTypes)>,
    n: usize,
) -> bool {
    match cov {
        ConstantOrValue::RawValue(v) => n == v,
        ConstantOrValue::Constant(nm) => match nm_get(pool, nm@) {
            Some(c) => const_as_usize_spec(c) == Some(n),
            None => false,
        },
    }
}

/// How a resolved vector relates to the indirect value it came from: a
/// literal pair keeps its components; a named scalar constant fills both.
pub open spec fn rs_pair_rel(
    cov: ConstantOrValue<ScalarPair>,
    pool: Seq<(Seq<char>, ConstantTypes)>,
    x: u64,
    y: u64,
) -> bool {
    match cov {
        ConstantOrValue::RawValue(p) => x == p.x.bits && y == p.y.bits,
        ConstantOrValue::Constant(nm) => match nm_get(pool, nm@) {
            Some(c) => const_float_rel(c, x) && y == x,
            None => false,
        },
    }
}

/// Whether a constant yields finite double bits: a stored double must be
/// finite, an integer must be exactly representable.
pub open spec fn const_float_ok(c: ConstantTypes) -> bool {
    match c {
        ConstantTypes::Float(b) => scalar_is_finite(b),
        _ => true,
    }
}

/// Whether an indirect scalar resolves.
pub open spec fn sb_resolvable(
    cov: ConstantOrValue<ScalarBits>,
    pool: Seq<(Seq<char>, ConstantTypes)>,
) -> bool {
    match cov {
        ConstantOrValue::RawValue(b) => scalar_is_finite(b.bits),
        ConstantOrValue::Constant(nm) => match nm_get(pool, nm@) {
            Some(c) => const_float_ok(c),
            None => false,
        },
    }
}

/// The scaled value an indirect scalar resolves to, where it resolves.
pub open spec fn sb_resolved_v74(
    cov: ConstantOrValue<ScalarBits>,
    pool: Seq<(Seq<char>, ConstantTypes)>,
) -> int {
    match cov {
        ConstantOrValue::RawValue(b) => scalar_v74(b.bits),
        ConstantOrValue::Constant(nm) => const_double_v74(nm_get(pool, nm@)->Some_0),
    }
}

/// Whether an indirect seed resolves.
pub open spec fn u64_resolvable(
    cov: ConstantOrValue<u64>,
    pool: Seq<(Seq<char>, ConstantTypes)>,
) -> bool {
    match cov {
        ConstantOrValue::RawValue(_) => true,
        ConstantOrValue::Constant(nm) => match nm_get(pool, nm@) {
            Some(c) => const_as_u64_spec(c) is Some,
            None => false,
        },
    }
}

/// Whether an indirect octave count resolves.
pub open spec fn usize_resolvable(
    cov: ConstantOrValue<usize>,
    pool: Seq<(Seq<char>, ConstantTypes)>,
) -> bool {
    match cov {
        ConstantOrValue::RawValue(_) => true,
        ConstantOrValue::Constant(nm) => match nm_get(pool, nm@) {
            Some(c) => const_as_usize_spec(c) is Some,
            None => false,
        },
    }
}

/// Whether an indirect vector resolves.
pub open spec fn pair_resolvable(
    cov: ConstantOrValue<ScalarPair>,
    pool: Seq<(Seq<char>, ConstantTypes)>,
) -> bool {
    match cov {
        ConstantOrValue::RawValue(p) => scalar_is_finite(p.x.bits) && scalar_is_finite(p.y.bits),
        ConstantOrValue::Constant(nm) => match nm_get(pool, nm@) {
            Some(c) => const_float_ok(c),
            None => false,
        },
    }
}

/// Whether every indirect parameter of a node resolves, including the
/// ordered clamp bounds; the node is then never the reason planning
/// fails.
pub open spec fn node_resolvable(n: Node, pool: Seq<(Seq<char>, ConstantTypes)>) -> bool {
    match n {
        Node::Generator(g) => match g {
            Generator::Constant { value } => sb_resolvable(value, pool),
            Generator::Checkerboard => true,
            Generator::ImprovedPerlin { seed } => u64_resolvable(seed, pool),
            Generator::Perlin { seed } => u64_resolvable(seed, pool),
            Generator::Value { seed } => u64_resolvable(seed, pool),
            Generator::Simplex { seed } => u64_resolvable(seed, pool),
            Generator::Worley { seed } => u64_resolvable(seed, pool),
        },
        Node::Modifier(md) => match md {
            Modifier::Fbm { input: _, parameters } => params_resolvable(parameters, pool),
            Modifier::RidgedMulti { input: _, parameters } => params_resolvable(parameters, pool),
            Modifier::Billow { input: _, parameters } => params_resolvable(parameters, pool),
            Modifier::Abs { .. } => true,
            Modifier::Exp { .. } => true,
            Modifier::Neg { .. } => true,
            Modifier::Add { input: _, value } => sb_resolvable(value, pool),
            Modifier::Mul { input: _, value } => sb_resolvable(value, pool),
            Modifier::Clamp { input: _, min, max } => sb_resolvable(min, pool) && sb_resolvable(
                max,
                pool,
            ) && sb_resolved_v74(min, pool) <= sb_resolved_v74(max, pool),
            Modifier::Pow { input: _, exponent } => sb_resolvable(exponent, pool),
        },
        Node::Combiner(c) => match c {
            Combiner::Select { base: _, other: _, control: _, lower_bound, upper_bound } => {
                sb_resolvable(lower_bound, pool) && sb_resolvable(upper_bound, pool)
            },
            _ => true,
        },
        Node::Transformer(t) => match t {
            Transformer::Rotate { input: _, rotation } => sb_resolvable(rotation, pool),
            Transformer::Scale { input: _, scale } => pair_resolvable(scale, pool),
            Transformer::Translate { input: _, translation } => pair_resolvable(translation, pool),
        },
    }
}

/// Whether a parameter set resolves.
pub open spec fn params_resolvable(
    p: NoiseParameters,
    pool: Seq<(Seq<char>, ConstantTypes)>,
) -> bool {
    &&& usize_resolvable(p.octaves, pool)
    &&& sb_resolvable(p.frequency, pool)
    &&& sb_resolvable(p.lacunarity, pool)
    &&& sb_resolvable(p.persistence, pool)
}

/// Whether every node of a flattened graph resolves.
pub open spec fn graph_resolvable(
    g: Seq<(Seq<char>, Node)>,
    pool: Seq<(Seq<char>, ConstantTypes)>,
) -> bool {
    forall|i: int| 0 <= i < g.len() ==> node_resolvable((#[trigger] g[i]).1, pool)
}

/// Like `node_resolvable`, but without the clamp-order demand: the node's
/// parameters all resolve, though a clamp may still carry inverted
/// bounds.
pub open spec fn node_resolvable_weak(n: Node, pool: Seq<(Seq<char>, ConstantTypes)>) -> bool {
    match n {
        Node::Modifier(Modifier::Clamp { input: _, min, max }) => sb_resolvable(min, pool)
            && sb_resolvable(max, pool),
        _ => node_resolvable(n, pool),
    }
}

/// Whether every node's parameters resolve, clamp order aside.
pub open spec fn graph_resolvable_weak(
    g: Seq<(Seq<char>, Node)>,
    pool: Seq<(Seq<char>, ConstantTypes)>,
) -> bool {
    forall|i: int| 0 <= i < g.len() ==> node_resolvable_weak((#[trigger] g[i]).1, pool)
}

/// Resolves an indirect scalar to finite double bits.
fn resolve_sb(
    cov: &ConstantOrValue<ScalarBits>,
    pool: &NamedMap<ConstantTypes>,
    ctx: &String,
) -> (r: Result<u64, NoiseError>)
    ensures
        match r {
            Ok(bits) => rs_sb_rel(*cov, pool@, bits) && scalar_is_finite(bits) && scalar_v74(bits)
                == sb_resolved_v74(*cov, pool@),
            Err(e) => e matches NoiseError::UnresolvedConstant(_) || e matches
                NoiseError::InvalidConstantValue(_, _),
        },
        sb_resolvable(*cov, pool@) ==> r is Ok,
{
    let bits = match cov {
        ConstantOrValue::RawValue(b) => {
            if !is_finite_bits(b.bits) {
                return Err(
                    NoiseError::InvalidConstantValue(
                        ctx.clone(),
                        "value is not a finite number".to_owned(),
                    ),
                );
            }
            b.bits
        },
        ConstantOrValue::Constant(nm) => {
            let c = match pool.get(nm) {
                Some(c) => *c,
                None => {
                    return Err(NoiseError::UnresolvedConstant(nm.clone()));
                },
            };
            let bits = match c.as_float_bits() {
                Ok(b) => b,
                Err(_) => {
                    return Err(
                        NoiseError::InvalidConstantValue(
                            nm.clone(),
                            "value cannot be read as a double".to_owned(),
                        ),
                    );
                },
            };
            if !is_finite_bits(bits) {
                return Err(
                    NoiseError::InvalidConstantValue(
                        nm.clone(),
                        "value is not a finite number".to_owned(),
                    ),
                );
            }
            bits
        },
    };
    Ok(bits)
}

/// Resolves an indirect seed to a machine word.
fn resolve_u64(cov: &ConstantOrValue<u64>, pool: &NamedMap<ConstantTypes>) -> (r: Result<
    u64,
    NoiseError,
>)
    ensures
        match r {
            Ok(n) => rs_u64_rel(*cov, pool@, n),
            Err(e) => e matches NoiseError::UnresolvedConstant(_) || e matches
                NoiseError::InvalidConstantValue(_, _),
        },
        u64_resolvable(*cov, pool@) ==> r is Ok,
{
    match cov {
        ConstantOrValue::RawValue(v) => Ok(*v),
        ConstantOrValue::Constant(nm) => {
            let c = match pool.get(nm) {
                Some(c) => *c,
                None => {
                    return Err(NoiseError::UnresolvedConstant(nm.clone()));
                },
            };
            match c.as_u64() {
                Ok(n) => Ok(n),
                Err(_) => Err(
                    NoiseError::InvalidConstantValue(
                        nm.clone(),
                        "value cannot be read as an unsigned integer".to_owned(),
                    ),
                ),
            }
        },
    }
}

/// Resolves an indirect octave count.
fn resolve_usize(cov: &ConstantOrValue<usize>, pool: &NamedMap<ConstantTypes>) -> (r: Result<
    usize,
    NoiseError,
>)
    ensures
        match r {
            Ok(n) => rs_usize_rel(*cov, pool@, n),
            Err(e) => e matches NoiseError::UnresolvedConstant(_) || e matches
                NoiseError::InvalidConstantValue(_, _),
        },
        usize_resolvable(*cov, pool@) ==> r is Ok,
{
    match cov {
        ConstantOrValue::RawValue(v) => Ok(*v),
        ConstantOrValue::Constant(nm) => {
            let c = match pool.get(nm) {
                Some(c) => *c,
                None => {
                    return Err(NoiseError::UnresolvedConstant(nm.clone()));
                },
            };
            match c.as_usize() {
                Ok(n) => Ok(n),
                Err(_) => Err(
                    NoiseError::InvalidConstantValue(
                        nm.clone(),
                        "value cannot be read as an index".to_owned(),
                    ),
                ),
            }
        },
    }
}

/// Resolves an indirect vector to finite double bits per axis.
fn resolve_pair(
    cov: &ConstantOrValue<ScalarPair>,
    pool: &NamedMap<ConstantTypes>,
    ctx: &String,
) -> (r: Result<(u64, u64), NoiseError>)
    ensures
        match r {
            Ok(p) => rs_pair_rel(*cov, pool@, p.0, p.1) && scalar_is_finite(p.0)
                && scalar_is_finite(p.1),
            Err(e) => e matches NoiseError::UnresolvedConstant(_) || e matches
                NoiseError::InvalidConstantValue(_, _),
        },
        pair_resolvable(*cov, pool@) ==> r is Ok,
{
    match cov {
        ConstantOrValue::RawValue(p) => {
            if !is_finite_bits(p.x.bits) || !is_finite_bits(p.y.bits) {
                return Err(
                    NoiseError::InvalidConstantValue(
                        ctx.clone(),
                        "vector component is not a finite number".to_owned(),
                    ),
                );
            }
            Ok((p.x.bits, p.y.bits))
        },
        ConstantOrValue::Constant(_) => {
            let one = resolve_sb(&clone_cov_name(cov), pool, ctx)?;
            Ok((one, one))
        },
    }
}

/// Reads the constant name out of an indirect vector so the scalar
/// resolver can look it up.
fn clone_cov_name(cov: &ConstantOrValue<ScalarPair>) -> (r: ConstantOrValue<ScalarBits>)
    requires
        cov is Constant,
    ensures
        r is Constant,
        r->Constant_0@ == cov->Constant_0@,
{
    match cov {
        ConstantOrValue::Constant(nm) => ConstantOrValue::Constant(nm.clone()),
        ConstantOrValue::RawValue(_) => ConstantOrValue::Constant(String::new()),
    }
}

/// Whether an input index carries a reference: it points below the name
/// table and the name there is the referenced one.
pub open spec fn iref_ok(name: Seq<char>, idx: usize, names: Seq<String>) -> bool {
    idx < names.len() && names[idx as int]@ == name
}

/// Whether a plan step is the faithful resolution of a document node: the
/// same operation, every reference turned into the index of the step
/// carrying the referenced name, and every indirect parameter resolved
/// against the pool.
pub open spec fn resolved_rel(
    n: Node,
    pn: PlanNode,
    names: Seq<String>,
    pool: Seq<(Seq<char>, ConstantTypes)>,
) -> bool {
    match (n, pn) {
        (
            Node::Generator(Generator::Constant { value }),
            PlanNode::ConstantVal { bits },
        ) => rs_sb_rel(value, pool, bits),
        (Node::Generator(Generator::Checkerboard), PlanNode::Source { kind, seed }) => kind
            == SourceKind::Checkerboard && seed == 0u64,
        (
            Node::Generator(Generator::ImprovedPerlin { seed: s }),
            PlanNode::Source { kind, seed },
        ) => kind == SourceKind::ImprovedPerlin && rs_u64_rel(s, pool, seed),
        (Node::Generator(Generator::Perlin { seed: s }), PlanNode::Source { kind, seed }) => kind
            == SourceKind::Perlin && rs_u64_rel(s, pool, seed),
        (Node::Generator(Generator::Value { seed: s }), PlanNode::Source { kind, seed }) => kind
            == SourceKind::Value && rs_u64_rel(s, pool, seed),
        (Node::Generator(Generator::Simplex { seed: s }), PlanNode::Source { kind, seed }) => kind
            == SourceKind::Simplex && rs_u64_rel(s, pool, seed),
        (Node::Generator(Generator::Worley { seed: s }), PlanNode::Source { kind, seed }) => kind
            == SourceKind::Worley && rs_u64_rel(s, pool, seed),
        (
            Node::Modifier(Modifier::Fbm { input, parameters }),
            PlanNode::Octaves { synth, input: i, octaves, frequency, lacunarity, persistence },
        ) => synth == SynthKind::Fbm && iref_ok(input@, i, names) && params_rel(
            parameters,
            pool,
            octaves,
            frequency,
            lacunarity,
            persistence,
        ),
        (
            Node::Modifier(Modifier::RidgedMulti { input, parameters }),
            PlanNode::Octaves { synth, input: i, octaves, frequency, lacunarity, persistence },
        ) => synth == SynthKind::RidgedMulti && iref_ok(input@, i, names) && params_rel(
            parameters,
            pool,
            octaves,
            frequency,
            lacunarity,
            persistence,
        ),
        (
            Node::Modifier(Modifier::Billow { input, parameters }),
            PlanNode::Octaves { synth, input: i, octaves, frequency, lacunarity, persistence },
        ) => synth == SynthKind::Billow && iref_ok(input@, i, names) && params_rel(
            parameters,
            pool,
            octaves,
            frequency,
            lacunarity,
            persistence,
        ),
        (Node::Modifier(Modifier::Abs { input }), PlanNode::Abs { input: i }) => iref_ok(
            input@,
            i,
            names,
        ),
        (Node::Modifier(Modifier::Exp { input }), PlanNode::Exp { input: i }) => iref_ok(
            input@,
            i,
            names,
        ),
        (Node::Modifier(Modifier::Neg { input }), PlanNode::Neg { input: i }) => iref_ok(
            input@,
            i,
            names,
        ),
        (
            Node::Modifier(Modifier::Add { input, value }),
            PlanNode::AddScalar { input: i, value: v },
        ) => iref_ok(input@, i, names) && rs_sb_rel(value, pool, v),
        (
            Node::Modifier(Modifier::Mul { input, value }),
            PlanNode::MulScalar { input: i, value: v },
        ) => iref_ok(input@, i, names) && rs_sb_rel(value, pool, v),
        (
            Node::Modifier(Modifier::Clamp { input, min, max }),
            PlanNode::Clamp { input: i, min: lo, max: hi },
        ) => iref_ok(input@, i, names) && rs_sb_rel(min, pool, lo) && rs_sb_rel(max, pool, hi),
        (
            Node::Modifier(Modifier::Pow { input, exponent }),
            PlanNode::PowScalar { input: i, exponent: e },
        ) => iref_ok(input@, i, names) && rs_sb_rel(exponent, pool, e),
        (
            Node::Combiner(Combiner::Blend { base, other, control }),
            PlanNode::Blend { a, b, control: c },
        ) => iref_ok(base@, a, names) && iref_ok(other@, b, names) && iref_ok(control@, c, names),
        (Node::Combiner(Combiner::Max { base, other }), PlanNode::Max { a, b }) => iref_ok(
            base@,
            a,
            names,
        ) && iref_ok(other@, b, names),
        (Node::Combiner(Combiner::Min { base, other }), PlanNode::Min { a, b }) => iref_ok(
            base@,
            a,
            names,
        ) && iref_ok(other@, b, names),
        (Node::Combiner(Combiner::Power { base, exponent }), PlanNode::Power { a, b }) => iref_ok(
            base@,
            a,
            names,
        ) && iref_ok(exponent@, b, names),
        (Node::Combiner(Combiner::Product { base, other }), PlanNode::Product { a, b }) => iref_ok(
            base@,
            a,
            names,
        ) && iref_ok(other@, b, names),
        (Node::Combiner(Combiner::Sum { base, other }), PlanNode::Sum { a, b }) => iref_ok(
            base@,
            a,
            names,
        ) && iref_ok(other@, b, names),
        (
            Node::Combiner(Combiner::Select { base, other, control, lower_bound, upper_bound }),
            PlanNode::Select { a, b, control: c, lower, upper },
        ) => iref_ok(base@, a, names) && iref_ok(other@, b, names) && iref_ok(control@, c, names)
            && rs_sb_rel(lower_bound, pool, lower) && rs_sb_rel(upper_bound, pool, upper),
        (
            Node::Transformer(Transformer::Rotate { input, rotation }),
            PlanNode::Rotate { input: i, angle },
        ) => iref_ok(input@, i, names) && rs_sb_rel(rotation, pool, angle),
        (
            Node::Transformer(Transformer::Scale { input, scale }),
            PlanNode::Scale { input: i, x, y },
        ) => iref_ok(input@, i, names) && rs_pair_rel(scale, pool, x, y),
        (
            Node::Transformer(Transformer::Translate { input, translation }),
            PlanNode::Translate { input: i, x, y },
        ) => iref_ok(input@, i, names) && rs_pair_rel(translation, pool, x, y),
        _ => false,
    }
}

/// The resolution of one parameter set.
pub open spec fn params_rel(
    p: NoiseParameters,
    pool: Seq<(Seq<char>, ConstantTypes)>,
    octaves: usize,
    frequency: u64,
    lacunarity: u64,
    persistence: u64,
) -> bool {
    &&& rs_usize_rel(p.octaves, pool, octaves)
    &&& rs_sb_rel(p.frequency, pool, frequency)
    &&& rs_sb_rel(p.lacunarity, pool, lacunarity)
    &&& rs_sb_rel(p.persistence, pool, persistence)
}

/// Whether every index a placement table hands out points at the step
/// carrying that name.
pub open spec fn placed_ok(placed: Seq<(Seq<char>, usize)>, names: Seq<String>) -> bool {
    forall|k: Seq<char>|
        #[trigger] nm_get(placed, k) is Some ==> nm_get(placed, k)->Some_0 < names.len()
            && names[nm_get(placed, k)->Some_0 as int]@ == k
}

/// Looks a reference up in the placement table.
fn iref(name: &String, placed: &NamedMap<usize>, Ghost(names): Ghost<Seq<String>>) -> (r: Result<
    usize,
    NoiseError,
>)
    requires
        placed_ok(placed@, names),
    ensures
        match r {
            Ok(i) => iref_ok(name@, i, names) && nm_contains(placed@, name@),
            Err(e) => e matches NoiseError::NodeNotFound(_) && !nm_contains(placed@, name@),
        },
{
    match placed.get(name) {
        Some(i) => Ok(*i),
        None => Err(NoiseError::NodeNotFound(name.clone())),
    }
}

/// Resolves one document node into a plan step, against the placement
/// table built so far and the document's constant pool.  References are
/// resolved before parameters, so a node whose inputs are not placed yet
/// reports the missing node and nothing else.
fn resolve_node(
    n: &Node,
    placed: &NamedMap<usize>,
    pool: &NamedMap<ConstantTypes>,
    ctx: &String,
    Ghost(names): Ghost<Seq<String>>,
) -> (r: Result<PlanNode, NoiseError>)
    requires
        placed_ok(placed@, names),
    ensures
        match r {
            Ok(pn) => resolved_rel(*n, pn, names, pool@) && plan_params_finite(pn),
            Err(e) => e matches NoiseError::NodeNotFound(_) || e matches
                NoiseError::UnresolvedConstant(_) || e matches NoiseError::InvalidConstantValue(
                _,
                _,
            ),
        },
        node_resolvable(*n, pool@) ==> (r is Ok || (r matches Err(e2) && e2 is NodeNotFound)),
        node_resolvable_weak(*n, pool@) ==> (r is Ok || (r matches Err(e2) && (e2 is NodeNotFound
            || e2 is InvalidConstantValue))),
        r matches Err(e2) && e2 is NodeNotFound ==> exists|j: int|
            0 <= j < node_refs(*n).len() && !nm_contains(placed@, #[trigger] node_refs(*n)[j]),
        (match *n {
            Node::Modifier(Modifier::Clamp { input, min, max }) => nm_contains(placed@, input@)
                && sb_resolvable(min, pool@) && sb_resolvable(max, pool@) && sb_resolved_v74(
                min,
                pool@,
            ) > sb_resolved_v74(max, pool@),
            _ => false,
        }) ==> (r matches Err(e2) && e2 is InvalidConstantValue),
{
    match n {
        Node::Generator(g) => match g {
            Generator::Constant { value } => {
                let bits = resolve_sb(value, pool, ctx)?;
                Ok(PlanNode::ConstantVal { bits })
            },
            Generator::Checkerboard => Ok(
                PlanNode::Source { kind: SourceKind::Checkerboard, seed: 0 },
            ),
            Generator::ImprovedPerlin { seed } => {
                let s = resolve_u64(seed, pool)?;
                Ok(PlanNode::Source { kind: SourceKind::ImprovedPerlin, seed: s })
            },
            Generator::Perlin { seed } => {
                let s = resolve_u64(seed, pool)?;
                Ok(PlanNode::Source { kind: SourceKind::Perlin, seed: s })
            },
            Generator::Value { seed } => {
                let s = resolve_u64(seed, pool)?;
                Ok(PlanNode::Source { kind: SourceKind::Value, seed: s })
            },
            Generator::Simplex { seed } => {
                let s = resolve_u64(seed, pool)?;
                Ok(PlanNode::Source { kind: SourceKind::Simplex, seed: s })
            },
            Generator::Worley { seed } => {
                let s = resolve_u64(seed, pool)?;
                Ok(PlanNode::Source { kind: SourceKind::Worley, seed: s })
            },
        },
        Node::Modifier(md) => match md {
            Modifier::Fbm { input, parameters } => {
                let i = match iref(input, placed, Ghost(names)) {
                    Ok(i) => i,
                    Err(e) => {
                        proof {
                            assert(node_refs(*n)[0] == input@);
                        }
                        return Err(e);
                    },
                };
                let (o, f, l, p) = resolve_params(parameters, pool, ctx)?;
                Ok(
                    PlanNode::Octaves {
                        synth: SynthKind::Fbm,
                        input: i,
                        octaves: o,
                        frequency: f,
                        lacunarity: l,
                        persistence: p,
                    },
                )
            },
            Modifier::RidgedMulti { input, parameters } => {
                let i = match iref(input, placed, Ghost(names)) {
                    Ok(i) => i,
                    Err(e) => {
                        proof {
                            assert(node_refs(*n)[0] == input@);
                        }
                        return Err(e);
                    },
                };
                let (o, f, l, p) = resolve_params(parameters, pool, ctx)?;
                Ok(
                    PlanNode::Octaves {
                        synth: SynthKind::RidgedMulti,
                        input: i,
                        octaves: o,
                        frequency: f,
                        lacunarity: l,
                        persistence: p,
                    },
                )
            },
            Modifier::Billow { input, parameters } => {
                let i = match iref(input, placed, Ghost(names)) {
                    Ok(i) => i,
                    Err(e) => {
                        proof {
                            assert(node_refs(*n)[0] == input@);
                        }
                        return Err(e);
                    },
                };
                let (o, f, l, p) = resolve_params(parameters, pool, ctx)?;
                Ok(
                    PlanNode::Octaves {
                        synth: SynthKind::Billow,
                        input: i,
                        octaves: o,
                        frequency: f,
                        lacunarity: l,
                        persistence: p,
                    },
                )
            },
            Modifier::Abs { input } => {
                let i = match iref(input, placed, Ghost(names)) {
                    Ok(i) => i,
                    Err(e) => {
                        proof {
                            assert(node_refs(*n)[0] == input@);
                        }
                        return Err(e);
                    },
                };
                Ok(PlanNode::Abs { input: i })
            },
            Modifier::Exp { input } => {
                let i = match iref(input, placed, Ghost(names)) {
                    Ok(i) => i,
                    Err(e) => {
                        proof {
                            assert(node_refs(*n)[0] == input@);
                        }
                        return Err(e);
                    },
                };
                Ok(PlanNode::Exp { input: i })
            },
            Modifier::Neg { input } => {
                let i = match iref(input, placed, Ghost(names)) {
                    Ok(i) => i,
                    Err(e) => {
                        proof {
                            assert(node_refs(*n)[0] == input@);
                        }
                        return Err(e);
                    },
                };
                Ok(PlanNode::Neg { input: i })
            },
            Modifier::Add { input, value } => {
                let i = match iref(input, placed, Ghost(names)) {
                    Ok(i) => i,
                    Err(e) => {
                        proof {
                            assert(node_refs(*n)[0] == input@);
                        }
                        return Err(e);
                    },
                };
                let v = resolve_sb(value, pool, ctx)?;
                Ok(PlanNode::AddScalar { input: i, value: v })
            },
            Modifier::Mul { input, value } => {
                let i = match iref(input, placed, Ghost(names)) {
                    Ok(i) => i,
                    Err(e) => {
                        proof {
                            assert(node_refs(*n)[0] == input@);
                        }
                        return Err(e);
                    },
                };
                let v = resolve_sb(value, pool, ctx)?;
                Ok(PlanNode::MulScalar { input: i, value: v })
            },
            Modifier::Clamp { input, min, max } => {
                let i = match iref(input, placed, Ghost(names)) {
                    Ok(i) => i,
                    Err(e) => {
                        proof {
                            assert(node_refs(*n)[0] == input@);
                        }
                        return Err(e);
                    },
                };
                let lo = resolve_sb(min, pool, ctx)?;
                let hi = resolve_sb(max, pool, ctx)?;
                if !crate::scalar::le_bits(lo, hi) {
                    return Err(
                        NoiseError::InvalidConstantValue(
                            ctx.clone(),
                            "clamp bounds are inverted".to_owned(),
                        ),
                    );
                }
                Ok(PlanNode::Clamp { input: i, min: lo, max: hi })
            },
            Modifier::Pow { input, exponent } => {
                let i = match iref(input, placed, Ghost(names)) {
                    Ok(i) => i,
                    Err(e) => {
                        proof {
                            assert(node_refs(*n)[0] == input@);
                        }
                        return Err(e);
                    },
                };
                let e = resolve_sb(exponent, pool, ctx)?;
                Ok(PlanNode::PowScalar { input: i, exponent: e })
            },
        },
        Node::Combiner(c) => match c {
            Combiner::Blend { base, other, control } => {
                let a = match iref(base, placed, Ghost(names)) {
                    Ok(i) => i,
                    Err(e) => {
                        proof {
                            assert(node_refs(*n)[0] == base@);
                        }
                        return Err(e);
                    },
                };
                let b = match iref(other, placed, Ghost(names)) {
                    Ok(i) => i,
                    Err(e) => {
                        proof {
                            assert(node_refs(*n)[1] == other@);
                        }
                        return Err(e);
                    },
                };
                let k = match iref(control, placed, Ghost(names)) {
                    Ok(i) => i,
                    Err(e) => {
                        proof {
                            assert(node_refs(*n)[2] == control@);
                        }
                        return Err(e);
                    },
                };
                Ok(PlanNode::Blend { a, b, control: k })
            },
            Combiner::Max { base, other } => {
                let a = match iref(base, placed, Ghost(names)) {
                    Ok(i) => i,
                    Err(e) => {
                        proof {
                            assert(node_refs(*n)[0] == base@);
                        }
                        return Err(e);
                    },
                };
                let b = match iref(other, placed, Ghost(names)) {
                    Ok(i) => i,
                    Err(e) => {
                        proof {
                            assert(node_refs(*n)[1] == other@);
                        }
                        return Err(e);
                    },
                };
                Ok(PlanNode::Max { a, b })
            },
            Combiner::Min { base, other } => {
                let a = match iref(base, placed, Ghost(names)) {
                    Ok(i) => i,
                    Err(e) => {
                        proof {
                            assert(node_refs(*n)[0] == base@);
                        }
                        return Err(e);
                    },
                };
                let b = match iref(other, placed, Ghost(names)) {
                    Ok(i) => i,
                    Err(e) => {
                        proof {
                            assert(node_refs(*n)[1] == other@);
                        }
                        return Err(e);
                    },
                };
                Ok(PlanNode::Min { a, b })
            },
            Combiner::Power { base, exponent } => {
                let a = match iref(base, placed, Ghost(names)) {
                    Ok(i) => i,
                    Err(e) => {
                        proof {
                            assert(node_refs(*n)[0] == base@);
                        }
                        return Err(e);
                    },
                };
                let b = match iref(exponent, placed, Ghost(names)) {
                    Ok(i) => i,
                    Err(e) => {
                        proof {
                            assert(node_refs(*n)[1] == exponent@);
                        }
                        return Err(e);
                    },
                };
                Ok(PlanNode::Power { a, b })
            },
            Combiner::Product { base, other } => {
                let a = match iref(base, placed, Ghost(names)) {
                    Ok(i) => i,
                    Err(e) => {
                        proof {
                            assert(node_refs(*n)[0] == base@);
                        }
                        return Err(e);
                    },
                };
                let b = match iref(other, placed, Ghost(names)) {
                    Ok(i) => i,
                    Err(e) => {
                        proof {
                            assert(node_refs(*n)[1] == other@);
                        }
                        return Err(e);
                    },
                };
                Ok(PlanNode::Product { a, b })
            },
            Combiner::Sum { base, other } => {
                let a = match iref(base, placed, Ghost(names)) {
                    Ok(i) => i,
                    Err(e) => {
                        proof {
                            assert(node_refs(*n)[0] == base@);
                        }
                        return Err(e);
                    },
                };
                let b = match iref(other, placed, Ghost(names)) {
                    Ok(i) => i,
                    Err(e) => {
                        proof {
                            assert(node_refs(*n)[1] == other@);
                        }
                        return Err(e);
                    },
                };
                Ok(PlanNode::Sum { a, b })
            },
            Combiner::Select { base, other, control, lower_bound, upper_bound } => {
                let a = match iref(base, placed, Ghost(names)) {
                    Ok(i) => i,
                    Err(e) => {
                        proof {
                            assert(node_refs(*n)[0] == base@);
                        }
                        return Err(e);
                    },
                };
                let b = match iref(other, placed, Ghost(names)) {
                    Ok(i) => i,
                    Err(e) => {
                        proof {
                            assert(node_refs(*n)[1] == other@);
                        }
                        return Err(e);
                    },
                };
                let k = match iref(control, placed, Ghost(names)) {
                    Ok(i) => i,
                    Err(e) => {
                        proof {
                            assert(node_refs(*n)[2] == control@);
                        }
                        return Err(e);
                    },
                };
                let lo = resolve_sb(lower_bound, pool, ctx)?;
                let hi = resolve_sb(upper_bound, pool, ctx)?;
                Ok(PlanNode::Select { a, b, control: k, lower: lo, upper: hi })
            },
        },
        Node::Transformer(t) => match t {
            Transformer::Rotate { input, rotation } => {
                let i = match iref(input, placed, Ghost(names)) {
                    Ok(i) => i,
                    Err(e) => {
                        proof {
                            assert(node_refs(*n)[0] == input@);
                        }
                        return Err(e);
                    },
                };
                let angle = resolve_sb(rotation, pool, ctx)?;
                Ok(PlanNode::Rotate { input: i, angle })
            },
            Transformer::Scale { input, scale } => {
                let i = match iref(input, placed, Ghost(names)) {
                    Ok(i) => i,
                    Err(e) => {
                        proof {
                            assert(node_refs(*n)[0] == input@);
                        }
                        return Err(e);
                    },
                };
                let (x, y) = resolve_pair(scale, pool, ctx)?;
                Ok(PlanNode::Scale { input: i, x, y })
            },
            Transformer::Translate { input, translation } => {
                let i = match iref(input, placed, Ghost(names)) {
                    Ok(i) => i,
                    Err(e) => {
                        proof {
                            assert(node_refs(*n)[0] == input@);
                        }
                        return Err(e);
                    },
                };
                let (x, y) = resolve_pair(translation, pool, ctx)?;
                Ok(PlanNode::Translate { input: i, x, y })
            },
        },
    }
}

/// Resolves a parameter set.
fn resolve_params(
    p: &NoiseParameters,
    pool: &NamedMap<ConstantTypes>,
    ctx: &String,
) -> (r: Result<(usize, u64, u64, u64), NoiseError>)
    ensures
        match r {
            Ok(t) => params_rel(*p, pool@, t.0, t.1, t.2, t.3) && scalar_is_finite(t.1)
                && scalar_is_finite(t.2) && scalar_is_finite(t.3),
            Err(e) => e matches NoiseError::UnresolvedConstant(_) || e matches
                NoiseError::InvalidConstantValue(_, _),
        },
        params_resolvable(*p, pool@) ==> r is Ok,
{
    let o = resolve_usize(&p.octaves, pool)?;
    let f = resolve_sb(&p.frequency, pool, ctx)?;
    let l = resolve_sb(&p.lacunarity, pool, ctx)?;
    let q = resolve_sb(&p.persistence, pool, ctx)?;
    Ok((o, f, l, q))
}

/// Whether every reference of every node of a flattened graph names a
/// sibling node.
pub open spec fn flat_refs_ok(g: Seq<(Seq<char>, Node)>) -> bool {
    forall|i: int, j: int|
        0 <= i < g.len() && 0 <= j < node_refs(g[i].1).len() ==> nm_contains(
            g,
            #[trigger] node_refs(g[i].1)[j],
        )
}

/// A cycle in a flattened graph: a nonempty run of entry indices in which
/// every node references the name of the next, the last wrapping around
/// to the first.
pub open spec fn cycle_in(g: Seq<(Seq<char>, Node)>, c: Seq<int>) -> bool {
    &&& c.len() > 0
    &&& forall|j: int| 0 <= j < c.len() ==> 0 <= #[trigger] c[j] < g.len()
    &&& forall|j: int|
        0 <= j < c.len() ==> node_refs(g[#[trigger] c[j]].1).contains(
            g[c[(j + 1) % c.len() as int]].0,
        )
}

/// Whether a flattened graph holds any reference cycle.
pub open spec fn graph_has_cycle(g: Seq<(Seq<char>, Node)>) -> bool {
    exists|c: Seq<int>| cycle_in(g, c)
}

/// The position of a name in the plan's name table.
pub open spec fn pos_of(names: Seq<String>, k: Seq<char>) -> int {
    choose|q: int| 0 <= q < names.len() && names[q]@ == k
}

/// Whether every name of a graph is carried by some step of the plan.
pub open spec fn plan_covers(names: Seq<String>, g: Seq<(Seq<char>, Node)>) -> bool {
    forall|i: int|
        0 <= i < g.len() ==> exists|q: int|
            0 <= q < names.len() && (#[trigger] names[q])@ == #[trigger] g[i].0
}

/// Whether every step of the plan resolves the graph node of the same
/// name.
pub open spec fn plan_matches(
    p: FlatGraph,
    g: Seq<(Seq<char>, Node)>,
    pool: Seq<(Seq<char>, ConstantTypes)>,
) -> bool {
    &&& p.names@.len() == p.nodes@.len()
    &&& forall|q: int|
        0 <= q < p.nodes@.len() ==> {
            &&& nm_get(g, (#[trigger] p.names@[q])@) is Some
            &&& resolved_rel(nm_get(g, p.names@[q]@)->Some_0, p.nodes@[q], p.names@, pool)
        }
}

/// Extending the name table does not disturb an already resolved step.
proof fn lemma_resolved_rel_push(
    n: Node,
    pn: PlanNode,
    names: Seq<String>,
    x: String,
    pool: Seq<(Seq<char>, ConstantTypes)>,
)
    requires
        resolved_rel(n, pn, names, pool),
    ensures
        resolved_rel(n, pn, names.push(x), pool),
{
    assert forall|nm: Seq<char>, idx: usize| iref_ok(nm, idx, names) implies iref_ok(
        nm,
        idx,
        names.push(x),
    ) by {
        assert(names.push(x)[idx as int] == names[idx as int]);
    }
}

/// Whether a placement is stuck: every unplaced node waits on an
/// unplaced input.
pub open spec fn placement_stuck(
    g: Seq<(Seq<char>, Node)>,
    placed: Seq<(Seq<char>, usize)>,
) -> bool {
    forall|i2: int|
        0 <= i2 < g.len() && !nm_contains(placed, (#[trigger] g[i2]).0) ==> exists|j: int|
            0 <= j < node_refs(g[i2].1).len() && !nm_contains(
                placed,
                #[trigger] node_refs(g[i2].1)[j],
            )
}

/// More indices than distinct values forces a repeat.
proof fn lemma_seq_repeat(s: Seq<int>, bound: int)
    requires
        bound >= 0,
        s.len() > bound,
        forall|k: int| 0 <= k < s.len() ==> 0 <= #[trigger] s[k] < bound,
    ensures
        exists|k1: int, k2: int| 0 <= k1 < k2 < s.len() && s[k1] == s[k2],
{
    broadcast use vstd::seq_lib::seq_to_set_is_finite;

    if !(exists|k1: int, k2: int| 0 <= k1 < k2 < s.len() && s[k1] == s[k2]) {
        assert(s.no_duplicates()) by {
            assert forall|i: int, j: int| 0 <= i < s.len() && 0 <= j < s.len() && i != j implies s[i]
                != s[j] by {
                if s[i] == s[j] {
                    if i < j {
                        assert(0 <= i < j < s.len() && s[i] == s[j]);
                    } else {
                        assert(0 <= j < i < s.len() && s[j] == s[i]);
                    }
                }
            }
        }
        s.unique_seq_to_set();
        vstd::set_lib::lemma_int_range(0, bound);
        assert(s.to_set().subset_of(vstd::set_lib::set_int_range(0, bound))) by {
            assert forall|e: int| s.to_set().contains(e) implies vstd::set_lib::set_int_range(
                0,
                bound,
            ).contains(e) by {
                let k = choose|k: int| 0 <= k < s.len() && s[k] == e;
            }
        }
        vstd::set_lib::lemma_len_subset(s.to_set(), vstd::set_lib::set_int_range(0, bound));
        assert(false);
    }
}

/// Distinct names that are all graph keys cannot outnumber the graph's
/// entries.
proof fn lemma_distinct_names_bounded(names: Seq<String>, g: Seq<(Seq<char>, Node)>)
    requires
        forall|q1: int, q2: int|
            0 <= q1 < q2 < names.len() ==> (#[trigger] names[q1])@ != (#[trigger] names[q2])@,
        forall|q: int| 0 <= q < names.len() ==> nm_contains(g, (#[trigger] names[q])@),
    ensures
        names.len() <= g.len(),
{
    if names.len() > g.len() {
        let idx = Seq::new(
            names.len(),
            |q: int| choose|i: int| 0 <= i < g.len() && g[i].0 == names[q]@,
        );
        assert forall|q: int| 0 <= q < idx.len() implies 0 <= #[trigger] idx[q] < g.len() && g[
            idx[q]].0 == names[q]@ by {
            crate::named_map::lemma_nm_get_present(g, names[q]@);
            assert(exists|i: int| 0 <= i < g.len() && g[i].0 == names[q]@);
        }
        lemma_seq_repeat(idx, g.len() as int);
        let (k1, k2) = choose|k1: int, k2: int|
            0 <= k1 < k2 < idx.len() && idx[k1] == idx[k2];
        assert(names[k1]@ == g[idx[k1]].0);
        assert(names[k2]@ == g[idx[k2]].0);
        assert(false);
    }
}

/// Under a stuck placement, an unplaced node references some unplaced
/// node.
proof fn lemma_stuck_next(
    g: Seq<(Seq<char>, Node)>,
    placed: Seq<(Seq<char>, usize)>,
    i: int,
)
    requires
        flat_refs_ok(g),
        placement_stuck(g, placed),
        0 <= i < g.len(),
        !nm_contains(placed, g[i].0),
    ensures
        exists|i2: int|
            0 <= i2 < g.len() && node_refs(g[i].1).contains(#[trigger] g[i2].0) && !nm_contains(
                placed,
                g[i2].0,
            ),
{
    let j = choose|j: int|
        0 <= j < node_refs(g[i].1).len() && !nm_contains(placed, #[trigger] node_refs(g[i].1)[j]);
    let r = node_refs(g[i].1)[j];
    assert(nm_contains(g, r));
    crate::named_map::lemma_nm_get_present(g, r);
    let i2 = choose|i2: int| 0 <= i2 < g.len() && g[i2].0 == r;
    assert(node_refs(g[i].1).contains(g[i2].0));
}

/// Walks a stuck placement from an unplaced node: a run of unplaced
/// nodes, each referencing the next, of any requested length.
proof fn lemma_stuck_path(
    g: Seq<(Seq<char>, Node)>,
    placed: Seq<(Seq<char>, usize)>,
    start: int,
    len: nat,
) -> (p: Seq<int>)
    requires
        flat_refs_ok(g),
        placement_stuck(g, placed),
        0 <= start < g.len(),
        !nm_contains(placed, g[start].0),
        len >= 1,
    ensures
        p.len() == len,
        p[0] == start,
        forall|k: int|
            0 <= k < p.len() ==> 0 <= #[trigger] p[k] < g.len() && !nm_contains(placed, g[p[k]].0),
        forall|k: int|
            0 <= k < p.len() - 1 ==> node_refs(g[#[trigger] p[k]].1).contains(g[p[k + 1]].0),
    decreases len,
{
    if len == 1 {
        let p = seq![start];
        p
    } else {
        let p0 = lemma_stuck_path(g, placed, start, (len - 1) as nat);
        let last = p0[p0.len() - 1];
        lemma_stuck_next(g, placed, last);
        let nxt = choose|i2: int|
            0 <= i2 < g.len() && node_refs(g[last].1).contains(#[trigger] g[i2].0) && !nm_contains(
                placed,
                g[i2].0,
            );
        let p = p0.push(nxt);
        assert forall|k: int|
            0 <= k < p.len() - 1 implies node_refs(g[#[trigger] p[k]].1).contains(
            g[p[k + 1]].0,
        ) by {
            if k < p.len() - 2 {
                assert(p[k] == p0[k]);
                assert(p[k + 1] == p0[k + 1]);
            } else {
                assert(p[k] == last);
                assert(p[k + 1] == nxt);
            }
        }
        p
    }
}

/// A stuck placement that still has an unplaced node certifies a cycle:
/// following unplaced inputs long enough must revisit a node.
#[verifier::rlimit(60)]
proof fn lemma_stuck_implies_cycle(
    g: Seq<(Seq<char>, Node)>,
    placed: Seq<(Seq<char>, usize)>,
)
    requires
        flat_refs_ok(g),
        placement_stuck(g, placed),
        exists|k: int| 0 <= k < g.len() && !nm_contains(placed, (#[trigger] g[k]).0),
    ensures
        graph_has_cycle(g),
{
    let start = choose|k: int| 0 <= k < g.len() && !nm_contains(placed, (#[trigger] g[k]).0);
    let p = lemma_stuck_path(g, placed, start, (g.len() + 1) as nat);
    lemma_seq_repeat(p, g.len() as int);
    let (k1, k2) = choose|k1: int, k2: int| 0 <= k1 < k2 < p.len() && p[k1] == p[k2];
    let c = p.subrange(k1, k2);
    assert(cycle_in(g, c)) by {
        assert(c.len() == k2 - k1 >= 1);
        assert forall|j: int| 0 <= j < c.len() implies node_refs(
            g[#[trigger] c[j]].1,
        ).contains(g[c[(j + 1) % c.len() as int]].0) by {
            if j < c.len() - 1 {
                vstd::arithmetic::div_mod::lemma_small_mod((j + 1) as nat, c.len() as nat);
                assert(c[j] == p[k1 + j]);
                assert(c[j + 1] == p[k1 + j + 1]);
            } else {
                vstd::arithmetic::div_mod::lemma_mod_self_0(c.len() as int);
                assert(c[j] == p[k2 - 1]);
                assert(c[0] == p[k1]);
                assert(p[k1] == p[k2]);
                assert(node_refs(g[p[k2 - 1]].1).contains(g[p[k2]].0));
            }
        }
    }
}

/// The running state of the plan builder: the placement table points
/// each placed name at its step, steps resolve the graph nodes of their
/// names, and every handed-out index stays below the step that uses it.
pub open spec fn build_state_ok(
    g: Seq<(Seq<char>, Node)>,
    pool: Seq<(Seq<char>, ConstantTypes)>,
    placed: Seq<(Seq<char>, usize)>,
    names: Seq<String>,
    nodes: Seq<PlanNode>,
) -> bool {
    &&& names.len() == nodes.len()
    &&& nm_unique_keys(placed)
    &&& placed_ok(placed, names)
    &&& forall|q: int|
        0 <= q < names.len() ==> nm_get(placed, (#[trigger] names[q])@) == Some(q as usize)
    &&& forall|q: int|
        0 <= q < nodes.len() ==> {
            &&& nm_get(g, (#[trigger] names[q])@) is Some
            &&& resolved_rel(nm_get(g, names[q]@)->Some_0, nodes[q], names, pool)
        }
    &&& forall|q: int, j: int|
        0 <= q < nodes.len() && 0 <= j < plan_refs(nodes[q]).len() ==> #[trigger] plan_refs(
            nodes[q],
        )[j] < q
    &&& forall|q: int| 0 <= q < nodes.len() ==> plan_params_finite(#[trigger] nodes[q])
}

/// One pass over the graph: resolves and places every node whose inputs
/// are already placed.  Reports whether anything was placed.
fn place_pass(
    g: &NamedMap<Node>,
    pool: &NamedMap<ConstantTypes>,
    placed: &mut NamedMap<usize>,
    names: &mut Vec<String>,
    nodes: &mut Vec<PlanNode>,
) -> (r: Result<bool, NoiseError>)
    requires
        nm_unique_keys(g@),
        build_state_ok(g@, pool@, old(placed)@, old(names)@, old(nodes)@),
    ensures
        build_state_ok(g@, pool@, final(placed)@, final(names)@, final(nodes)@),
        r is Err ==> (r->Err_0 matches NoiseError::UnresolvedConstant(_) || r->Err_0 matches
            NoiseError::InvalidConstantValue(_, _)),
        graph_resolvable(g@, pool@) ==> r is Ok,
        graph_resolvable_weak(g@, pool@) ==> (r is Ok || (r matches Err(e)
            && e is InvalidConstantValue)),
        r == Ok::<bool, NoiseError>(true) ==> final(names)@.len() > old(names)@.len(),
        r == Ok::<bool, NoiseError>(false) ==> final(placed)@ == old(placed)@,
        r == Ok::<bool, NoiseError>(false) ==> placement_stuck(g@, final(placed)@),
{
    let n = g.len();
    let mut progress = false;
    let mut i: usize = 0;
    while i < n
        invariant
            n == g@.len(),
            nm_unique_keys(g@),
            i <= n,
            build_state_ok(g@, pool@, placed@, names@, nodes@),
            progress ==> names@.len() > old(names)@.len(),
            !progress ==> placed@ == old(placed)@,
            !progress ==> names@ == old(names)@,
            !progress ==> forall|i2: int|
                0 <= i2 < i && !nm_contains(placed@, (#[trigger] g@[i2]).0) ==> exists|j: int|
                    0 <= j < node_refs(g@[i2].1).len() && !nm_contains(
                        placed@,
                        #[trigger] node_refs(g@[i2].1)[j],
                    ),
        decreases n - i,
    {
        let entry = g.entry_at(i);
        if !placed.contains_name(&entry.0) {
            match resolve_node(&entry.1, &placed, pool, &entry.0, Ghost(names@)) {
                Ok(pn) => {
                    proof {
                        crate::named_map::lemma_nm_get_at_index(g@, i as int);
                    }
                    let ghost old_names = names@;
                    let idx = nodes.len();
                    names.push(entry.0.clone());
                    nodes.push(pn);
                    placed.insert(entry.0.clone(), idx);
                    proof {
                        assert(names@ == old_names.push(names@[idx as int]));
                        assert forall|q: int| 0 <= q < nodes@.len() implies {
                            &&& nm_get(g@, (#[trigger] names@[q])@) is Some
                            &&& resolved_rel(
                                nm_get(g@, names@[q]@)->Some_0,
                                nodes@[q],
                                names@,
                                pool@,
                            )
                        } by {
                            if q < idx {
                                assert(names@[q] == old_names[q]);
                                lemma_resolved_rel_push(
                                    nm_get(g@, names@[q]@)->Some_0,
                                    nodes@[q],
                                    old_names,
                                    names@[idx as int],
                                    pool@,
                                );
                            } else {
                                assert(names@[q]@ == g@[i as int].0);
                                lemma_resolved_rel_push(
                                    g@[i as int].1,
                                    pn,
                                    old_names,
                                    names@[idx as int],
                                    pool@,
                                );
                            }
                        }
                        // A step's references were handed out by the placement
                        // table, which only points below the step itself.
                        assert forall|j: int|
                            0 <= j < plan_refs(pn).len() implies #[trigger] plan_refs(pn)[j]
                            < idx by {
                            lemma_resolved_refs_bounded(
                                g@[i as int].1,
                                pn,
                                old_names,
                                pool@,
                                j,
                            );
                        }
                    }
                    progress = true;
                },
                Err(e) => {
                    match e {
                        NoiseError::NodeNotFound(_) => {
                            // An input is not placed yet: leave the node
                            // for a later pass.
                        },
                        _ => {
                            proof {
                                assert(!node_resolvable(g@[i as int].1, pool@));
                                if !(e is InvalidConstantValue) {
                                    assert(!node_resolvable_weak(g@[i as int].1, pool@));
                                }
                            }
                            return Err(e);
                        },
                    }
                },
            }
        }
        i = i + 1;
    }
    Ok(progress)
}

/// Whether every graph name is placed.
fn all_names_placed(g: &NamedMap<Node>, placed: &NamedMap<usize>) -> (r: bool)
    ensures
        r == forall|k: int| 0 <= k < g@.len() ==> nm_contains(placed@, #[trigger] g@[k].0),
{
    let n = g.len();
    let mut j: usize = 0;
    while j < n
        invariant
            n == g@.len(),
            j <= n,
            forall|k: int| 0 <= k < j ==> nm_contains(placed@, #[trigger] g@[k].0),
        decreases n - j,
    {
        let entry = g.entry_at(j);
        if !placed.contains_name(&entry.0) {
            proof {
                assert(!nm_contains(placed@, g@[j as int].0));
            }
            return false;
        }
        j = j + 1;
    }
    true
}
/// Names the first graph node the placement table does not hold, for the
/// cycle report.
fn first_unplaced_name(g: &NamedMap<Node>, placed: &NamedMap<usize>) -> (r: String)
    ensures
        (exists|k: int|
            0 <= k < g@.len() && !nm_contains(placed@, (#[trigger] g@[k]).0)) ==> (nm_contains(
            g@,
            r@,
        ) && !nm_contains(placed@, r@)),
{
    let n = g.len();
    let mut k: usize = 0;
    while k < n
        invariant
            n == g@.len(),
            k <= n,
            forall|k2: int| 0 <= k2 < k ==> nm_contains(placed@, (#[trigger] g@[k2]).0),
        decreases n - k,
    {
        let entry = g.entry_at(k);
        if !placed.contains_name(&entry.0) {
            proof {
                crate::named_map::lemma_nm_get_present(g@, g@[k as int].0);
            }
            return entry.0.clone();
        }
        k = k + 1;
    }
    String::new()
}

/// Orders and resolves a reference-closed flattened graph: finds, pass by
/// pass, the nodes whose inputs are already placed, and emits them as plan
/// steps.  When a pass places nothing while nodes remain, those nodes all
/// wait on one another, which certifies a cycle: the first of them names
/// the cycle reported.  On a graph whose references all resolve, whose
/// parameters all resolve, whose reference relation is acyclic and whose
/// designated output is present, success is owed.
#[verifier::rlimit(100)]
pub fn build_plan(
    g: &NamedMap<Node>,
    output: &String,
    pool: &NamedMap<ConstantTypes>,
) -> (r: Result<FlatGraph, NoiseError>)
    requires
        nm_unique_keys(g@),
    ensures
        match r {
            Ok(p) => {
                &&& plan_wf(p)
                &&& plan_matches(p, g@, pool@)
                &&& plan_covers(p.names@, g@)
                &&& p.names@[p.output as int]@ == output@
            },
            Err(e) => e matches NoiseError::CircularReference(_) || e matches
                NoiseError::MissingOutputNode(_) || e matches NoiseError::UnresolvedConstant(_)
                || e matches NoiseError::InvalidConstantValue(_, _),
        },
        flat_refs_ok(g@) && graph_resolvable(g@, pool@) && !graph_has_cycle(g@) && nm_contains(
            g@,
            output@,
        ) ==> r is Ok,
        graph_resolvable(g@, pool@) ==> (r is Ok || (r matches Err(e) && (e is CircularReference
            || e is MissingOutputNode))),
        flat_refs_ok(g@) && graph_resolvable_weak(g@, pool@) && !graph_has_cycle(g@)
            && nm_contains(g@, output@) ==> (r is Ok || (r matches Err(e)
            && e is InvalidConstantValue)),
        flat_refs_ok(g@) && (r matches Err(e) && e is CircularReference) ==> graph_has_cycle(g@),
        r matches Err(e) ==> (e matches NoiseError::CircularReference(nm) ==> nm_contains(
            g@,
            nm@,
        )),
        r matches Err(e) ==> (e is MissingOutputNode ==> !nm_contains(g@, output@)),
{
    let n = g.len();
    let mut placed: NamedMap<usize> = NamedMap::new();
    let mut names: Vec<String> = Vec::new();
    let mut nodes: Vec<PlanNode> = Vec::new();
    proof {
        assert(placed@ =~= Seq::<(Seq<char>, usize)>::empty());
    }
    loop
        invariant
            n == g@.len(),
            nm_unique_keys(g@),
            build_state_ok(g@, pool@, placed@, names@, nodes@),
            names@.len() <= n,
        decreases n - names@.len(),
    {
        let progress = match place_pass(g, pool, &mut placed, &mut names, &mut nodes) {
            Ok(b) => b,
            Err(e) => {
                return Err(e);
            },
        };
        proof {
            // The placed names are distinct graph keys, so the plan cannot
            // outgrow the graph.
            assert forall|q1: int, q2: int|
                0 <= q1 < q2 < names@.len() implies (#[trigger] names@[q1])@ != (
            #[trigger] names@[q2])@ by {
                if names@[q1]@ == names@[q2]@ {
                    assert(names@.len() <= usize::MAX) by {
                        vstd::std_specs::vec::axiom_spec_len(&names);
                    }
                    assert(nm_get(placed@, (names@[q1])@) == Some(q1 as usize));
                    assert(nm_get(placed@, (names@[q2])@) == Some(q2 as usize));
                    assert(q1 as usize == q2 as usize);
                    assert(q1 == q2);
                }
            }
            assert forall|q: int| 0 <= q < names@.len() implies nm_contains(
                g@,
                (#[trigger] names@[q])@,
            ) by {
                assert(nm_get(g@, names@[q]@) is Some);
            }
            lemma_distinct_names_bounded(names@, g@);
        }
        if all_names_placed(g, &placed) {
            let out_idx = match placed.get(output) {
                Some(q) => *q,
                None => {
                    proof {
                        // Every graph key is placed, so a missing output is
                        // missing from the graph itself.
                        if nm_contains(g@, output@) {
                            crate::named_map::lemma_nm_get_present(g@, output@);
                            let k = choose|k: int| 0 <= k < g@.len() && g@[k].0 == output@;
                            assert(nm_contains(placed@, g@[k].0));
                        }
                    }
                    return Err(NoiseError::MissingOutputNode(output.clone()));
                },
            };
            let ghost final_names = names@;
            proof {
                assert forall|q1: int, q2: int|
                    0 <= q1 < q2 < final_names.len() implies (#[trigger] final_names[q1])@ != (
                #[trigger] final_names[q2])@ by {
                    if final_names[q1]@ == final_names[q2]@ {
                        assert(names@.len() <= usize::MAX) by {
                            vstd::std_specs::vec::axiom_spec_len(&names);
                        }
                        assert(nm_get(placed@, (names@[q1])@) == Some(q1 as usize));
                        assert(nm_get(placed@, (names@[q2])@) == Some(q2 as usize));
                        assert(q1 as usize == q2 as usize);
                        assert(q1 == q2);
                    }
                }
                assert forall|k: int| 0 <= k < g@.len() implies exists|q: int|
                    0 <= q < final_names.len() && (#[trigger] final_names[q])@ == #[trigger] g@[
                    k].0 by {
                    assert(nm_contains(placed@, g@[k].0));
                    let t = nm_get(placed@, g@[k].0)->Some_0;
                    assert(final_names[t as int]@ == g@[k].0);
                }
            }
            let p = FlatGraph { names, nodes, output: out_idx };
            proof {
                assert(p.names@ == final_names);
            }
            return Ok(p);
        }
        if !progress {
            proof {
                // Nothing placeable remains while nodes are unplaced: on a
                // reference-closed, resolvable graph that certifies a cycle.
                assert(exists|k: int|
                    0 <= k < g@.len() && !nm_contains(placed@, (#[trigger] g@[k]).0));
                if flat_refs_ok(g@) {
                    lemma_stuck_implies_cycle(g@, placed@);
                }
            }
            return Err(NoiseError::CircularReference(first_unplaced_name(g, &placed)));
        }
    }
}

/// A resolved step has exactly one input index per reference of its
/// source node, each pointing at the step that carries the referenced
/// name.
pub proof fn lemma_resolved_refs_match(
    n: Node,
    pn: PlanNode,
    names: Seq<String>,
    pool: Seq<(Seq<char>, ConstantTypes)>,
    j: int,
)
    requires
        resolved_rel(n, pn, names, pool),
        0 <= j < node_refs(n).len(),
    ensures
        plan_refs(pn).len() == node_refs(n).len(),
        iref_ok(node_refs(n)[j], plan_refs(pn)[j], names),
{
}

/// The reference indices a resolution hands out are below the table's
/// length: they were looked up in the placement table.
proof fn lemma_resolved_refs_bounded(
    n: Node,
    pn: PlanNode,
    names: Seq<String>,
    pool: Seq<(Seq<char>, ConstantTypes)>,
    j: int,
)
    requires
        resolved_rel(n, pn, names, pool),
        0 <= j < plan_refs(pn).len(),
    ensures
        plan_refs(pn)[j] < names.len(),
{
}

} // verus!
