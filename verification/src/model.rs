use crate::constants::ConstantTypes;
use crate::named_map::{nm_unique_keys, NamedMap};
use vstd::prelude::*;

verus! {

/// A double-precision literal carried by its bit pattern, so that the
/// document model stays within exact integer arithmetic.
#[derive(Debug, Clone, Copy, PartialEq, Eq, Structural)]
pub struct ScalarBits {
    pub bits: u64,
}

/// A two-component vector of scalar literals, as a coordinate transform
/// uses it: one factor or offset per sampled axis.
#[derive(Debug, Clone, Copy, PartialEq, Eq, Structural)]
pub struct ScalarPair {
    pub x: ScalarBits,
    pub y: ScalarBits,
}

/// Either a literal of type `T` or a reference to a named constant of the
/// enclosing document's constant pool, resolved on demand.
#[derive(Debug, Clone, PartialEq)]
pub enum ConstantOrValue<T> {
    Constant(String),
    RawValue(T),
}

impl<T: Default> Default for ConstantOrValue<T> {
    /// An indirect value defaults to a literal of the type's default.
    fn default() -> (r: ConstantOrValue<T>)
        ensures
            r is RawValue,
    {
        ConstantOrValue::RawValue(T::default())
    }
}

/// Default number of octaves for the multi-octave syntheses.
pub const DEFAULT_OCTAVES: usize = 6;

/// Bit pattern of the default frequency, 2.0.
pub const DEFAULT_FREQUENCY_BITS: u64 = 0x4000_0000_0000_0000;

/// Bit pattern of the default lacunarity, pi * 2 / 3.
pub const DEFAULT_LACUNARITY_BITS: u64 = 0x4000_C152_382D_7365;

/// Bit pattern of the default persistence, 0.5.
pub const DEFAULT_PERSISTENCE_BITS: u64 = 0x3FE0_0000_0000_0000;

/// The parameters of the multi-octave noise syntheses (Fbm, Billow and
/// RidgedMulti).
#[derive(Debug, Clone, PartialEq)]
pub struct NoiseParameters {
    pub octaves: ConstantOrValue<usize>,
    pub frequency: ConstantOrValue<ScalarBits>,
    pub lacunarity: ConstantOrValue<ScalarBits>,
    pub persistence: ConstantOrValue<ScalarBits>,
}

impl Default for NoiseParameters {
    /// The conventional parameter set used when a document leaves the
    /// fields out.
    fn default() -> (r: NoiseParameters)
        ensures
            r == (NoiseParameters {
                octaves: ConstantOrValue::RawValue(DEFAULT_OCTAVES),
                frequency: ConstantOrValue::RawValue(ScalarBits { bits: DEFAULT_FREQUENCY_BITS }),
                lacunarity: ConstantOrValue::RawValue(
                    ScalarBits { bits: DEFAULT_LACUNARITY_BITS },
                ),
                persistence: ConstantOrValue::RawValue(
                    ScalarBits { bits: DEFAULT_PERSISTENCE_BITS },
                ),
            }),
    {
        NoiseParameters {
            octaves: ConstantOrValue::RawValue(DEFAULT_OCTAVES),
            frequency: ConstantOrValue::RawValue(ScalarBits { bits: DEFAULT_FREQUENCY_BITS }),
            lacunarity: ConstantOrValue::RawValue(ScalarBits { bits: DEFAULT_LACUNARITY_BITS }),
            persistence: ConstantOrValue::RawValue(ScalarBits { bits: DEFAULT_PERSISTENCE_BITS }),
        }
    }
}

/// Stateless scalar sources: a fixed value, a checkerboard, or one of the
/// seeded noise primitives.
#[derive(Debug, Clone, PartialEq)]
pub enum Generator {
    Constant { value: ConstantOrValue<ScalarBits> },
    Checkerboard,
    ImprovedPerlin { seed: ConstantOrValue<u64> },
    Perlin { seed: ConstantOrValue<u64> },
    Value { seed: ConstantOrValue<u64> },
    Simplex { seed: ConstantOrValue<u64> },
    Worley { seed: ConstantOrValue<u64> },
}

/// Unary transforms of one named input's output.
#[derive(Debug, Clone, PartialEq)]
pub enum Modifier {
    Fbm { input: String, parameters: NoiseParameters },
    RidgedMulti { input: String, parameters: NoiseParameters },
    Billow { input: String, parameters: NoiseParameters },
    Abs { input: String },
    Exp { input: String },
    Neg { input: String },
    Add { input: String, value: ConstantOrValue<ScalarBits> },
    Mul { input: String, value: ConstantOrValue<ScalarBits> },
    Clamp { input: String, min: ConstantOrValue<ScalarBits>, max: ConstantOrValue<ScalarBits> },
    Pow { input: String, exponent: ConstantOrValue<ScalarBits> },
}

/// Operations over two or three named inputs.
#[derive(Debug, Clone, PartialEq)]
pub enum Combiner {
    Blend { base: String, other: String, control: String },
    Max { base: String, other: String },
    Min { base: String, other: String },
    Power { base: String, exponent: String },
    Product { base: String, other: String },
    Sum { base: String, other: String },
    Select {
        base: String,
        other: String,
        control: String,
        lower_bound: ConstantOrValue<ScalarBits>,
        upper_bound: ConstantOrValue<ScalarBits>,
    },
}

/// Coordinate-space operations applied before delegating to an input.
#[derive(Debug, Clone, PartialEq)]
pub enum Transformer {
    Rotate { input: String, rotation: ConstantOrValue<ScalarBits> },
    Scale { input: String, scale: ConstantOrValue<ScalarPair> },
    Translate { input: String, translation: ConstantOrValue<ScalarPair> },
}

/// One operation of the graph, from one of the four families.
#[derive(Debug, Clone, PartialEq)]
pub enum Node {
    Generator(Generator),
    Modifier(Modifier),
    Combiner(Combiner),
    Transformer(Transformer),
}

/// A reusable subgraph: declared input slots, an optional declared output
/// slot, and an internal node mapping whose references resolve to other
/// internal nodes or to the declared inputs.
#[derive(Debug, Clone, PartialEq)]
pub struct NodeTemplate {
    pub name: String,
    pub inputs: Vec<String>,
    pub output: Option<String>,
    pub nodes: NamedMap<Node>,
}

/// A graph entry: a direct node, or an instantiation of a named template
/// binding the template's declared inputs to node names of the enclosing
/// graph.
#[derive(Debug, Clone, PartialEq)]
pub enum NodeInstance {
    Direct(Node),
    FromTemplate { template: String, inputs: NamedMap<String> },
}

/// The top-level document: named constants, a template library, a graph of
/// node instances, and the designated output node.
#[derive(Debug, Clone, PartialEq)]
pub struct NoiseMap {
    pub name: String,
    pub constants: NamedMap<ConstantTypes>,
    pub node_templates: NamedMap<NodeTemplate>,
    pub output: Option<String>,
    pub graph: NamedMap<NodeInstance>,
}

/// Structural well-formedness of a template: its name mapping has unique
/// keys.
pub open spec fn template_wf(t: NodeTemplate) -> bool {
    nm_unique_keys(t.nodes@)
}

/// Structural well-formedness of an instance: a template instantiation's
/// binding mapping has unique keys.
pub open spec fn instance_wf(inst: NodeInstance) -> bool {
    match inst {
        NodeInstance::Direct(_) => true,
        NodeInstance::FromTemplate { template: _, inputs } => nm_unique_keys(inputs@),
    }
}

/// Structural well-formedness of a document: every name mapping in it has
/// unique keys.  Every mapping built through `NamedMap` has this by
/// construction.
pub open spec fn noise_map_wf(m: NoiseMap) -> bool {
    &&& nm_unique_keys(m.constants@)
    &&& nm_unique_keys(m.node_templates@)
    &&& nm_unique_keys(m.graph@)
    &&& forall|i: int|
        0 <= i < m.node_templates@.len() ==> #[trigger] template_wf(m.node_templates@[i].1)
    &&& forall|i: int| 0 <= i < m.graph@.len() ==> #[trigger] instance_wf(m.graph@[i].1)
}

impl NoiseMap {
    /// Assembles a document from its parts.
    pub fn new(
        name: String,
        constants: NamedMap<ConstantTypes>,
        node_templates: NamedMap<NodeTemplate>,
        output: Option<String>,
        graph: NamedMap<NodeInstance>,
    ) -> (r: NoiseMap)
        ensures
            r == (NoiseMap { name, constants, node_templates, output, graph }),
    {
        NoiseMap { name, constants, node_templates, output, graph }
    }
}

} // verus!
