pub mod constants;
pub mod copy;
pub mod engine;
pub mod errors;
pub mod eval;
pub mod expand;
pub mod laws;
pub mod model;
pub mod named_map;
pub mod noise_types;
pub mod plan;
pub mod scalar;
pub mod validate;
pub mod world;

pub use constants::ConstantTypes;
pub use errors::NoiseError;
pub use eval::ScalarBackend;
pub use model::{
    Combiner, ConstantOrValue, Generator, Modifier, Node, NodeInstance, NodeTemplate, NoiseMap,
    NoiseParameters, ScalarBits, ScalarPair, Transformer,
};
pub use named_map::NamedMap;
pub use noise_types::{
    default_octaves, NoiseConfig, NoiseConfigDescriptor, NoiseType, ReturnType, Seed,
};
pub use plan::FlatGraph;
pub use world::{Coordinates, Tile};
