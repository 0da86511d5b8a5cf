use crate::errors::NoiseError;
use crate::model::{
    ScalarBits, DEFAULT_FREQUENCY_BITS, DEFAULT_LACUNARITY_BITS, DEFAULT_OCTAVES,
    DEFAULT_PERSISTENCE_BITS,
};
use vstd::prelude::*;
use vstd::string::StringExecFns;

verus! {

// The stand-alone noise configuration: one named primitive with its
// parameters, read from a small descriptor document.  An unknown variant
// name is a recoverable error, never an abort.
/// The seed of a stand-alone noise primitive.
#[derive(Debug, Clone, Copy, PartialEq, Eq, Structural)]
pub struct Seed {
    pub seed: u32,
}

impl Default for Seed {
    /// The default seed, zero.
    fn default() -> (r: Seed)
        ensures
            r == (Seed { seed: 0u32 }),
    {
        Seed { seed: 0 }
    }
}

/// What a cellular primitive reports: the distance to the nearest point,
/// or that point's value.
#[derive(Debug, Clone, Copy, PartialEq, Eq, Structural)]
pub enum ReturnType {
    Distance,
    Value,
}

impl Default for ReturnType {
    /// The default report, the distance.
    fn default() -> (r: ReturnType)
        ensures
            r == ReturnType::Distance,
    {
        ReturnType::Distance
    }
}

/// The parameter block of the multi-octave stand-alone primitives.
#[derive(Debug, Clone, Copy, PartialEq, Eq, Structural)]
pub struct FbmFields {
    pub octaves: usize,
    pub frequency: ScalarBits,
    pub lacunarity: ScalarBits,
    pub persistence: ScalarBits,
}

/// A stand-alone noise primitive with its parameters.
#[derive(Debug, Clone, Copy, PartialEq, Eq, Structural)]
pub enum NoiseType {
    Perlin(Seed),
    OpenSimplex(Seed),
    SuperSimplex(Seed),
    Value(Seed),
    Worley { return_type: ReturnType, frequency: ScalarBits },
    Fbm(FbmFields),
    Billow(FbmFields),
    HybridMulti(FbmFields),
}

impl Default for NoiseType {
    /// The default primitive: Perlin noise with the default seed.
    fn default() -> (r: NoiseType)
        ensures
            r == NoiseType::Perlin(Seed { seed: 0u32 }),
    {
        NoiseType::Perlin(Seed { seed: 0 })
    }
}

/// Default octave count used when a descriptor leaves it out.
pub fn default_octaves() -> (r: usize)
    ensures
        r == DEFAULT_OCTAVES,
{
    DEFAULT_OCTAVES
}

/// Default frequency bits used when a descriptor leaves it out.
pub fn default_frequency_bits() -> (r: ScalarBits)
    ensures
        r == (ScalarBits { bits: DEFAULT_FREQUENCY_BITS }),
{
    ScalarBits { bits: DEFAULT_FREQUENCY_BITS }
}

/// Default lacunarity bits used when a descriptor leaves it out.
pub fn default_lacunarity_bits() -> (r: ScalarBits)
    ensures
        r == (ScalarBits { bits: DEFAULT_LACUNARITY_BITS }),
{
    ScalarBits { bits: DEFAULT_LACUNARITY_BITS }
}

/// Default persistence bits used when a descriptor leaves it out.
pub fn default_persistence_bits() -> (r: ScalarBits)
    ensures
        r == (ScalarBits { bits: DEFAULT_PERSISTENCE_BITS }),
{
    ScalarBits { bits: DEFAULT_PERSISTENCE_BITS }
}

/// A parsed noise configuration: a name and a primitive.
#[derive(Debug, Clone, PartialEq)]
pub struct NoiseConfig {
    pub name: String,
    pub noise_type: NoiseType,
}

/// The flat shape a configuration document carries before its variant
/// name is interpreted.
#[derive(Debug, Clone, PartialEq)]
pub struct NoiseConfigDescriptor {
    pub name: String,
    pub variant: String,
    pub seed: Option<Seed>,
    pub return_type: Option<ReturnType>,
    pub lacunarity: Option<ScalarBits>,
    pub octaves: Option<usize>,
    pub frequency: Option<ScalarBits>,
    pub persistence: Option<ScalarBits>,
}

/// The seed a descriptor provides, or the default.
pub open spec fn seed_or_default(s: Option<Seed>) -> Seed {
    match s {
        Some(v) => v,
        None => Seed { seed: 0u32 },
    }
}

/// The octave block a descriptor provides, fields defaulted one by one.
pub open spec fn fields_or_default(d: NoiseConfigDescriptor) -> FbmFields {
    FbmFields {
        octaves: match d.octaves {
            Some(o) => o,
            None => DEFAULT_OCTAVES,
        },
        frequency: match d.frequency {
            Some(f) => f,
            None => ScalarBits { bits: DEFAULT_FREQUENCY_BITS },
        },
        lacunarity: match d.lacunarity {
            Some(l) => l,
            None => ScalarBits { bits: DEFAULT_LACUNARITY_BITS },
        },
        persistence: match d.persistence {
            Some(p) => p,
            None => ScalarBits { bits: DEFAULT_PERSISTENCE_BITS },
        },
    }
}

/// The primitive a descriptor's variant name selects, if the name is
/// known.
pub open spec fn descriptor_noise_type(d: NoiseConfigDescriptor) -> Option<NoiseType> {
    if d.variant@ == "Perlin"@ {
        Some(NoiseType::Perlin(seed_or_default(d.seed)))
    } else if d.variant@ == "OpenSimplex"@ {
        Some(NoiseType::OpenSimplex(seed_or_default(d.seed)))
    } else if d.variant@ == "SuperSimplex"@ {
        Some(NoiseType::SuperSimplex(seed_or_default(d.seed)))
    } else if d.variant@ == "Value"@ {
        Some(NoiseType::Value(seed_or_default(d.seed)))
    } else if d.variant@ == "Worley"@ {
        Some(
            NoiseType::Worley {
                return_type: match d.return_type {
                    Some(rt) => rt,
                    None => ReturnType::Distance,
                },
                frequency: match d.frequency {
                    Some(f) => f,
                    None => ScalarBits { bits: DEFAULT_FREQUENCY_BITS },
                },
            },
        )
    } else if d.variant@ == "Fbm"@ {
        Some(NoiseType::Fbm(fields_or_default(d)))
    } else if d.variant@ == "Billow"@ {
        Some(NoiseType::Billow(fields_or_default(d)))
    } else if d.variant@ == "HybridMulti"@ {
        Some(NoiseType::HybridMulti(fields_or_default(d)))
    } else {
        None
    }
}

/// Whether a name reads as the given literal.
fn str_is(a: &String, b: &str) -> (r: bool)
    ensures
        r == (a@ == b@),
{
    a.eq(&b.to_owned())
}

/// The seed a descriptor provides, or the default.
fn take_seed(d: &NoiseConfigDescriptor) -> (r: Seed)
    ensures
        r == seed_or_default(d.seed),
{
    match d.seed {
        Some(v) => v,
        None => Seed { seed: 0 },
    }
}

/// The octave block a descriptor provides, fields defaulted one by one.
fn take_fields(d: &NoiseConfigDescriptor) -> (r: FbmFields)
    ensures
        r == fields_or_default(*d),
{
    FbmFields {
        octaves: match d.octaves {
            Some(o) => o,
            None => DEFAULT_OCTAVES,
        },
        frequency: match d.frequency {
            Some(f) => f,
            None => ScalarBits { bits: DEFAULT_FREQUENCY_BITS },
        },
        lacunarity: match d.lacunarity {
            Some(l) => l,
            None => ScalarBits { bits: DEFAULT_LACUNARITY_BITS },
        },
        persistence: match d.persistence {
            Some(p) => p,
            None => ScalarBits { bits: DEFAULT_PERSISTENCE_BITS },
        },
    }
}

impl NoiseConfig {
    /// Interprets a descriptor: the variant name selects the primitive,
    /// absent parameters take their defaults, and an unknown variant name
    /// is reported as an invalid definition rather than aborting.
    pub fn from_descriptor(d: &NoiseConfigDescriptor) -> (r: Result<NoiseConfig, NoiseError>)
        ensures
            match r {
                Ok(c) => c.name@ == d.name@ && descriptor_noise_type(*d) == Some(c.noise_type),
                Err(e) => descriptor_noise_type(*d) is None && (e matches
                    NoiseError::InvalidNodeDefinition(v) && v@ == d.variant@),
            },
    {
        let noise_type = if str_is(&d.variant, "Perlin") {
            NoiseType::Perlin(take_seed(d))
        } else if str_is(&d.variant, "OpenSimplex") {
            NoiseType::OpenSimplex(take_seed(d))
        } else if str_is(&d.variant, "SuperSimplex") {
            NoiseType::SuperSimplex(take_seed(d))
        } else if str_is(&d.variant, "Value") {
            NoiseType::Value(take_seed(d))
        } else if str_is(&d.variant, "Worley") {
            NoiseType::Worley {
                return_type: match d.return_type {
                    Some(rt) => rt,
                    None => ReturnType::Distance,
                },
                frequency: match d.frequency {
                    Some(f) => f,
                    None => ScalarBits { bits: DEFAULT_FREQUENCY_BITS },
                },
            }
        } else if str_is(&d.variant, "Fbm") {
            NoiseType::Fbm(take_fields(d))
        } else if str_is(&d.variant, "Billow") {
            NoiseType::Billow(take_fields(d))
        } else if str_is(&d.variant, "HybridMulti") {
            NoiseType::HybridMulti(take_fields(d))
        } else {
            return Err(NoiseError::InvalidNodeDefinition(d.variant.clone()));
        };
        Ok(NoiseConfig { name: d.name.clone(), noise_type })
    }
}

} // verus!
