use libnoise::Generator as LibnoiseGenerator;
use libnoise::Generator2D;
use noise_graph::engine::validate_flat_refs;
use noise_graph::eval::sample_plan;
use noise_graph::plan::{SourceKind, SynthKind};
use noise_graph::{
    Combiner, ConstantOrValue, ConstantTypes, Generator, Modifier, NamedMap, Node, NodeInstance,
    NodeTemplate, NoiseMap, NoiseParameters, ScalarBackend, ScalarBits, ScalarPair, Transformer,
};

fn s(t: &str) -> String {
    t.to_string()
}

fn sb(v: f64) -> ScalarBits {
    ScalarBits { bits: v.to_bits() }
}

fn raw(v: f64) -> ConstantOrValue<ScalarBits> {
    ConstantOrValue::RawValue(sb(v))
}

/// The arithmetic backend used by the real sampler: plain double
/// operations and the libnoise primitives.
struct LibnoiseBackend;

impl ScalarBackend for LibnoiseBackend {
    fn source_sample(&mut self, kind: &SourceKind, seed: u64, x: u64, y: u64) -> u64 {
        let p = [f64::from_bits(x), f64::from_bits(y)];
        let v = match kind {
            SourceKind::Perlin => libnoise::Source::<2>::perlin(seed).sample(p),
            SourceKind::ImprovedPerlin => libnoise::Source::<2>::improved_perlin(seed).sample(p),
            SourceKind::Value => libnoise::Source::<2>::value(seed).sample(p),
            SourceKind::Simplex => libnoise::Source::<2>::simplex(seed).sample(p),
            SourceKind::Worley => libnoise::Source::<2>::worley(seed).sample(p),
            SourceKind::Checkerboard => libnoise::Source::<2>::checkerboard().sample(p),
        };
        v.to_bits()
    }

    fn add_bits(&mut self, a: u64, b: u64) -> u64 {
        (f64::from_bits(a) + f64::from_bits(b)).to_bits()
    }

    fn mul_bits(&mut self, a: u64, b: u64) -> u64 {
        (f64::from_bits(a) * f64::from_bits(b)).to_bits()
    }

    fn div_bits(&mut self, a: u64, b: u64) -> u64 {
        (f64::from_bits(a) / f64::from_bits(b)).to_bits()
    }

    fn powf_bits(&mut self, a: u64, b: u64) -> u64 {
        f64::from_bits(a).powf(f64::from_bits(b)).to_bits()
    }

    fn powi_bits(&mut self, a: u64, e: i32) -> u64 {
        f64::from_bits(a).powi(e).to_bits()
    }

    fn exp_bits(&mut self, a: u64) -> u64 {
        f64::from_bits(a).exp().to_bits()
    }

    fn mul_add_bits(&mut self, a: u64, b: u64, c: u64) -> u64 {
        f64::from_bits(a)
            .mul_add(f64::from_bits(b), f64::from_bits(c))
            .to_bits()
    }

    fn sin_cos_bits(&mut self, a: u64) -> (u64, u64) {
        let v = f64::from_bits(a);
        (v.sin().to_bits(), v.cos().to_bits())
    }
}

/// Builds a template-free document with the given graph and output.
fn direct_map(entries: Vec<(&str, Node)>, output: &str) -> NoiseMap {
    let mut graph: NamedMap<NodeInstance> = NamedMap::new();
    for (name, node) in entries {
        graph.insert(s(name), NodeInstance::Direct(node));
    }
    let mut constants: NamedMap<ConstantTypes> = NamedMap::new();
    constants.insert(s("SEED"), ConstantTypes::UnsignedInt(7));
    NoiseMap::new(s("doc"), constants, NamedMap::new(), Some(s(output)), graph)
}

/// Prepares and samples a document at a coordinate.
fn sample(m: &NoiseMap, x: f64, y: f64) -> f64 {
    let plan = m.prepare().expect("preparation succeeds");
    let mut backend = LibnoiseBackend;
    f64::from_bits(sample_plan(&plan, &mut backend, x.to_bits(), y.to_bits()))
}

#[test]
fn abs_of_seeded_perlin_matches_primitive() {
    // constants = {SEED: uint 7}, graph = {base: Perlin(SEED), result:
    // Abs(base)}, output = result: the sample equals the absolute value of
    // the seeded primitive, bit for bit.
    let m = direct_map(
        vec![
            (
                "base",
                Node::Generator(Generator::Perlin {
                    seed: ConstantOrValue::Constant(s("SEED")),
                }),
            ),
            ("result", Node::Modifier(Modifier::Abs { input: s("base") })),
        ],
        "result",
    );
    assert!(m.validate().is_ok());
    let expected = libnoise::Source::<2>::perlin(7).sample([0.0, 0.0]).abs();
    let got = sample(&m, 0.0, 0.0);
    assert_eq!(got.to_bits(), expected.to_bits());
}

#[test]
fn sampling_is_deterministic() {
    let m = direct_map(
        vec![
            (
                "base",
                Node::Generator(Generator::Simplex {
                    seed: ConstantOrValue::RawValue(42),
                }),
            ),
            (
                "result",
                Node::Modifier(Modifier::Mul {
                    input: s("base"),
                    value: raw(3.5),
                }),
            ),
        ],
        "result",
    );
    let plan_a = m.prepare().expect("preparation succeeds");
    let plan_b = m.prepare().expect("preparation succeeds");
    assert_eq!(plan_a, plan_b);
    let mut backend = LibnoiseBackend;
    let one = sample_plan(&plan_a, &mut backend, 1.25f64.to_bits(), (-0.5f64).to_bits());
    let two = sample_plan(&plan_a, &mut backend, 1.25f64.to_bits(), (-0.5f64).to_bits());
    assert_eq!(one, two);
    let three = sample_plan(&plan_b, &mut backend, 1.25f64.to_bits(), (-0.5f64).to_bits());
    assert_eq!(one, three);
}

#[test]
fn samples_of_valid_documents_are_finite() {
    let m = direct_map(
        vec![
            (
                "base",
                Node::Generator(Generator::ImprovedPerlin {
                    seed: ConstantOrValue::RawValue(9),
                }),
            ),
            (
                "clamped",
                Node::Modifier(Modifier::Clamp {
                    input: s("base"),
                    min: raw(-0.5),
                    max: raw(0.5),
                }),
            ),
            (
                "result",
                Node::Modifier(Modifier::Add {
                    input: s("clamped"),
                    value: raw(1.0),
                }),
            ),
        ],
        "result",
    );
    for i in 0..16 {
        let x = i as f64 * 0.37;
        let y = i as f64 * -0.11;
        let v = sample(&m, x, y);
        assert!(v.is_finite());
    }
}

fn modifier_doc(md: Modifier) -> NoiseMap {
    direct_map(
        vec![
            (
                "base",
                Node::Generator(Generator::Perlin {
                    seed: ConstantOrValue::RawValue(5),
                }),
            ),
            ("result", Node::Modifier(md)),
        ],
        "result",
    )
}

#[test]
fn simple_modifiers_match_their_adapters() {
    let base = || libnoise::Source::<2>::perlin(5);
    let p = [0.4, -1.7];
    let cases: Vec<(Modifier, f64)> = vec![
        (Modifier::Abs { input: s("base") }, base().abs().sample(p)),
        (Modifier::Neg { input: s("base") }, base().neg().sample(p)),
        (Modifier::Exp { input: s("base") }, base().exp().sample(p)),
        (
            Modifier::Add {
                input: s("base"),
                value: raw(0.75),
            },
            base().add(0.75).sample(p),
        ),
        (
            Modifier::Mul {
                input: s("base"),
                value: raw(-2.5),
            },
            base().mul(-2.5).sample(p),
        ),
        (
            Modifier::Clamp {
                input: s("base"),
                min: raw(-0.25),
                max: raw(0.25),
            },
            base().clamp(-0.25, 0.25).sample(p),
        ),
        (
            Modifier::Pow {
                input: s("base"),
                exponent: raw(2.0),
            },
            base().powf(2.0).sample(p),
        ),
    ];
    for (md, expected) in cases {
        let m = modifier_doc(md);
        let got = sample(&m, p[0], p[1]);
        assert_eq!(got.to_bits(), expected.to_bits());
    }
}

#[test]
fn octave_syntheses_match_their_adapters() {
    let base = || libnoise::Source::<2>::perlin(11);
    let p = [0.9, 0.35];
    let doc2 = |synth: SynthKind, octaves: usize| {
        let parameters = NoiseParameters {
            octaves: ConstantOrValue::RawValue(octaves),
            frequency: raw(1.5),
            lacunarity: raw(2.0),
            persistence: raw(0.6),
        };
        let md = match synth {
            SynthKind::Fbm => Modifier::Fbm {
                input: s("base"),
                parameters,
            },
            SynthKind::Billow => Modifier::Billow {
                input: s("base"),
                parameters,
            },
            SynthKind::RidgedMulti => Modifier::RidgedMulti {
                input: s("base"),
                parameters,
            },
        };
        direct_map(
            vec![
                (
                    "base",
                    Node::Generator(Generator::Perlin {
                        seed: ConstantOrValue::RawValue(11),
                    }),
                ),
                ("result", Node::Modifier(md)),
            ],
            "result",
        )
    };
    let one = sample(&doc2(SynthKind::Fbm, 1), p[0], p[1]);
    assert_eq!(
        one.to_bits(),
        base().fbm(1, 1.5, 2.0, 0.6).sample(p).to_bits()
    );
    let doc = |synth: SynthKind| doc2(synth, 4);
    let fbm = sample(&doc(SynthKind::Fbm), p[0], p[1]);
    assert_eq!(
        fbm.to_bits(),
        base().fbm(4, 1.5, 2.0, 0.6).sample(p).to_bits()
    );
    let billow = sample(&doc(SynthKind::Billow), p[0], p[1]);
    assert_eq!(
        billow.to_bits(),
        base().billow(4, 1.5, 2.0, 0.6).sample(p).to_bits()
    );
    let ridged = sample(&doc(SynthKind::RidgedMulti), p[0], p[1]);
    assert_eq!(
        ridged.to_bits(),
        base().ridgedmulti(4, 1.5, 2.0, 0.6).sample(p).to_bits()
    );
}

fn combiner_doc(c: Combiner) -> NoiseMap {
    direct_map(
        vec![
            (
                "a",
                Node::Generator(Generator::Perlin {
                    seed: ConstantOrValue::RawValue(1),
                }),
            ),
            (
                "b",
                Node::Generator(Generator::Simplex {
                    seed: ConstantOrValue::RawValue(2),
                }),
            ),
            (
                "c",
                Node::Generator(Generator::Value {
                    seed: ConstantOrValue::RawValue(3),
                }),
            ),
            ("result", Node::Combiner(c)),
        ],
        "result",
    )
}

#[test]
fn combiners_match_their_adapters() {
    let ga = || libnoise::Source::<2>::perlin(1);
    let gb = || libnoise::Source::<2>::simplex(2);
    let gc = || libnoise::Source::<2>::value(3);
    let p = [-0.6, 2.2];
    let cases: Vec<(Combiner, f64)> = vec![
        (
            Combiner::Max {
                base: s("a"),
                other: s("b"),
            },
            ga().max(gb()).sample(p),
        ),
        (
            Combiner::Min {
                base: s("a"),
                other: s("b"),
            },
            ga().min(gb()).sample(p),
        ),
        (
            Combiner::Sum {
                base: s("a"),
                other: s("b"),
            },
            ga().sum(gb()).sample(p),
        ),
        (
            Combiner::Product {
                base: s("a"),
                other: s("b"),
            },
            ga().product(gb()).sample(p),
        ),
        (
            Combiner::Power {
                base: s("a"),
                exponent: s("b"),
            },
            ga().power(gb()).sample(p),
        ),
        (
            Combiner::Blend {
                base: s("a"),
                other: s("b"),
                control: s("c"),
            },
            ga().blend(gb(), gc()).sample(p),
        ),
        (
            Combiner::Select {
                base: s("a"),
                other: s("b"),
                control: s("c"),
                lower_bound: raw(-0.2),
                upper_bound: raw(0.4),
            },
            ga().select(gb(), gc(), -0.2, 0.4).sample(p),
        ),
    ];
    for (c, expected) in cases {
        let m = combiner_doc(c);
        let got = sample(&m, p[0], p[1]);
        assert_eq!(got.to_bits(), expected.to_bits());
    }
}

#[test]
fn transformers_match_their_adapters() {
    let base = || libnoise::Source::<2>::perlin(21);
    let p = [1.1, -0.8];
    let scale = direct_map(
        vec![
            (
                "base",
                Node::Generator(Generator::Perlin {
                    seed: ConstantOrValue::RawValue(21),
                }),
            ),
            (
                "result",
                Node::Transformer(Transformer::Scale {
                    input: s("base"),
                    scale: ConstantOrValue::RawValue(ScalarPair {
                        x: sb(0.5),
                        y: sb(3.0),
                    }),
                }),
            ),
        ],
        "result",
    );
    assert_eq!(
        sample(&scale, p[0], p[1]).to_bits(),
        base().scale([0.5, 3.0]).sample(p).to_bits()
    );
    let translate = direct_map(
        vec![
            (
                "base",
                Node::Generator(Generator::Perlin {
                    seed: ConstantOrValue::RawValue(21),
                }),
            ),
            (
                "result",
                Node::Transformer(Transformer::Translate {
                    input: s("base"),
                    translation: ConstantOrValue::RawValue(ScalarPair {
                        x: sb(-1.5),
                        y: sb(0.25),
                    }),
                }),
            ),
        ],
        "result",
    );
    assert_eq!(
        sample(&translate, p[0], p[1]).to_bits(),
        base().translate([-1.5, 0.25]).sample(p).to_bits()
    );
    let rotate = direct_map(
        vec![
            (
                "base",
                Node::Generator(Generator::Perlin {
                    seed: ConstantOrValue::RawValue(21),
                }),
            ),
            (
                "result",
                Node::Transformer(Transformer::Rotate {
                    input: s("base"),
                    rotation: raw(0.7),
                }),
            ),
        ],
        "result",
    );
    assert_eq!(
        sample(&rotate, p[0], p[1]).to_bits(),
        base().rotate([0.7]).sample(p).to_bits()
    );
}

#[test]
fn template_expansion_samples_like_the_written_out_graph() {
    // A Power template instantiated over two generators samples exactly as
    // the same operations written out directly.
    let mut tnodes: NamedMap<Node> = NamedMap::new();
    tnodes.insert(
        s("powered"),
        Node::Combiner(Combiner::Power {
            base: s("lhs"),
            exponent: s("rhs"),
        }),
    );
    let template = NodeTemplate {
        name: s("Powered"),
        inputs: vec![s("lhs"), s("rhs")],
        output: Some(s("powered")),
        nodes: tnodes,
    };
    let mut templates: NamedMap<NodeTemplate> = NamedMap::new();
    templates.insert(s("Powered"), template);
    let mut graph: NamedMap<NodeInstance> = NamedMap::new();
    graph.insert(
        s("a"),
        NodeInstance::Direct(Node::Generator(Generator::Perlin {
            seed: ConstantOrValue::RawValue(1),
        })),
    );
    graph.insert(
        s("b"),
        NodeInstance::Direct(Node::Generator(Generator::Simplex {
            seed: ConstantOrValue::RawValue(2),
        })),
    );
    let mut inputs: NamedMap<String> = NamedMap::new();
    inputs.insert(s("lhs"), s("a"));
    inputs.insert(s("rhs"), s("b"));
    graph.insert(
        s("result"),
        NodeInstance::FromTemplate {
            template: s("Powered"),
            inputs,
        },
    );
    let templated = NoiseMap::new(
        s("templated"),
        NamedMap::new(),
        templates,
        Some(s("result")),
        graph,
    );
    let direct = direct_map(
        vec![
            (
                "a",
                Node::Generator(Generator::Perlin {
                    seed: ConstantOrValue::RawValue(1),
                }),
            ),
            (
                "b",
                Node::Generator(Generator::Simplex {
                    seed: ConstantOrValue::RawValue(2),
                }),
            ),
            (
                "result",
                Node::Combiner(Combiner::Power {
                    base: s("a"),
                    exponent: s("b"),
                }),
            ),
        ],
        "result",
    );
    let p = [0.33, 0.77];
    assert_eq!(
        sample(&templated, p[0], p[1]).to_bits(),
        sample(&direct, p[0], p[1]).to_bits()
    );
}

#[test]
fn flat_reference_check_accepts_prepared_graphs() {
    let m = direct_map(
        vec![
            (
                "base",
                Node::Generator(Generator::Perlin {
                    seed: ConstantOrValue::RawValue(4),
                }),
            ),
            ("result", Node::Modifier(Modifier::Neg { input: s("base") })),
        ],
        "result",
    );
    let flat = noise_graph::expand::expand(&m).expect("expansion succeeds");
    assert!(validate_flat_refs(&flat).is_ok());
}

#[test]
fn every_source_kind_matches_its_primitive() {
    let p = [0.21, -0.48];
    let cases: Vec<(Generator, f64)> = vec![
        (
            Generator::Perlin {
                seed: ConstantOrValue::RawValue(31),
            },
            libnoise::Source::<2>::perlin(31).sample(p),
        ),
        (
            Generator::ImprovedPerlin {
                seed: ConstantOrValue::RawValue(32),
            },
            libnoise::Source::<2>::improved_perlin(32).sample(p),
        ),
        (
            Generator::Value {
                seed: ConstantOrValue::RawValue(33),
            },
            libnoise::Source::<2>::value(33).sample(p),
        ),
        (
            Generator::Simplex {
                seed: ConstantOrValue::RawValue(34),
            },
            libnoise::Source::<2>::simplex(34).sample(p),
        ),
        (
            Generator::Worley {
                seed: ConstantOrValue::RawValue(35),
            },
            libnoise::Source::<2>::worley(35).sample(p),
        ),
        (
            Generator::Checkerboard,
            libnoise::Source::<2>::checkerboard().sample(p),
        ),
        (
            Generator::Constant { value: raw(0.625) },
            0.625,
        ),
    ];
    for (g, expected) in cases {
        let m = direct_map(vec![("result", Node::Generator(g))], "result");
        let got = sample(&m, p[0], p[1]);
        assert_eq!(got.to_bits(), expected.to_bits());
    }
}

#[test]
fn parameters_resolve_through_the_constant_pool() {
    // The seed comes from an unsigned constant, the offset from a float
    // constant, and the octave count from an index constant.
    let mut constants: NamedMap<ConstantTypes> = NamedMap::new();
    constants.insert(s("SEED"), ConstantTypes::Int(19));
    constants.insert(s("OFFSET"), ConstantTypes::Float(0.125f64.to_bits()));
    constants.insert(s("OCTAVES"), ConstantTypes::Usize(3));
    let mut graph: NamedMap<NodeInstance> = NamedMap::new();
    graph.insert(
        s("base"),
        NodeInstance::Direct(Node::Generator(Generator::Perlin {
            seed: ConstantOrValue::Constant(s("SEED")),
        })),
    );
    graph.insert(
        s("layered"),
        NodeInstance::Direct(Node::Modifier(Modifier::Fbm {
            input: s("base"),
            parameters: NoiseParameters {
                octaves: ConstantOrValue::Constant(s("OCTAVES")),
                frequency: raw(1.25),
                lacunarity: raw(2.0),
                persistence: raw(0.5),
            },
        })),
    );
    graph.insert(
        s("result"),
        NodeInstance::Direct(Node::Modifier(Modifier::Add {
            input: s("layered"),
            value: ConstantOrValue::Constant(s("OFFSET")),
        })),
    );
    let m = NoiseMap::new(s("pool"), constants, NamedMap::new(), Some(s("result")), graph);
    let p = [0.6, 0.15];
    let expected = libnoise::Source::<2>::perlin(19)
        .fbm(3, 1.25, 2.0, 0.5)
        .add(0.125)
        .sample(p);
    assert_eq!(sample(&m, p[0], p[1]).to_bits(), expected.to_bits());
}

#[test]
fn flat_reference_check_names_dangling_references() {
    let mut flat: NamedMap<Node> = NamedMap::new();
    flat.insert(
        s("result"),
        Node::Modifier(Modifier::Neg { input: s("gone") }),
    );
    assert!(matches!(
        validate_flat_refs(&flat),
        Err(noise_graph::NoiseError::NodeNotFound(name)) if name == "gone"
    ));
}

#[test]
fn template_internal_chains_are_namespaced_and_rewired() {
    // A template with two internal nodes: the first reads the bound slot,
    // the second reads the first, and the second is the declared output.
    let mut tnodes: NamedMap<Node> = NamedMap::new();
    tnodes.insert(
        s("lifted"),
        Node::Modifier(Modifier::Add {
            input: s("source"),
            value: raw(1.0),
        }),
    );
    tnodes.insert(
        s("scaled"),
        Node::Modifier(Modifier::Mul {
            input: s("lifted"),
            value: raw(3.0),
        }),
    );
    let template = NodeTemplate {
        name: s("LiftScale"),
        inputs: vec![s("source")],
        output: Some(s("scaled")),
        nodes: tnodes,
    };
    let mut templates: NamedMap<NodeTemplate> = NamedMap::new();
    templates.insert(s("LiftScale"), template);
    let mut graph: NamedMap<NodeInstance> = NamedMap::new();
    graph.insert(
        s("base"),
        NodeInstance::Direct(Node::Generator(Generator::Perlin {
            seed: ConstantOrValue::RawValue(8),
        })),
    );
    let mut inputs: NamedMap<String> = NamedMap::new();
    inputs.insert(s("source"), s("base"));
    graph.insert(
        s("shaped"),
        NodeInstance::FromTemplate {
            template: s("LiftScale"),
            inputs,
        },
    );
    let m = NoiseMap::new(s("chain"), NamedMap::new(), templates, Some(s("shaped")), graph);
    // The non-output internal node lands under a name prefixed with the
    // instantiation's; the output node carries the instantiation's name.
    let flat = noise_graph::expand::expand(&m).expect("expansion succeeds");
    assert!(flat.get(&s("shaped::lifted")).is_some());
    assert!(flat.get(&s("shaped")).is_some());
    let p = [0.27, -0.66];
    let expected = libnoise::Source::<2>::perlin(8).add(1.0).mul(3.0).sample(p);
    assert_eq!(sample(&m, p[0], p[1]).to_bits(), expected.to_bits());
}

#[test]
fn instances_can_bind_other_instances() {
    // One instantiation's bound node is itself an instantiation: the
    // binding resolves to that instantiation's output node.
    let mut tnodes: NamedMap<Node> = NamedMap::new();
    tnodes.insert(
        s("twice"),
        Node::Modifier(Modifier::Mul {
            input: s("fed"),
            value: raw(2.0),
        }),
    );
    let template = NodeTemplate {
        name: s("Doubler"),
        inputs: vec![s("fed")],
        output: Some(s("twice")),
        nodes: tnodes,
    };
    let mut templates: NamedMap<NodeTemplate> = NamedMap::new();
    templates.insert(s("Doubler"), template);
    let mut graph: NamedMap<NodeInstance> = NamedMap::new();
    graph.insert(
        s("base"),
        NodeInstance::Direct(Node::Generator(Generator::Perlin {
            seed: ConstantOrValue::RawValue(14),
        })),
    );
    let mut first_inputs: NamedMap<String> = NamedMap::new();
    first_inputs.insert(s("fed"), s("base"));
    graph.insert(
        s("inner"),
        NodeInstance::FromTemplate {
            template: s("Doubler"),
            inputs: first_inputs,
        },
    );
    let mut second_inputs: NamedMap<String> = NamedMap::new();
    second_inputs.insert(s("fed"), s("inner"));
    graph.insert(
        s("outer"),
        NodeInstance::FromTemplate {
            template: s("Doubler"),
            inputs: second_inputs,
        },
    );
    let m = NoiseMap::new(s("nested"), NamedMap::new(), templates, Some(s("outer")), graph);
    let p = [1.6, 0.05];
    let expected = libnoise::Source::<2>::perlin(14).mul(2.0).mul(2.0).sample(p);
    assert_eq!(sample(&m, p[0], p[1]).to_bits(), expected.to_bits());
}

#[test]
fn constant_output_samples_to_its_own_bits() {
    // A constant output step yields exactly its resolved bits, whatever
    // the backend computes.
    let m = direct_map(
        vec![(
            "result",
            Node::Generator(Generator::Constant { value: raw(0.8125) }),
        )],
        "result",
    );
    for (x, y) in [(0.0, 0.0), (3.5, -2.0), (1e6, 1e-6)] {
        assert_eq!(sample(&m, x, y).to_bits(), 0.8125f64.to_bits());
    }
}

#[test]
fn fractional_seed_constants_truncate() {
    // A float constant used as a seed truncates toward zero, as the
    // host's cast does: seed 2.9 drives the primitive seeded with 2.
    let mut constants: NamedMap<ConstantTypes> = NamedMap::new();
    constants.insert(s("S"), ConstantTypes::Float(2.9f64.to_bits()));
    let mut graph: NamedMap<NodeInstance> = NamedMap::new();
    graph.insert(
        s("base"),
        NodeInstance::Direct(Node::Generator(Generator::Perlin {
            seed: ConstantOrValue::Constant(s("S")),
        })),
    );
    let m = NoiseMap::new(s("truncseed"), constants, NamedMap::new(), Some(s("base")), graph);
    let p = [0.3, 0.7];
    let expected = libnoise::Source::<2>::perlin(2).sample(p);
    assert_eq!(sample(&m, p[0], p[1]).to_bits(), expected.to_bits());
}
