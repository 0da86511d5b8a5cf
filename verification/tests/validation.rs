use noise_graph::expand::expand;
use noise_graph::{
    Combiner, ConstantOrValue, ConstantTypes, Generator, Modifier, NamedMap, Node, NodeInstance,
    NodeTemplate, NoiseError, NoiseMap, NoiseParameters, ScalarBits,
};

fn s(t: &str) -> String {
    t.to_string()
}

fn sb(v: f64) -> ScalarBits {
    ScalarBits { bits: v.to_bits() }
}

fn raw(v: f64) -> ConstantOrValue<ScalarBits> {
    ConstantOrValue::RawValue(sb(v))
}

fn forest_parameters() -> NoiseParameters {
    NoiseParameters {
        octaves: ConstantOrValue::RawValue(6),
        frequency: raw(2.0),
        lacunarity: raw(2.0943951023931953),
        persistence: raw(0.5),
    }
}

/// The terrain document: constants, two templates, and a graph wiring a
/// base noise through both templates into a blend.
fn terrain_noise_map() -> NoiseMap {
    let mut constants: NamedMap<ConstantTypes> = NamedMap::new();
    constants.insert(s("MAIN_OCTAVES"), ConstantTypes::Usize(5));
    constants.insert(s("MAIN_FREQUENCY"), ConstantTypes::Float(2.5f64.to_bits()));
    constants.insert(s("TERRAIN_SEED"), ConstantTypes::UnsignedInt(1234567890));
    constants.insert(s("SCALE_FACTOR"), ConstantTypes::Float(3.0f64.to_bits()));

    let mut mountain_nodes: NamedMap<Node> = NamedMap::new();
    mountain_nodes.insert(
        s("mountain_power"),
        Node::Combiner(Combiner::Power {
            base: s("base_noise"),
            exponent: s("mountain_exponent"),
        }),
    );
    let mountain_template = NodeTemplate {
        name: s("MountainBase"),
        inputs: vec![s("base_noise"), s("mountain_exponent")],
        output: Some(s("mountain_power")),
        nodes: mountain_nodes,
    };

    let mut forest_nodes: NamedMap<Node> = NamedMap::new();
    forest_nodes.insert(
        s("forest_ridged"),
        Node::Modifier(Modifier::RidgedMulti {
            input: s("base_noise"),
            parameters: forest_parameters(),
        }),
    );
    let forest_template = NodeTemplate {
        name: s("ForestLayer"),
        inputs: vec![s("base_noise")],
        output: Some(s("forest_ridged")),
        nodes: forest_nodes,
    };

    let mut node_templates: NamedMap<NodeTemplate> = NamedMap::new();
    node_templates.insert(s("MountainBase"), mountain_template);
    node_templates.insert(s("ForestLayer"), forest_template);

    let mut graph: NamedMap<NodeInstance> = NamedMap::new();
    graph.insert(
        s("base_noise"),
        NodeInstance::Direct(Node::Generator(Generator::ImprovedPerlin {
            seed: ConstantOrValue::Constant(s("TERRAIN_SEED")),
        })),
    );
    graph.insert(
        s("mountain_exponent"),
        NodeInstance::Direct(Node::Generator(Generator::Constant { value: raw(2.0) })),
    );
    let mut mountain_inputs: NamedMap<String> = NamedMap::new();
    mountain_inputs.insert(s("base_noise"), s("base_noise"));
    mountain_inputs.insert(s("mountain_exponent"), s("mountain_exponent"));
    graph.insert(
        s("mountain_layer"),
        NodeInstance::FromTemplate {
            template: s("MountainBase"),
            inputs: mountain_inputs,
        },
    );
    let mut forest_inputs: NamedMap<String> = NamedMap::new();
    forest_inputs.insert(s("base_noise"), s("base_noise"));
    graph.insert(
        s("forest_layer"),
        NodeInstance::FromTemplate {
            template: s("ForestLayer"),
            inputs: forest_inputs,
        },
    );
    graph.insert(
        s("final_terrain"),
        NodeInstance::Direct(Node::Combiner(Combiner::Blend {
            base: s("mountain_layer"),
            other: s("forest_layer"),
            control: s("base_noise"),
        })),
    );

    NoiseMap::new(
        s("TerrainNoiseMap"),
        constants,
        node_templates,
        Some(s("final_terrain")),
        graph,
    )
}

#[test]
fn test_valid_noisemap() {
    let noise_map = terrain_noise_map();
    match noise_map.validate() {
        Ok(_) => (),
        Err(err) => {
            println!("Validation error: {:?}", err);
            panic!("Expected validation to succeed");
        }
    }
}

#[test]
fn test_invalid_constant_in_node() {
    let mut noise_map = terrain_noise_map();
    // Rewire a node to reference a non-existent constant.
    noise_map.graph.insert(
        s("base_noise"),
        NodeInstance::Direct(Node::Generator(Generator::ImprovedPerlin {
            seed: ConstantOrValue::Constant(s("INVALID_CONSTANT")),
        })),
    );
    assert!(noise_map.validate().is_err());
}

#[test]
fn test_invalid_node_template() {
    let mut noise_map = terrain_noise_map();
    // Rebuild the template library without MountainBase.
    let mut templates: NamedMap<NodeTemplate> = NamedMap::new();
    let forest = {
        let full = terrain_noise_map();
        full.node_templates
            .get(&s("ForestLayer"))
            .expect("template present")
            .clone()
    };
    templates.insert(s("ForestLayer"), forest);
    noise_map.node_templates = templates;
    assert!(noise_map.validate().is_err());
}

#[test]
fn unresolved_constant_is_named() {
    let mut noise_map = terrain_noise_map();
    noise_map.graph.insert(
        s("base_noise"),
        NodeInstance::Direct(Node::Generator(Generator::ImprovedPerlin {
            seed: ConstantOrValue::Constant(s("INVALID_CONSTANT")),
        })),
    );
    assert_eq!(
        noise_map.validate(),
        Err(NoiseError::UnresolvedConstant(s("INVALID_CONSTANT")))
    );
    assert!(matches!(
        noise_map.prepare(),
        Err(NoiseError::UnresolvedConstant(name)) if name == "INVALID_CONSTANT"
    ));
}

#[test]
fn extra_template_binding_is_refused() {
    let mut noise_map = terrain_noise_map();
    let mut inputs: NamedMap<String> = NamedMap::new();
    inputs.insert(s("base_noise"), s("base_noise"));
    inputs.insert(s("no_such_slot"), s("base_noise"));
    noise_map.graph.insert(
        s("forest_layer"),
        NodeInstance::FromTemplate {
            template: s("ForestLayer"),
            inputs,
        },
    );
    assert_eq!(
        noise_map.validate(),
        Err(NoiseError::InvalidTemplateInput(s("no_such_slot")))
    );
}

#[test]
fn missing_template_binding_is_refused() {
    let mut noise_map = terrain_noise_map();
    let mut inputs: NamedMap<String> = NamedMap::new();
    inputs.insert(s("base_noise"), s("base_noise"));
    noise_map.graph.insert(
        s("mountain_layer"),
        NodeInstance::FromTemplate {
            template: s("MountainBase"),
            inputs,
        },
    );
    assert_eq!(
        noise_map.validate(),
        Err(NoiseError::MissingTemplateInput(s("mountain_exponent")))
    );
}

#[test]
fn unknown_template_is_refused() {
    let mut noise_map = terrain_noise_map();
    let mut inputs: NamedMap<String> = NamedMap::new();
    inputs.insert(s("base_noise"), s("base_noise"));
    noise_map.graph.insert(
        s("forest_layer"),
        NodeInstance::FromTemplate {
            template: s("NoSuchTemplate"),
            inputs,
        },
    );
    assert_eq!(
        noise_map.validate(),
        Err(NoiseError::TemplateNotFound(s("NoSuchTemplate")))
    );
}

/// One generator, one modifier, a designated output.
fn small_map(output: &str) -> NoiseMap {
    let mut constants: NamedMap<ConstantTypes> = NamedMap::new();
    constants.insert(s("SEED"), ConstantTypes::UnsignedInt(7));
    let mut graph: NamedMap<NodeInstance> = NamedMap::new();
    graph.insert(
        s("base"),
        NodeInstance::Direct(Node::Generator(Generator::Perlin {
            seed: ConstantOrValue::Constant(s("SEED")),
        })),
    );
    graph.insert(
        s("result"),
        NodeInstance::Direct(Node::Modifier(Modifier::Abs { input: s("base") })),
    );
    NoiseMap::new(
        s("small"),
        constants,
        NamedMap::new(),
        Some(s(output)),
        graph,
    )
}

#[test]
fn missing_output_node_is_named() {
    let noise_map = small_map("missing");
    assert!(noise_map.validate().is_err());
    assert_eq!(
        noise_map.prepare().err(),
        Some(NoiseError::MissingOutputNode(s("missing")))
    );
}

#[test]
fn reference_cycle_is_refused() {
    let mut graph: NamedMap<NodeInstance> = NamedMap::new();
    graph.insert(
        s("a"),
        NodeInstance::Direct(Node::Modifier(Modifier::Neg { input: s("b") })),
    );
    graph.insert(
        s("b"),
        NodeInstance::Direct(Node::Modifier(Modifier::Neg { input: s("a") })),
    );
    let noise_map = NoiseMap::new(
        s("cycle"),
        NamedMap::new(),
        NamedMap::new(),
        Some(s("a")),
        graph,
    );
    // The references all resolve, so validation passes; preparation must
    // refuse the cycle rather than loop or overflow.
    assert!(noise_map.validate().is_ok());
    assert!(matches!(
        noise_map.prepare(),
        Err(NoiseError::CircularReference(_))
    ));
}

#[test]
fn expansion_of_flat_graph_is_identity() {
    let noise_map = small_map("result");
    let expanded = expand(&noise_map).expect("expansion succeeds");
    let mut expected: NamedMap<Node> = NamedMap::new();
    expected.insert(
        s("base"),
        Node::Generator(Generator::Perlin {
            seed: ConstantOrValue::Constant(s("SEED")),
        }),
    );
    expected.insert(s("result"), Node::Modifier(Modifier::Abs { input: s("base") }));
    assert_eq!(expanded, expected);
}

#[test]
fn expansion_namespaces_template_internals() {
    let noise_map = terrain_noise_map();
    let expanded = expand(&noise_map).expect("expansion succeeds");
    // The declared output slot's node carries the instantiation's own name;
    // there are no other internal nodes in these templates.
    assert!(expanded.get(&s("mountain_layer")).is_some());
    assert!(expanded.get(&s("forest_layer")).is_some());
    match expanded.get(&s("mountain_layer")) {
        Some(Node::Combiner(Combiner::Power { base, exponent })) => {
            assert_eq!(base, &s("base_noise"));
            assert_eq!(exponent, &s("mountain_exponent"));
        }
        other => panic!("unexpected expansion: {:?}", other),
    }
}

#[test]
fn clamp_bounds_are_checked_at_preparation() {
    let mut graph: NamedMap<NodeInstance> = NamedMap::new();
    graph.insert(
        s("base"),
        NodeInstance::Direct(Node::Generator(Generator::Perlin {
            seed: ConstantOrValue::RawValue(1),
        })),
    );
    graph.insert(
        s("result"),
        NodeInstance::Direct(Node::Modifier(Modifier::Clamp {
            input: s("base"),
            min: raw(1.0),
            max: raw(-1.0),
        })),
    );
    let noise_map = NoiseMap::new(
        s("badclamp"),
        NamedMap::new(),
        NamedMap::new(),
        Some(s("result")),
        graph,
    );
    assert!(noise_map.validate().is_ok());
    assert!(matches!(
        noise_map.prepare(),
        Err(NoiseError::InvalidConstantValue(_, _))
    ));
}

#[test]
fn non_finite_parameter_is_refused() {
    let mut graph: NamedMap<NodeInstance> = NamedMap::new();
    graph.insert(
        s("base"),
        NodeInstance::Direct(Node::Generator(Generator::Constant {
            value: raw(f64::NAN),
        })),
    );
    let noise_map = NoiseMap::new(
        s("nanconst"),
        NamedMap::new(),
        NamedMap::new(),
        Some(s("base")),
        graph,
    );
    assert!(noise_map.validate().is_ok());
    assert!(matches!(
        noise_map.prepare(),
        Err(NoiseError::InvalidConstantValue(_, _))
    ));
}

#[test]
fn dangling_reference_is_named() {
    let mut graph: NamedMap<NodeInstance> = NamedMap::new();
    graph.insert(
        s("result"),
        NodeInstance::Direct(Node::Modifier(Modifier::Abs {
            input: s("nowhere"),
        })),
    );
    let noise_map = NoiseMap::new(
        s("dangling"),
        NamedMap::new(),
        NamedMap::new(),
        Some(s("result")),
        graph,
    );
    assert_eq!(
        noise_map.validate(),
        Err(NoiseError::NodeNotFound(s("nowhere")))
    );
}

#[test]
fn template_output_slot_must_be_internal() {
    let mut tnodes: NamedMap<Node> = NamedMap::new();
    tnodes.insert(
        s("inner"),
        Node::Modifier(Modifier::Neg { input: s("slot") }),
    );
    let template = NodeTemplate {
        name: s("Broken"),
        inputs: vec![s("slot")],
        output: Some(s("no_such_node")),
        nodes: tnodes,
    };
    let mut templates: NamedMap<NodeTemplate> = NamedMap::new();
    templates.insert(s("Broken"), template);
    let mut graph: NamedMap<NodeInstance> = NamedMap::new();
    graph.insert(
        s("base"),
        NodeInstance::Direct(Node::Generator(Generator::Checkerboard)),
    );
    let noise_map = NoiseMap::new(
        s("brokentemplate"),
        NamedMap::new(),
        templates,
        Some(s("base")),
        graph,
    );
    assert_eq!(
        noise_map.validate(),
        Err(NoiseError::InvalidTemplateStructure(s("Broken")))
    );
}

#[test]
fn re_expanding_an_expansion_is_identity() {
    // Expansion leaves no template instantiation behind, so running the
    // expander over its own output changes nothing.
    let noise_map = terrain_noise_map();
    let flat = expand(&noise_map).expect("expansion succeeds");
    let mut wrapped: NamedMap<NodeInstance> = NamedMap::new();
    for i in 0..flat.len() {
        let entry = flat.entry_at(i);
        wrapped.insert(entry.0.clone(), NodeInstance::Direct(entry.1.clone()));
    }
    let rewrapped = NoiseMap::new(
        s("flattened"),
        noise_map.constants.clone(),
        NamedMap::new(),
        noise_map.output.clone(),
        wrapped,
    );
    let again = expand(&rewrapped).expect("expansion succeeds");
    assert_eq!(again, flat);
}

#[test]
fn indirect_values_default_to_literals() {
    let d: ConstantOrValue<u64> = Default::default();
    assert_eq!(d, ConstantOrValue::RawValue(0));
}
