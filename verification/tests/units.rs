use noise_graph::noise_types::{default_frequency_bits, default_persistence_bits};
use noise_graph::scalar::{
    abs_bits, bits_to_floor_mag, int_to_bits, is_finite_bits, is_nan_bits, le_bits, neg_bits,
    uint_to_bits,
};
use noise_graph::world::uint_to_string;
use noise_graph::{
    default_octaves, ConstantTypes, Coordinates, NamedMap, NoiseConfig, NoiseConfigDescriptor,
    NoiseError, NoiseType, ReturnType, ScalarBits, Seed, Tile,
};

fn s(t: &str) -> String {
    t.to_string()
}

#[test]
fn scalar_predicates_match_std_classification() {
    let values = [
        0.0f64,
        -0.0,
        1.0,
        -1.5,
        f64::MIN_POSITIVE,
        f64::MAX,
        f64::INFINITY,
        f64::NEG_INFINITY,
        f64::NAN,
        5e-324,
    ];
    for v in values {
        let b = v.to_bits();
        assert_eq!(is_nan_bits(b), v.is_nan(), "nan of {v}");
        assert_eq!(is_finite_bits(b), v.is_finite(), "finite of {v}");
        assert_eq!(abs_bits(b), v.abs().to_bits(), "abs of {v}");
        assert_eq!(neg_bits(b), (-v).to_bits(), "neg of {v}");
    }
}

#[test]
fn scalar_order_matches_std_comparison() {
    let values = [
        0.0f64,
        -0.0,
        1.0,
        -1.0,
        2.5,
        -2.5,
        f64::MIN_POSITIVE,
        f64::MAX,
        f64::INFINITY,
        f64::NEG_INFINITY,
        f64::NAN,
    ];
    for a in values {
        for b in values {
            assert_eq!(
                le_bits(a.to_bits(), b.to_bits()),
                a <= b,
                "comparing {a} <= {b}"
            );
        }
    }
}

#[test]
fn integer_encoding_matches_std_casts() {
    for n in [0u64, 1, 2, 7, 10, 255, 4096, 1234567890, (1u64 << 53) - 1] {
        assert_eq!(uint_to_bits(n), (n as f64).to_bits(), "encoding {n}");
    }
    for i in [0i32, 1, -1, 17, -123456, i32::MAX, i32::MIN] {
        assert_eq!(int_to_bits(i), (i as f64).to_bits(), "encoding {i}");
    }
}

#[test]
fn floor_magnitude_matches_the_saturating_cast() {
    let values = [
        0.0f64,
        0.25,
        0.999,
        1.0,
        2.5,
        7.0,
        9007199254740992.0,
        1.5e18,
        1e300,
        f64::INFINITY,
        5e-324,
    ];
    for v in values {
        assert_eq!(bits_to_floor_mag(v.to_bits()), v as u64, "floor of {v}");
        assert_eq!(
            bits_to_floor_mag((-v).to_bits()),
            v as u64,
            "floor magnitude of -{v}"
        );
    }
}

#[test]
fn unsigned_conversion_truncates_and_saturates() {
    assert_eq!(ConstantTypes::UnsignedInt(9).as_u64(), Ok(9));
    assert_eq!(ConstantTypes::Int(12).as_u64(), Ok(12));
    assert!(ConstantTypes::Int(-3).as_u64().is_err());
    assert_eq!(ConstantTypes::Usize(44).as_u64(), Ok(44));
    // Doubles truncate toward zero; only a negative value is refused.
    for v in [0.0f64, 0.5, 2.0, 2.5, 2.9, 4096.37, 1.5e18, 1e300, f64::INFINITY, f64::NAN] {
        assert_eq!(
            ConstantTypes::Float(v.to_bits()).as_u64(),
            Ok(v as u64),
            "converting {v}"
        );
    }
    assert!(ConstantTypes::Float((-2.0f64).to_bits()).as_u64().is_err());
    assert!(ConstantTypes::Float(f64::NEG_INFINITY.to_bits())
        .as_u64()
        .is_err());
    assert_eq!(ConstantTypes::Float((-0.0f64).to_bits()).as_u64(), Ok(0));
}

#[test]
fn signed_conversion_range_checks_and_truncates() {
    assert_eq!(ConstantTypes::Int(-8).as_i32(), Ok(-8));
    // Doubles in range truncate toward zero, as the checked cast does.
    for v in [0.0f64, 0.5, 2.9, -2.9, -8.0, 2147483647.0, -2147483648.0, f64::NAN] {
        assert_eq!(
            ConstantTypes::Float(v.to_bits()).as_i32(),
            Ok(v as i32),
            "converting {v}"
        );
    }
    assert!(ConstantTypes::Float((i32::MAX as f64 + 1.0).to_bits())
        .as_i32()
        .is_err());
    assert!(ConstantTypes::Float((i32::MIN as f64 - 1.0).to_bits())
        .as_i32()
        .is_err());
    assert!(ConstantTypes::Float(f64::INFINITY.to_bits()).as_i32().is_err());
    assert!(ConstantTypes::UnsignedInt(1 << 40).as_i32().is_err());
    assert_eq!(ConstantTypes::Usize(77).as_i32(), Ok(77));
}

#[test]
fn index_conversion_tolerates_one_epsilon_of_fraction() {
    // The conversion accepts a double whose truncated, saturated value
    // reads back within one 2^-52 unit, as the host's epsilon test does.
    let accepted = [
        (0.0f64, 0usize),
        (6.0, 6),
        (5e-324, 0),
        (1e-17, 0),
        (1.0 + f64::EPSILON / 2.0, 1),
        (9007199254740992.0, 9007199254740992),
        (f64::NAN, 0),
    ];
    for (v, expected) in accepted {
        assert_eq!(
            ConstantTypes::Float(v.to_bits()).as_usize(),
            Ok(expected),
            "converting {v}"
        );
    }
    for v in [6.5f64, 2.5, 1e-15, -1.0, f64::INFINITY, f64::NEG_INFINITY] {
        assert!(
            ConstantTypes::Float(v.to_bits()).as_usize().is_err(),
            "converting {v}"
        );
    }
    // Exactly one past the platform maximum saturates within tolerance.
    let boundary = (usize::MAX as f64) + 1.0;
    assert_eq!(
        ConstantTypes::Float(boundary.to_bits()).as_usize(),
        Ok(usize::MAX)
    );
    assert!(ConstantTypes::Float((boundary * 2.0).to_bits())
        .as_usize()
        .is_err());
    assert!(ConstantTypes::Int(-1).as_usize().is_err());
    assert_eq!(ConstantTypes::Int(9).as_usize(), Ok(9));
    assert_eq!(
        ConstantTypes::UnsignedInt(usize::MAX as u64).as_usize(),
        Ok(usize::MAX)
    );
}

#[test]
fn double_conversion_rounds_to_nearest_even() {
    assert_eq!(ConstantTypes::Int(3).as_float_bits(), Ok(3.0f64.to_bits()));
    assert_eq!(
        ConstantTypes::Int(i32::MIN).as_float_bits(),
        Ok((i32::MIN as f64).to_bits())
    );
    let pattern = 2.75f64.to_bits();
    assert_eq!(ConstantTypes::Float(pattern).as_float_bits(), Ok(pattern));
    // Unsigned values round exactly as the host cast does, ties to even.
    for u in [
        0u64,
        1000,
        (1 << 53) - 1,
        1 << 53,
        (1 << 53) + 1,
        (1 << 53) + 2,
        (1 << 53) + 3,
        (1 << 60) + 12345,
        3 << 40,
        u64::MAX,
        u64::MAX - 1024,
    ] {
        assert_eq!(
            ConstantTypes::UnsignedInt(u).as_float_bits(),
            Ok((u as f64).to_bits()),
            "converting {u}"
        );
        assert_eq!(
            ConstantTypes::Usize(u as usize).as_float_bits(),
            Ok((u as usize as f64).to_bits()),
            "converting usize {u}"
        );
    }
}

#[test]
fn named_map_keeps_insertion_order_and_replaces_in_place() {
    let mut m: NamedMap<u32> = NamedMap::new();
    m.insert(s("b"), 1);
    m.insert(s("a"), 2);
    m.insert(s("c"), 3);
    assert_eq!(m.len(), 3);
    assert_eq!(m.entry_at(0).0, s("b"));
    assert_eq!(m.entry_at(1).0, s("a"));
    assert_eq!(m.entry_at(2).0, s("c"));
    m.insert(s("a"), 9);
    assert_eq!(m.len(), 3);
    assert_eq!(m.entry_at(1).0, s("a"));
    assert_eq!(m.get(&s("a")), Some(&9));
    assert_eq!(m.get(&s("missing")), None);
    assert!(m.contains_name(&s("c")));
}

#[test]
fn descriptor_interpretation_defaults_absent_fields() {
    let d = NoiseConfigDescriptor {
        name: s("hills"),
        variant: s("Perlin"),
        seed: None,
        return_type: None,
        lacunarity: None,
        octaves: None,
        frequency: None,
        persistence: None,
    };
    let c = NoiseConfig::from_descriptor(&d).expect("known variant");
    assert_eq!(c.name, s("hills"));
    assert_eq!(c.noise_type, NoiseType::Perlin(Seed { seed: 0 }));

    let d2 = NoiseConfigDescriptor {
        name: s("cells"),
        variant: s("Worley"),
        seed: None,
        return_type: Some(ReturnType::Value),
        lacunarity: None,
        octaves: None,
        frequency: None,
        persistence: None,
    };
    let c2 = NoiseConfig::from_descriptor(&d2).expect("known variant");
    assert_eq!(
        c2.noise_type,
        NoiseType::Worley {
            return_type: ReturnType::Value,
            frequency: default_frequency_bits(),
        }
    );

    let d3 = NoiseConfigDescriptor {
        name: s("rolling"),
        variant: s("Fbm"),
        seed: None,
        return_type: None,
        lacunarity: None,
        octaves: Some(3),
        frequency: Some(ScalarBits {
            bits: 1.25f64.to_bits(),
        }),
        persistence: None,
    };
    let c3 = NoiseConfig::from_descriptor(&d3).expect("known variant");
    match c3.noise_type {
        NoiseType::Fbm(f) => {
            assert_eq!(f.octaves, 3);
            assert_eq!(f.frequency.bits, 1.25f64.to_bits());
            assert_eq!(f.persistence, default_persistence_bits());
        }
        other => panic!("unexpected primitive: {:?}", other),
    }
}

#[test]
fn unknown_descriptor_variant_is_an_error() {
    let d = NoiseConfigDescriptor {
        name: s("odd"),
        variant: s("Turbulence"),
        seed: None,
        return_type: None,
        lacunarity: None,
        octaves: None,
        frequency: None,
        persistence: None,
    };
    assert_eq!(
        NoiseConfig::from_descriptor(&d),
        Err(NoiseError::InvalidNodeDefinition(s("Turbulence")))
    );
}

#[test]
fn default_parameter_values_are_the_conventional_ones() {
    assert_eq!(default_octaves(), 6);
    assert_eq!(default_frequency_bits().bits, 2.0f64.to_bits());
    assert_eq!(
        noise_graph::noise_types::default_lacunarity_bits().bits,
        (std::f64::consts::PI * 2.0 / 3.0).to_bits()
    );
    assert_eq!(default_persistence_bits().bits, 0.5f64.to_bits());
}

#[test]
fn tile_markers_render_exactly() {
    assert!(Tile::Bomb.is_bomb());
    assert!(!Tile::Empty.is_bomb());
    assert!(!Tile::BombNeighbor(2).is_bomb());
    assert_eq!(Tile::Bomb.console_output(), s("*"));
    assert_eq!(Tile::Empty.console_output(), s(" "));
    assert_eq!(Tile::BombNeighbor(3).console_output(), s("3"));
    assert_eq!(Tile::BombNeighbor(12).console_output(), s("12"));
    assert_eq!(Tile::BombNeighbor(0).console_output(), s("0"));
}

#[test]
fn numbers_render_in_decimal() {
    assert_eq!(uint_to_string(0), s("0"));
    assert_eq!(uint_to_string(7), s("7"));
    assert_eq!(uint_to_string(40960), s("40960"));
    assert_eq!(uint_to_string(u64::MAX), s("18446744073709551615"));
}

#[test]
fn coordinates_step_and_difference() {
    let c = Coordinates { x: 10, y: 20 };
    let moved = c.offset_by(-3, 5);
    assert_eq!(moved, Coordinates { x: 7, y: 25 });
    let wrapped = Coordinates { x: 0, y: 65535 }.offset_by(-1, 1);
    assert_eq!(wrapped, Coordinates { x: 65535, y: 0 });
    let d = Coordinates { x: 5, y: 9 }.diff(Coordinates { x: 7, y: 4 });
    assert_eq!(d, Coordinates { x: 0, y: 5 });
    assert_eq!(Coordinates { x: 3, y: 11 }.to_text(), s("(3, 11)"));
}

#[test]
fn error_messages_surface_the_offending_names() {
    assert_eq!(
        NoiseError::NodeNotFound(s("hill")).message(),
        s("Node 'hill' not found")
    );
    assert_eq!(
        NoiseError::UnresolvedConstant(s("SEED")).message(),
        s("Unresolved constant reference: SEED")
    );
    assert_eq!(
        NoiseError::TemplateNotFound(s("Mountain")).message(),
        s("Template 'Mountain' not found")
    );
    assert_eq!(
        NoiseError::CircularReference(s("a")).message(),
        s("Circular reference detected involving 'a'")
    );
    assert_eq!(
        NoiseError::MissingOutputNode(s("out")).message(),
        s("Missing output node: out")
    );
    assert_eq!(
        NoiseError::InvalidConstantValue(s("MIN"), s("bad")).message(),
        s("Invalid value for constant 'MIN': bad")
    );
    assert_eq!(
        NoiseError::MissingTemplateInput(s("lhs")).message(),
        s("Missing input 'lhs' for template")
    );
    assert_eq!(
        NoiseError::InvalidTemplateInput(s("rhs")).message(),
        s("Invalid template input 'rhs'")
    );
}

