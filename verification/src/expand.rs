use crate::copy::copy_node;
use crate::errors::{err_view, NoiseError, NoiseErrorView};
use crate::model::{
    Combiner, Modifier, Node, NodeInstance, NodeTemplate, NoiseMap, Transformer,
};
use crate::named_map::{nm_contains, nm_get, nm_unique_keys, NamedMap};
use crate::validate::{slot_listed, validate_instance};
use vstd::prelude::*;
use vstd::string::StringExecFns;

verus! {

// The expander: flattens template instantiations into concrete nodes.  Each
// instantiation copies the template's internal nodes under names unique to
// the instantiation: the node filling the declared output slot takes the
// instantiation's own name, so sibling references to the instantiation
// resolve to it, and every other internal node is prefixed with the
// instantiation's name.  Internal references are rewritten accordingly,
// and references to declared input slots become the bound node names of
// the enclosing graph.  Expansion is purely structural: no numeric work
// happens here.
/// The separator between an instantiation's name and an internal node's
/// name in the flattened graph.
pub open spec fn ns_sep() -> Seq<char> {
    "::"@
}

/// Where a reference of a template-internal node points after expansion:
/// a declared input slot goes to the node bound to it, the declared output
/// slot goes to the instantiation's own name, and any other internal node
/// goes to its namespaced name.
pub open spec fn rw_ref(
    name: Seq<char>,
    t: NodeTemplate,
    b: Seq<(Seq<char>, String)>,
    inst: Seq<char>,
    oslot: Seq<char>,
) -> Result<Seq<char>, NoiseErrorView> {
    if slot_listed(t.inputs@, name) {
        match nm_get(b, name) {
            Some(v) => Ok(v@),
            None => Err(NoiseErrorView::MissingTemplateInput(name)),
        }
    } else if nm_contains(t.nodes@, name) {
        if name == oslot {
            Ok(inst)
        } else {
            Ok(inst + ns_sep() + name)
        }
    } else {
        Err(NoiseErrorView::NodeNotFound(name))
    }
}

/// Whether `new` carries the rewriting of `orig`.
pub open spec fn rw_ok(
    orig: Seq<char>,
    new: String,
    t: NodeTemplate,
    b: Seq<(Seq<char>, String)>,
    inst: Seq<char>,
    oslot: Seq<char>,
) -> bool {
    rw_ref(orig, t, b, inst, oslot) == Ok::<Seq<char>, NoiseErrorView>(new@)
}

/// Whether `new` is `orig` with every input reference rewritten and every
/// other field kept.
pub open spec fn rw_node_ok(
    orig: Node,
    new: Node,
    t: NodeTemplate,
    b: Seq<(Seq<char>, String)>,
    inst: Seq<char>,
    oslot: Seq<char>,
) -> bool {
    match (orig, new) {
        (Node::Generator(g1), Node::Generator(g2)) => g1 == g2,
        (Node::Modifier(m1), Node::Modifier(m2)) => match (m1, m2) {
            (
                Modifier::Fbm { input: a, parameters: p1 },
                Modifier::Fbm { input: c, parameters: p2 },
            ) => rw_ok(a@, c, t, b, inst, oslot) && p1 == p2,
            (
                Modifier::RidgedMulti { input: a, parameters: p1 },
                Modifier::RidgedMulti { input: c, parameters: p2 },
            ) => rw_ok(a@, c, t, b, inst, oslot) && p1 == p2,
            (
                Modifier::Billow { input: a, parameters: p1 },
                Modifier::Billow { input: c, parameters: p2 },
            ) => rw_ok(a@, c, t, b, inst, oslot) && p1 == p2,
            (Modifier::Abs { input: a }, Modifier::Abs { input: c }) => rw_ok(
                a@,
                c,
                t,
                b,
                inst,
                oslot,
            ),
            (Modifier::Exp { input: a }, Modifier::Exp { input: c }) => rw_ok(
                a@,
                c,
                t,
                b,
                inst,
                oslot,
            ),
            (Modifier::Neg { input: a }, Modifier::Neg { input: c }) => rw_ok(
                a@,
                c,
                t,
                b,
                inst,
                oslot,
            ),
            (
                Modifier::Add { input: a, value: v1 },
                Modifier::Add { input: c, value: v2 },
            ) => rw_ok(a@, c, t, b, inst, oslot) && v1 == v2,
            (
                Modifier::Mul { input: a, value: v1 },
                Modifier::Mul { input: c, value: v2 },
            ) => rw_ok(a@, c, t, b, inst, oslot) && v1 == v2,
            (
                Modifier::Clamp { input: a, min: m1, max: x1 },
                Modifier::Clamp { input: c, min: m2, max: x2 },
            ) => rw_ok(a@, c, t, b, inst, oslot) && m1 == m2 && x1 == x2,
            (
                Modifier::Pow { input: a, exponent: e1 },
                Modifier::Pow { input: c, exponent: e2 },
            ) => rw_ok(a@, c, t, b, inst, oslot) && e1 == e2,
            _ => false,
        },
        (Node::Combiner(c1), Node::Combiner(c2)) => match (c1, c2) {
            (
                Combiner::Blend { base: a1, other: b1, control: k1 },
                Combiner::Blend { base: a2, other: b2, control: k2 },
            ) => rw_ok(a1@, a2, t, b, inst, oslot) && rw_ok(b1@, b2, t, b, inst, oslot) && rw_ok(
                k1@,
                k2,
                t,
                b,
                inst,
                oslot,
            ),
            (
                Combiner::Max { base: a1, other: b1 },
                Combiner::Max { base: a2, other: b2 },
            ) => rw_ok(a1@, a2, t, b, inst, oslot) && rw_ok(b1@, b2, t, b, inst, oslot),
            (
                Combiner::Min { base: a1, other: b1 },
                Combiner::Min { base: a2, other: b2 },
            ) => rw_ok(a1@, a2, t, b, inst, oslot) && rw_ok(b1@, b2, t, b, inst, oslot),
            (
                Combiner::Power { base: a1, exponent: b1 },
                Combiner::Power { base: a2, exponent: b2 },
            ) => rw_ok(a1@, a2, t, b, inst, oslot) && rw_ok(b1@, b2, t, b, inst, oslot),
            (
                Combiner::Product { base: a1, other: b1 },
                Combiner::Product { base: a2, other: b2 },
            ) => rw_ok(a1@, a2, t, b, inst, oslot) && rw_ok(b1@, b2, t, b, inst, oslot),
            (
                Combiner::Sum { base: a1, other: b1 },
                Combiner::Sum { base: a2, other: b2 },
            ) => rw_ok(a1@, a2, t, b, inst, oslot) && rw_ok(b1@, b2, t, b, inst, oslot),
            (
                Combiner::Select {
                    base: a1,
                    other: b1,
                    control: k1,
                    lower_bound: l1,
                    upper_bound: u1,
                },
                Combiner::Select {
                    base: a2,
                    other: b2,
                    control: k2,
                    lower_bound: l2,
                    upper_bound: u2,
                },
            ) => rw_ok(a1@, a2, t, b, inst, oslot) && rw_ok(b1@, b2, t, b, inst, oslot) && rw_ok(
                k1@,
                k2,
                t,
                b,
                inst,
                oslot,
            ) && l1 == l2 && u1 == u2,
            _ => false,
        },
        (Node::Transformer(t1), Node::Transformer(t2)) => match (t1, t2) {
            (
                Transformer::Rotate { input: a, rotation: r1 },
                Transformer::Rotate { input: c, rotation: r2 },
            ) => rw_ok(a@, c, t, b, inst, oslot) && r1 == r2,
            (
                Transformer::Scale { input: a, scale: s1 },
                Transformer::Scale { input: c, scale: s2 },
            ) => rw_ok(a@, c, t, b, inst, oslot) && s1 == s2,
            (
                Transformer::Translate { input: a, translation: r1 },
                Transformer::Translate { input: c, translation: r2 },
            ) => rw_ok(a@, c, t, b, inst, oslot) && r1 == r2,
            _ => false,
        },
        _ => false,
    }
}

/// Whether one reference of a template-internal node rewrites cleanly:
/// a declared slot must be bound, and anything else must be an internal
/// node.
pub open spec fn ref_rewritable(
    name: Seq<char>,
    t: NodeTemplate,
    b: Seq<(Seq<char>, String)>,
) -> bool {
    if slot_listed(t.inputs@, name) {
        nm_contains(b, name)
    } else {
        nm_contains(t.nodes@, name)
    }
}

/// Joins an instantiation's name and an internal node's name.
fn namespaced(inst: &String, inner: &String) -> (r: String)
    ensures
        r@ == inst@ + ns_sep() + inner@,
{
    let mut s = inst.clone();
    s.append("::");
    s.append(inner.as_str());
    s
}

/// Rewrites one reference of a template-internal node.
fn rewrite_ref(
    name: &String,
    t: &NodeTemplate,
    b: &NamedMap<String>,
    inst: &String,
    oslot: &String,
) -> (r: Result<String, NoiseError>)
    ensures
        match r {
            Ok(s) => rw_ref(name@, *t, b@, inst@, oslot@) == Ok::<Seq<char>, NoiseErrorView>(s@),
            Err(e) => rw_ref(name@, *t, b@, inst@, oslot@) == Err::<Seq<char>, NoiseErrorView>(
                err_view(e),
            ),
        },
{
    if crate::validate::slot_listed_exec(&t.inputs, name) {
        match b.get(name) {
            Some(v) => Ok(v.clone()),
            None => Err(NoiseError::MissingTemplateInput(name.clone())),
        }
    } else if t.nodes.contains_name(name) {
        if *name == *oslot {
            Ok(inst.clone())
        } else {
            Ok(namespaced(inst, name))
        }
    } else {
        Err(NoiseError::NodeNotFound(name.clone()))
    }
}

/// Rewrites every reference of one template-internal node, keeping every
/// parameter as it stands.
fn rewrite_node(
    n: &Node,
    t: &NodeTemplate,
    b: &NamedMap<String>,
    inst: &String,
    oslot: &String,
) -> (r: Result<Node, NoiseError>)
    ensures
        match r {
            Ok(nn) => rw_node_ok(*n, nn, *t, b@, inst@, oslot@),
            Err(e) => (e matches NoiseError::NodeNotFound(_) || e matches
                NoiseError::MissingTemplateInput(_)),
        },
        (forall|j: int|
            0 <= j < crate::plan::node_refs(*n).len() ==> ref_rewritable(
                #[trigger] crate::plan::node_refs(*n)[j],
                *t,
                b@,
            )) ==> r is Ok,
{
    match n {
        Node::Generator(_) => Ok(copy_node(n)),
        Node::Modifier(md) => {
            let out = match md {
                Modifier::Fbm { input, parameters } => {
                    let nn = match rewrite_ref(input, t, b, inst, oslot) {
                    Ok(v) => v,
                    Err(e) => {
                        proof {
                            assert(crate::plan::node_refs(*n)[0] == input@);
                        }
                        return Err(e);
                    },
                };
                    match copy_node(n) {
                        Node::Modifier(Modifier::Fbm { input: _, parameters: p }) => Modifier::Fbm {
                            input: nn,
                            parameters: p,
                        },
                        _ => {
                            return Err(NoiseError::NodeNotFound(input.clone()));
                        },
                    }
                },
                Modifier::RidgedMulti { input, parameters } => {
                    let nn = match rewrite_ref(input, t, b, inst, oslot) {
                    Ok(v) => v,
                    Err(e) => {
                        proof {
                            assert(crate::plan::node_refs(*n)[0] == input@);
                        }
                        return Err(e);
                    },
                };
                    match copy_node(n) {
                        Node::Modifier(Modifier::RidgedMulti { input: _, parameters: p }) => {
                            Modifier::RidgedMulti { input: nn, parameters: p }
                        },
                        _ => {
                            return Err(NoiseError::NodeNotFound(input.clone()));
                        },
                    }
                },
                Modifier::Billow { input, parameters } => {
                    let nn = match rewrite_ref(input, t, b, inst, oslot) {
                    Ok(v) => v,
                    Err(e) => {
                        proof {
                            assert(crate::plan::node_refs(*n)[0] == input@);
                        }
                        return Err(e);
                    },
                };
                    match copy_node(n) {
                        Node::Modifier(Modifier::Billow { input: _, parameters: p }) => {
                            Modifier::Billow { input: nn, parameters: p }
                        },
                        _ => {
                            return Err(NoiseError::NodeNotFound(input.clone()));
                        },
                    }
                },
                Modifier::Abs { input } => Modifier::Abs {
                    input: match rewrite_ref(input, t, b, inst, oslot) {
                    Ok(v) => v,
                    Err(e) => {
                        proof {
                            assert(crate::plan::node_refs(*n)[0] == input@);
                        }
                        return Err(e);
                    },
                },
                },
                Modifier::Exp { input } => Modifier::Exp {
                    input: match rewrite_ref(input, t, b, inst, oslot) {
                    Ok(v) => v,
                    Err(e) => {
                        proof {
                            assert(crate::plan::node_refs(*n)[0] == input@);
                        }
                        return Err(e);
                    },
                },
                },
                Modifier::Neg { input } => Modifier::Neg {
                    input: match rewrite_ref(input, t, b, inst, oslot) {
                    Ok(v) => v,
                    Err(e) => {
                        proof {
                            assert(crate::plan::node_refs(*n)[0] == input@);
                        }
                        return Err(e);
                    },
                },
                },
                Modifier::Add { input, value } => Modifier::Add {
                    input: match rewrite_ref(input, t, b, inst, oslot) {
                    Ok(v) => v,
                    Err(e) => {
                        proof {
                            assert(crate::plan::node_refs(*n)[0] == input@);
                        }
                        return Err(e);
                    },
                },
                    value: match copy_node(n) {
                        Node::Modifier(Modifier::Add { input: _, value: v }) => v,
                        _ => {
                            return Err(NoiseError::NodeNotFound(input.clone()));
                        },
                    },
                },
                Modifier::Mul { input, value } => Modifier::Mul {
                    input: match rewrite_ref(input, t, b, inst, oslot) {
                    Ok(v) => v,
                    Err(e) => {
                        proof {
                            assert(crate::plan::node_refs(*n)[0] == input@);
                        }
                        return Err(e);
                    },
                },
                    value: match copy_node(n) {
                        Node::Modifier(Modifier::Mul { input: _, value: v }) => v,
                        _ => {
                            return Err(NoiseError::NodeNotFound(input.clone()));
                        },
                    },
                },
                Modifier::Clamp { input, min, max } => {
                    let nn = match rewrite_ref(input, t, b, inst, oslot) {
                    Ok(v) => v,
                    Err(e) => {
                        proof {
                            assert(crate::plan::node_refs(*n)[0] == input@);
                        }
                        return Err(e);
                    },
                };
                    match copy_node(n) {
                        Node::Modifier(Modifier::Clamp { input: _, min: lo, max: hi }) => {
                            Modifier::Clamp { input: nn, min: lo, max: hi }
                        },
                        _ => {
                            return Err(NoiseError::NodeNotFound(input.clone()));
                        },
                    }
                },
                Modifier::Pow { input, exponent } => Modifier::Pow {
                    input: match rewrite_ref(input, t, b, inst, oslot) {
                    Ok(v) => v,
                    Err(e) => {
                        proof {
                            assert(crate::plan::node_refs(*n)[0] == input@);
                        }
                        return Err(e);
                    },
                },
                    exponent: match copy_node(n) {
                        Node::Modifier(Modifier::Pow { input: _, exponent: e }) => e,
                        _ => {
                            return Err(NoiseError::NodeNotFound(input.clone()));
                        },
                    },
                },
            };
            Ok(Node::Modifier(out))
        },
        Node::Combiner(c) => {
            let out = match c {
                Combiner::Blend { base, other, control } => Combiner::Blend {
                    base: match rewrite_ref(base, t, b, inst, oslot) {
                    Ok(v) => v,
                    Err(e) => {
                        proof {
                            assert(crate::plan::node_refs(*n)[0] == base@);
                        }
                        return Err(e);
                    },
                },
                    other: match rewrite_ref(other, t, b, inst, oslot) {
                    Ok(v) => v,
                    Err(e) => {
                        proof {
                            assert(crate::plan::node_refs(*n)[1] == other@);
                        }
                        return Err(e);
                    },
                },
                    control: match rewrite_ref(control, t, b, inst, oslot) {
                    Ok(v) => v,
                    Err(e) => {
                        proof {
                            assert(crate::plan::node_refs(*n)[2] == control@);
                        }
                        return Err(e);
                    },
                },
                },
                Combiner::Max { base, other } => Combiner::Max {
                    base: match rewrite_ref(base, t, b, inst, oslot) {
                    Ok(v) => v,
                    Err(e) => {
                        proof {
                            assert(crate::plan::node_refs(*n)[0] == base@);
                        }
                        return Err(e);
                    },
                },
                    other: match rewrite_ref(other, t, b, inst, oslot) {
                    Ok(v) => v,
                    Err(e) => {
                        proof {
                            assert(crate::plan::node_refs(*n)[1] == other@);
                        }
                        return Err(e);
                    },
                },
                },
                Combiner::Min { base, other } => Combiner::Min {
                    base: match rewrite_ref(base, t, b, inst, oslot) {
                    Ok(v) => v,
                    Err(e) => {
                        proof {
                            assert(crate::plan::node_refs(*n)[0] == base@);
                        }
                        return Err(e);
                    },
                },
                    other: match rewrite_ref(other, t, b, inst, oslot) {
                    Ok(v) => v,
                    Err(e) => {
                        proof {
                            assert(crate::plan::node_refs(*n)[1] == other@);
                        }
                        return Err(e);
                    },
                },
                },
                Combiner::Power { base, exponent } => Combiner::Power {
                    base: match rewrite_ref(base, t, b, inst, oslot) {
                    Ok(v) => v,
                    Err(e) => {
                        proof {
                            assert(crate::plan::node_refs(*n)[0] == base@);
                        }
                        return Err(e);
                    },
                },
                    exponent: match rewrite_ref(exponent, t, b, inst, oslot) {
                    Ok(v) => v,
                    Err(e) => {
                        proof {
                            assert(crate::plan::node_refs(*n)[1] == exponent@);
                        }
                        return Err(e);
                    },
                },
                },
                Combiner::Product { base, other } => Combiner::Product {
                    base: match rewrite_ref(base, t, b, inst, oslot) {
                    Ok(v) => v,
                    Err(e) => {
                        proof {
                            assert(crate::plan::node_refs(*n)[0] == base@);
                        }
                        return Err(e);
                    },
                },
                    other: match rewrite_ref(other, t, b, inst, oslot) {
                    Ok(v) => v,
                    Err(e) => {
                        proof {
                            assert(crate::plan::node_refs(*n)[1] == other@);
                        }
                        return Err(e);
                    },
                },
                },
                Combiner::Sum { base, other } => Combiner::Sum {
                    base: match rewrite_ref(base, t, b, inst, oslot) {
                    Ok(v) => v,
                    Err(e) => {
                        proof {
                            assert(crate::plan::node_refs(*n)[0] == base@);
                        }
                        return Err(e);
                    },
                },
                    other: match rewrite_ref(other, t, b, inst, oslot) {
                    Ok(v) => v,
                    Err(e) => {
                        proof {
                            assert(crate::plan::node_refs(*n)[1] == other@);
                        }
                        return Err(e);
                    },
                },
                },
                Combiner::Select { base, other, control, lower_bound, upper_bound } => {
                    let a2 = match rewrite_ref(base, t, b, inst, oslot) {
                    Ok(v) => v,
                    Err(e) => {
                        proof {
                            assert(crate::plan::node_refs(*n)[0] == base@);
                        }
                        return Err(e);
                    },
                };
                    let b2 = match rewrite_ref(other, t, b, inst, oslot) {
                    Ok(v) => v,
                    Err(e) => {
                        proof {
                            assert(crate::plan::node_refs(*n)[1] == other@);
                        }
                        return Err(e);
                    },
                };
                    let k2 = match rewrite_ref(control, t, b, inst, oslot) {
                    Ok(v) => v,
                    Err(e) => {
                        proof {
                            assert(crate::plan::node_refs(*n)[2] == control@);
                        }
                        return Err(e);
                    },
                };
                    match copy_node(n) {
                        Node::Combiner(
                            Combiner::Select {
                                base: _,
                                other: _,
                                control: _,
                                lower_bound: lo,
                                upper_bound: hi,
                            },
                        ) => Combiner::Select {
                            base: a2,
                            other: b2,
                            control: k2,
                            lower_bound: lo,
                            upper_bound: hi,
                        },
                        _ => {
                            return Err(NoiseError::NodeNotFound(base.clone()));
                        },
                    }
                },
            };
            Ok(Node::Combiner(out))
        },
        Node::Transformer(tr) => {
            let out = match tr {
                Transformer::Rotate { input, rotation } => {
                    let nn = match rewrite_ref(input, t, b, inst, oslot) {
                    Ok(v) => v,
                    Err(e) => {
                        proof {
                            assert(crate::plan::node_refs(*n)[0] == input@);
                        }
                        return Err(e);
                    },
                };
                    match copy_node(n) {
                        Node::Transformer(Transformer::Rotate { input: _, rotation: v }) => {
                            Transformer::Rotate { input: nn, rotation: v }
                        },
                        _ => {
                            return Err(NoiseError::NodeNotFound(input.clone()));
                        },
                    }
                },
                Transformer::Scale { input, scale } => {
                    let nn = match rewrite_ref(input, t, b, inst, oslot) {
                    Ok(v) => v,
                    Err(e) => {
                        proof {
                            assert(crate::plan::node_refs(*n)[0] == input@);
                        }
                        return Err(e);
                    },
                };
                    match copy_node(n) {
                        Node::Transformer(Transformer::Scale { input: _, scale: v }) => {
                            Transformer::Scale { input: nn, scale: v }
                        },
                        _ => {
                            return Err(NoiseError::NodeNotFound(input.clone()));
                        },
                    }
                },
                Transformer::Translate { input, translation } => {
                    let nn = match rewrite_ref(input, t, b, inst, oslot) {
                    Ok(v) => v,
                    Err(e) => {
                        proof {
                            assert(crate::plan::node_refs(*n)[0] == input@);
                        }
                        return Err(e);
                    },
                };
                    match copy_node(n) {
                        Node::Transformer(
                            Transformer::Translate { input: _, translation: v },
                        ) => Transformer::Translate { input: nn, translation: v },
                        _ => {
                            return Err(NoiseError::NodeNotFound(input.clone()));
                        },
                    }
                },
            };
            Ok(Node::Transformer(out))
        },
    }
}

/// Whether a graph holds no template instantiation.
pub open spec fn all_direct(s: Seq<(Seq<char>, NodeInstance)>) -> bool {
    forall|i: int| 0 <= i < s.len() ==> s[i].1 is Direct
}

/// A template-free graph seen as a plain node mapping.
pub open spec fn direct_view(s: Seq<(Seq<char>, NodeInstance)>) -> Seq<(Seq<char>, Node)> {
    Seq::new(s.len(), |i: int| (s[i].0, s[i].1->Direct_0))
}

/// The names one graph entry contributes to the flattened graph, in the
/// order they are placed: a direct entry its own name, an instantiation
/// one name per internal node — the instantiation's own name for the
/// declared output slot, the namespaced name for the rest.
pub open spec fn entry_names(m: NoiseMap, j: int) -> Seq<Seq<char>> {
    match m.graph@[j].1 {
        NodeInstance::Direct(_) => seq![m.graph@[j].0],
        NodeInstance::FromTemplate { template, inputs: _ } => match nm_get(
            m.node_templates@,
            template@,
        ) {
            None => seq![],
            Some(t) => match t.output {
                None => seq![],
                Some(oslot) => Seq::new(
                    t.nodes@.len(),
                    |k: int|
                        if t.nodes@[k].0 == oslot@ {
                            m.graph@[j].0
                        } else {
                            m.graph@[j].0 + ns_sep() + t.nodes@[k].0
                        },
                ),
            },
        },
    }
}

/// Whether the names expansion would place are pairwise distinct, so no
/// placement can collide.
pub open spec fn expansion_names_distinct(m: NoiseMap) -> bool {
    forall|j1: int, k1: int, j2: int, k2: int|
        0 <= j1 < m.graph@.len() && 0 <= k1 < entry_names(m, j1).len() && 0 <= j2 < m.graph@.len()
            && 0 <= k2 < entry_names(m, j2).len() && (j1 != j2 || k1 != k2)
            ==> #[trigger] entry_names(m, j1)[k1] != #[trigger] entry_names(m, j2)[k2]
}

/// Whether one graph entry can be expanded: a direct node always, an
/// instantiation when its template exists with a declared output slot
/// held by its nodes, its bindings pass validation, and every internal
/// reference rewrites.
pub open spec fn instance_expandable(m: NoiseMap, j: int) -> bool {
    match m.graph@[j].1 {
        NodeInstance::Direct(_) => true,
        NodeInstance::FromTemplate { template, inputs } => match nm_get(
            m.node_templates@,
            template@,
        ) {
            None => false,
            Some(t) => match t.output {
                None => false,
                Some(oslot) => {
                    &&& crate::validate::sv_instance(m.graph@[j].1, m) is None
                    &&& nm_contains(t.nodes@, oslot@)
                    &&& forall|k: int, jr: int|
                        0 <= k < t.nodes@.len() && 0 <= jr < crate::plan::node_refs(
                            t.nodes@[k].1,
                        ).len() ==> ref_rewritable(
                            #[trigger] crate::plan::node_refs(t.nodes@[k].1)[jr],
                            t,
                            inputs@,
                        )
                },
            },
        },
    }
}

/// Whether every name the flattened graph holds so far was produced by an
/// entry before position `i`, or by entry `i` itself before its internal
/// position `kb`.
pub open spec fn produced_before(
    m: NoiseMap,
    out: Seq<(Seq<char>, Node)>,
    i: int,
    kb: int,
) -> bool {
    forall|q: int| 0 <= q < out.len() ==> #[trigger] produced_at(m, out, i, kb, q)
}

/// Whether one held name was produced within the window.
pub open spec fn produced_at(
    m: NoiseMap,
    out: Seq<(Seq<char>, Node)>,
    i: int,
    kb: int,
    q: int,
) -> bool {
    exists|j: int, k: int|
        #![trigger entry_names(m, j)[k]]
        0 <= j < m.graph@.len() && 0 <= k < entry_names(m, j).len() && (j < i || (j == i && k
            < kb)) && out[q].0 == entry_names(m, j)[k]
}

/// A produced-name window only widens.
proof fn lemma_produced_weaken(
    m: NoiseMap,
    out: Seq<(Seq<char>, Node)>,
    i1: int,
    kb1: int,
    i2: int,
    kb2: int,
)
    requires
        produced_before(m, out, i1, kb1),
        i1 < i2 || (i1 == i2 && kb1 <= kb2),
    ensures
        produced_before(m, out, i2, kb2),
{
    assert forall|q: int| 0 <= q < out.len() implies #[trigger] produced_at(
        m,
        out,
        i2,
        kb2,
        q,
    ) by {
        assert(produced_at(m, out, i1, kb1, q));
        let (j, k) = choose|j: int, k: int|
            #![trigger entry_names(m, j)[k]]
            0 <= j < m.graph@.len() && 0 <= k < entry_names(m, j).len() && (j < i1 || (j == i1
                && k < kb1)) && out[q].0 == entry_names(m, j)[k];
        assert(j < i2 || (j == i2 && k < kb2));
        assert(out[q].0 == entry_names(m, j)[k]);
    }
}

/// Appending a produced name keeps the bookkeeping.
proof fn lemma_produced_push(
    m: NoiseMap,
    before: Seq<(Seq<char>, Node)>,
    key: Seq<char>,
    node: Node,
    i: int,
    kb: int,
    nj: int,
    nk: int,
)
    requires
        produced_before(m, before, i, kb),
        0 <= nj < m.graph@.len(),
        0 <= nk < entry_names(m, nj).len(),
        nj < i || (nj == i && nk < kb),
        key == entry_names(m, nj)[nk],
    ensures
        produced_before(m, before.push((key, node)), i, kb),
{
    let out = before.push((key, node));
    assert forall|q: int| 0 <= q < out.len() implies #[trigger] produced_at(
        m,
        out,
        i,
        kb,
        q,
    ) by {
        if q < before.len() {
            assert(out[q] == before[q]);
            assert(produced_at(m, before, i, kb, q));
            let (j, k) = choose|j: int, k: int|
                #![trigger entry_names(m, j)[k]]
                0 <= j < m.graph@.len() && 0 <= k < entry_names(m, j).len() && (j < i || (j == i
                    && k < kb)) && before[q].0 == entry_names(m, j)[k];
            assert(out[q].0 == entry_names(m, j)[k]);
        } else {
            assert(out[q].0 == key);
            assert(out[q].0 == entry_names(m, nj)[nk]);
        }
    }
}

/// Whether a graph entry's expansion stands correctly in the flattened
/// output: a direct entry always does, and an instantiation does when its
/// template exists, declares an output slot filled by an internal node,
/// and the flattened graph binds the instantiation's name to that node
/// with every reference rewritten.
pub open spec fn instance_expanded(
    graph: Seq<(Seq<char>, NodeInstance)>,
    templates: Seq<(Seq<char>, NodeTemplate)>,
    out: Seq<(Seq<char>, Node)>,
    j: int,
) -> bool {
    match graph[j].1 {
        NodeInstance::Direct(_) => true,
        NodeInstance::FromTemplate { template, inputs } => match nm_get(templates, template@) {
            None => false,
            Some(t) => match t.output {
                None => false,
                Some(oslot) => match nm_get(t.nodes@, oslot@) {
                    None => false,
                    Some(onode) => match nm_get(out, graph[j].0) {
                        None => false,
                        Some(nn) => rw_node_ok(onode, nn, t, inputs@, graph[j].0, oslot@),
                    },
                },
            },
        },
    }
}

/// Binding a fresh name leaves every already-expanded entry standing:
/// the entry's own binding is untouched because its name is already
/// bound and the fresh name is not.
proof fn lemma_instance_expanded_preserved(
    graph: Seq<(Seq<char>, NodeInstance)>,
    templates: Seq<(Seq<char>, NodeTemplate)>,
    out_old: Seq<(Seq<char>, Node)>,
    out_new: Seq<(Seq<char>, Node)>,
    j: int,
    newkey: Seq<char>,
)
    requires
        0 <= j < graph.len(),
        instance_expanded(graph, templates, out_old, j),
        !nm_contains(out_old, newkey),
        forall|k: Seq<char>| k != newkey ==> nm_get(out_new, k) == nm_get(out_old, k),
    ensures
        instance_expanded(graph, templates, out_new, j),
{
    match graph[j].1 {
        NodeInstance::Direct(_) => {},
        NodeInstance::FromTemplate { template, inputs } => {
            if graph[j].0 == newkey {
                assert(nm_get(out_old, graph[j].0) is Some);
            } else {
                assert(nm_get(out_new, graph[j].0) == nm_get(out_old, graph[j].0));
            }
        },
    }
}

/// Expands every template instantiation of a document's graph into
/// concrete nodes, in insertion order.  Direct nodes pass through
/// unchanged under their own names; an instantiation contributes one node
/// per internal node of its template, the declared output slot's node
/// carrying the instantiation's name.  A name landing on an already
/// placed node is refused, so the result's names stay unique.  Success is
/// owed on a template-free graph, and on any graph whose instantiations
/// are expandable and whose produced names are pairwise distinct.
pub fn expand(m: &NoiseMap) -> (r: Result<NamedMap<Node>, NoiseError>)
    requires
        crate::model::noise_map_wf(*m),
    ensures
        match r {
            Ok(g) => {
                &&& nm_unique_keys(g@)
                &&& forall|j: int|
                    0 <= j < m.graph@.len() ==> nm_contains(g@, #[trigger] m.graph@[j].0)
                &&& forall|j: int|
                    0 <= j < m.graph@.len() && (#[trigger] m.graph@[j].1) is Direct ==> nm_get(
                        g@,
                        m.graph@[j].0,
                    ) == Some(m.graph@[j].1->Direct_0)
                &&& forall|j: int|
                    0 <= j < m.graph@.len() ==> #[trigger] instance_expanded(
                        m.graph@,
                        m.node_templates@,
                        g@,
                        j,
                    )
                &&& all_direct(m.graph@) ==> g@ == direct_view(m.graph@)
            },
            Err(e) => {
                ||| e is DuplicateNodeName
                ||| e is TemplateNotFound
                ||| e is InvalidTemplateDefinition
                ||| e is InvalidTemplateStructure
                ||| e is MissingTemplateInput
                ||| e is InvalidTemplateInput
                ||| e is NodeNotFound
            },
        },
        all_direct(m.graph@) ==> r is Ok,
        (forall|j: int| 0 <= j < m.graph@.len() ==> #[trigger] instance_expandable(*m, j))
            && expansion_names_distinct(*m) ==> r is Ok,
{
    let mut out: NamedMap<Node> = NamedMap::new();
    let n = m.graph.len();
    let mut i: usize = 0;
    while i < n
        invariant
            n == m.graph@.len(),
            i <= n,
            crate::model::noise_map_wf(*m),
            nm_unique_keys(out@),
            forall|j: int| 0 <= j < i ==> nm_contains(out@, #[trigger] m.graph@[j].0),
            forall|j: int|
                0 <= j < i && (#[trigger] m.graph@[j].1) is Direct ==> nm_get(out@, m.graph@[j].0)
                    == Some(m.graph@[j].1->Direct_0),
            forall|j: int|
                0 <= j < i ==> #[trigger] instance_expanded(
                    m.graph@,
                    m.node_templates@,
                    out@,
                    j,
                ),
            all_direct(m.graph@) ==> out@ == direct_view(m.graph@.take(i as int)),
            produced_before(*m, out@, i as int, 0),
        decreases n - i,
    {
        let entry = m.graph.entry_at(i);
        match &entry.1 {
            NodeInstance::Direct(node) => {
                if out.contains_name(&entry.0) {
                    proof {
                        // On a template-free graph the placed names are the
                        // earlier graph keys, which the document's unique
                        // keys keep apart from this one.
                        if all_direct(m.graph@) {
                            crate::named_map::lemma_nm_get_present(out@, entry.0@);
                            let q = choose|q: int|
                                0 <= q < out@.len() && out@[q].0 == entry.0@;
                            assert(out@[q].0 == m.graph@.take(i as int)[q].0);
                            assert(false);
                        }
                        // Under distinct produced names, nothing placed so
                        // far can carry this entry's name.
                        if expansion_names_distinct(*m) {
                            crate::named_map::lemma_nm_get_present(out@, entry.0@);
                            let q = choose|q: int|
                                0 <= q < out@.len() && out@[q].0 == entry.0@;
                            assert(produced_at(*m, out@, i as int, 0, q));
                            let (j, k) = choose|j: int, k: int|
                                #![trigger entry_names(*m, j)[k]]
                                0 <= j < m.graph@.len() && 0 <= k < entry_names(*m, j).len() && (j
                                    < i as int || (j == i as int && k < 0)) && out@[q].0
                                    == entry_names(*m, j)[k];
                            assert(entry_names(*m, i as int) =~= seq![m.graph@[i as int].0]);
                            assert(entry_names(*m, i as int)[0] == entry.0@);
                            assert(false);
                        }
                    }
                    return Err(NoiseError::DuplicateNodeName(entry.0.clone()));
                }
                let ghost before = out@;
                out.insert(entry.0.clone(), copy_node(node));
                proof {
                    assert forall|j: int| 0 <= j < i implies #[trigger] instance_expanded(
                        m.graph@,
                        m.node_templates@,
                        out@,
                        j,
                    ) by {
                        lemma_instance_expanded_preserved(
                            m.graph@,
                            m.node_templates@,
                            before,
                            out@,
                            j,
                            m.graph@[i as int].0,
                        );
                    }
                    if all_direct(m.graph@) {
                        assert(out@ =~= direct_view(m.graph@.take(i as int + 1)));
                    }
                    // Bookkeeping: the placed name is this entry's one
                    // produced name.
                    lemma_produced_weaken(*m, before, i as int, 0, i as int + 1, 0);
                    assert(entry_names(*m, i as int) =~= seq![m.graph@[i as int].0]);
                    assert(out@ == before.push((entry.0@, out@[before.len() as int].1)));
                    lemma_produced_push(
                        *m,
                        before,
                        entry.0@,
                        out@[before.len() as int].1,
                        i as int + 1,
                        0,
                        i as int,
                        0,
                    );
                }
            },
            NodeInstance::FromTemplate { template, inputs } => {
                proof {
                    if forall|j: int|
                        0 <= j < m.graph@.len() ==> #[trigger] instance_expandable(*m, j) {
                        assert(instance_expandable(*m, i as int));
                    }
                }
                match validate_instance(&entry.1, m) {
                    Ok(_) => {},
                    Err(e) => {
                        proof {
                            match nm_get(m.node_templates@, template@) {
                                None => {},
                                Some(t) => {
                                    crate::validate::lemma_sv_bindings_kinds(inputs@, t, *m);
                                    crate::validate::lemma_sv_missing_kinds(t.inputs@, inputs@);
                                },
                            }
                        }
                        return Err(e);
                    },
                }
                let t = match m.node_templates.get(template) {
                    Some(t) => t,
                    None => {
                        return Err(NoiseError::TemplateNotFound(template.clone()));
                    },
                };
                let oslot = match &t.output {
                    Some(o) => o,
                    None => {
                        return Err(NoiseError::InvalidTemplateDefinition(template.clone()));
                    },
                };
                if !t.nodes.contains_name(oslot) {
                    return Err(NoiseError::InvalidTemplateStructure(template.clone()));
                }
                proof {
                    // The template came out of the library, so the document's
                    // well-formedness covers it.
                    crate::named_map::lemma_nm_get_present(m.node_templates@, template@);
                    let ti = choose|ti: int|
                        0 <= ti < m.node_templates@.len() && m.node_templates@[ti].0 == template@;
                    crate::named_map::lemma_nm_get_at_index(m.node_templates@, ti);
                    assert(crate::model::template_wf(m.node_templates@[ti].1));
                }
                let inner_n = t.nodes.len();
                let mut k: usize = 0;
                while k < inner_n
                    invariant
                        inner_n == t.nodes@.len(),
                        k <= inner_n,
                        i < n,
                        n == m.graph@.len(),
                        crate::model::noise_map_wf(*m),
                        nm_unique_keys(out@),
                        forall|j: int| 0 <= j < i ==> nm_contains(out@, #[trigger] m.graph@[j].0),
                        forall|j: int|
                            0 <= j < i && (#[trigger] m.graph@[j].1) is Direct ==> nm_get(
                                out@,
                                m.graph@[j].0,
                            ) == Some(m.graph@[j].1->Direct_0),
                        forall|j: int|
                            0 <= j < i ==> #[trigger] instance_expanded(
                                m.graph@,
                                m.node_templates@,
                                out@,
                                j,
                            ),
                        (exists|j: int|
                            0 <= j < k && t.nodes@[j].0 == oslot@) ==> match nm_get(
                            out@,
                            m.graph@[i as int].0,
                        ) {
                            Some(nn) => rw_node_ok(
                                nm_get(t.nodes@, oslot@)->Some_0,
                                nn,
                                *t,
                                inputs@,
                                m.graph@[i as int].0,
                                oslot@,
                            ),
                            None => false,
                        },
                        nm_get(m.node_templates@, template@) == Some(*t),
                        t.output == Some(*oslot),
                        crate::model::template_wf(*t),
                        nm_contains(t.nodes@, oslot@),
                        (entry.0@, entry.1) == m.graph@[i as int],
                        entry.1 == (NodeInstance::FromTemplate {
                            template: *template,
                            inputs: *inputs,
                        }),
                        produced_before(*m, out@, i as int, k as int),
                    decreases inner_n - k,
                {
                    let inner = t.nodes.entry_at(k);
                    let newname = if inner.0 == *oslot {
                        proof {
                            assert(t.nodes@[k as int].0 == oslot@);
                            crate::named_map::lemma_nm_get_at_index(t.nodes@, k as int);
                        }
                        entry.0.clone()
                    } else {
                        namespaced(&entry.0, &inner.0)
                    };
                    let newnode = match rewrite_node(&inner.1, t, inputs, &entry.0, oslot) {
                        Ok(nn) => nn,
                        Err(e) => {
                            proof {
                                // An expandable instantiation has every
                                // internal reference rewritable.
                                if forall|j: int|
                                    0 <= j < m.graph@.len() ==> #[trigger] instance_expandable(
                                        *m,
                                        j,
                                    ) {
                                    assert(instance_expandable(*m, i as int));
                                    assert forall|jr: int|
                                        0 <= jr < crate::plan::node_refs(inner.1).len()
                                            implies ref_rewritable(
                                        #[trigger] crate::plan::node_refs(inner.1)[jr],
                                        *t,
                                        inputs@,
                                    ) by {
                                        assert(inner.1 == t.nodes@[k as int].1);
                                        assert(ref_rewritable(
                                            crate::plan::node_refs(t.nodes@[k as int].1)[jr],
                                            *t,
                                            inputs@,
                                        ));
                                    }
                                    assert(false);
                                }
                            }
                            return Err(e);
                        },
                    };
                    proof {
                        // The name placed now is this entry's produced name
                        // at the current internal position.
                        assert(entry_names(*m, i as int) == Seq::new(
                            t.nodes@.len(),
                            |k2: int|
                                if t.nodes@[k2].0 == oslot@ {
                                    m.graph@[i as int].0
                                } else {
                                    m.graph@[i as int].0 + ns_sep() + t.nodes@[k2].0
                                },
                        ));
                        assert(newname@ == entry_names(*m, i as int)[k as int]);
                    }
                    if out.contains_name(&newname) {
                        proof {
                            if expansion_names_distinct(*m) {
                                crate::named_map::lemma_nm_get_present(out@, newname@);
                                let q = choose|q: int|
                                    0 <= q < out@.len() && out@[q].0 == newname@;
                                assert(produced_at(*m, out@, i as int, k as int, q));
                                let (j2, k2) = choose|j2: int, k2: int|
                                    #![trigger entry_names(*m, j2)[k2]]
                                    0 <= j2 < m.graph@.len() && 0 <= k2 < entry_names(
                                        *m,
                                        j2,
                                    ).len() && (j2 < i as int || (j2 == i as int && k2 < k as int))
                                        && out@[q].0 == entry_names(*m, j2)[k2];
                                assert(false);
                            }
                        }
                        return Err(NoiseError::DuplicateNodeName(newname));
                    }
                    let ghost before = out@;
                    let ghost fresh = newname@;
                    out.insert(newname, newnode);
                    proof {
                        lemma_produced_weaken(*m, before, i as int, k as int, i as int, k as int + 1);
                        assert(out@ == before.push((fresh, out@[before.len() as int].1)));
                        lemma_produced_push(
                            *m,
                            before,
                            fresh,
                            out@[before.len() as int].1,
                            i as int,
                            k as int + 1,
                            i as int,
                            k as int,
                        );
                    }
                    proof {
                        assert forall|j: int| 0 <= j < i implies #[trigger] instance_expanded(
                            m.graph@,
                            m.node_templates@,
                            out@,
                            j,
                        ) by {
                            lemma_instance_expanded_preserved(
                                m.graph@,
                                m.node_templates@,
                                before,
                                out@,
                                j,
                                fresh,
                            );
                        }
                    }
                    k = k + 1;
                }
                proof {
                    crate::named_map::lemma_nm_get_present(t.nodes@, oslot@);
                    assert(exists|j: int| 0 <= j < inner_n && t.nodes@[j].0 == oslot@);
                    assert(instance_expanded(m.graph@, m.node_templates@, out@, i as int));
                    lemma_produced_weaken(
                        *m,
                        out@,
                        i as int,
                        inner_n as int,
                        i as int + 1,
                        0,
                    );
                }
            },
        }
        i = i + 1;
    }
    proof {
        if all_direct(m.graph@) {
            assert(m.graph@.take(n as int) =~= m.graph@);
            assert(out@ =~= direct_view(m.graph@));
        }
    }
    Ok(out)
}

} // verus!
