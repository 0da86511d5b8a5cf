use crate::constants::ConstantTypes;
use crate::errors::NoiseErrorView;
use crate::model::{Node, NodeInstance, NodeTemplate, NoiseMap};
use crate::named_map::{lemma_nm_get_at_index, nm_contains, nm_get, nm_unique_keys};
use crate::expand::{all_direct, direct_view};
use crate::model::{ConstantOrValue, Modifier, ScalarBits};
use crate::plan::{
    cycle_in, flat_refs_ok, graph_has_cycle, iref_ok, lemma_resolved_refs_match, node_refs,
    plan_covers, plan_matches, plan_refs, plan_wf, pos_of, rs_sb_rel, sb_resolvable,
    sb_resolved_v74, FlatGraph, PlanNode,
};
use crate::validate::{
    lemma_sv_bindings_kinds, lemma_sv_missing_kinds, slot_listed, sv_bindings, sv_graph,
    sv_instance, sv_missing_bindings, sv_node, sv_noise_map, sv_output, sv_templates,
};
use vstd::prelude::*;

verus! {

// The laws of the engine: what holds of every document and plan, stated
// over the same specification functions the passes are proved against.
/// Every graph name has a valid position in a covering plan.
proof fn lemma_pos_valid(names: Seq<String>, g: Seq<(Seq<char>, Node)>, i: int)
    requires
        plan_covers(names, g),
        0 <= i < g.len(),
    ensures
        0 <= pos_of(names, g[i].0) < names.len(),
        names[pos_of(names, g[i].0)]@ == g[i].0,
{
    let kk = g[i].0;
    assert(exists|q: int| 0 <= q < names.len() && (#[trigger] names[q])@ == kk);
    let q = choose|q: int| 0 <= q < names.len() && (#[trigger] names[q])@ == kk;
    assert(0 <= pos_of(names, kk) < names.len() && names[pos_of(names, kk)]@ == kk);
}

/// Along an edge of a cycle, the plan position strictly decreases: a step
/// sits after every step it takes input from.
proof fn lemma_cycle_step(
    p: FlatGraph,
    g: Seq<(Seq<char>, Node)>,
    pool: Seq<(Seq<char>, ConstantTypes)>,
    c: Seq<int>,
    j: int,
)
    requires
        plan_wf(p),
        plan_matches(p, g, pool),
        plan_covers(p.names@, g),
        nm_unique_keys(g),
        cycle_in(g, c),
        0 <= j < c.len(),
    ensures
        pos_of(p.names@, g[c[(j + 1) % c.len() as int]].0) < pos_of(p.names@, g[c[j]].0),
{
    let names = p.names@;
    let jn = (j + 1) % c.len() as int;
    assert(0 <= jn < c.len()) by {
        vstd::arithmetic::div_mod::lemma_mod_bound(j + 1, c.len() as int);
    }
    let kj = g[c[j]].0;
    let kn = g[c[jn]].0;
    lemma_pos_valid(names, g, c[j]);
    lemma_pos_valid(names, g, c[jn]);
    let qj = pos_of(names, kj);
    let qn = pos_of(names, kn);
    // The step at position qj resolves exactly the cycle node's document
    // node.
    assert(nm_get(g, names[qj]@) is Some);
    lemma_nm_get_at_index(g, c[j]);
    assert(nm_get(g, kj) == Some(g[c[j]].1));
    let node = g[c[j]].1;
    // The edge's target name is one of that node's references.
    assert(node_refs(node).contains(kn));
    let jr = choose|r: int| 0 <= r < node_refs(node).len() && node_refs(node)[r] == kn;
    lemma_resolved_refs_match(node, p.nodes@[qj], names, pool, jr);
    let t = plan_refs(p.nodes@[qj])[jr];
    assert(iref_ok(kn, t, names));
    // Well-formedness puts that input strictly before the step.
    assert(t < qj) by {
        assert(plan_refs(p.nodes@[qj])[jr] < qj);
    }
    // Unique names make the position unambiguous.
    assert(qn == t as int) by {
        if qn != t as int {
            assert(names[qn]@ == kn);
            assert(names[t as int]@ == kn);
        }
    }
}

/// The positions along a cycle drop by at least one per edge.
proof fn lemma_cycle_descent(
    p: FlatGraph,
    g: Seq<(Seq<char>, Node)>,
    pool: Seq<(Seq<char>, ConstantTypes)>,
    c: Seq<int>,
    j: int,
)
    requires
        plan_wf(p),
        plan_matches(p, g, pool),
        plan_covers(p.names@, g),
        nm_unique_keys(g),
        cycle_in(g, c),
        0 <= j < c.len(),
    ensures
        pos_of(p.names@, g[c[j]].0) <= pos_of(p.names@, g[c[0]].0) - j,
    decreases j,
{
    if j == 0 {
    } else {
        lemma_cycle_descent(p, g, pool, c, j - 1);
        lemma_cycle_step(p, g, pool, c, j - 1);
        assert((j - 1 + 1) % c.len() as int == j) by {
            vstd::arithmetic::div_mod::lemma_small_mod(j as nat, c.len() as nat);
        }
    }
}

/// A prepared plan certifies that the graph it resolves is free of
/// reference cycles: a document whose expanded graph holds a cycle can
/// never pass preparation, so evaluation can never run into one.
pub proof fn lemma_plan_excludes_cycles(
    p: FlatGraph,
    g: Seq<(Seq<char>, Node)>,
    pool: Seq<(Seq<char>, ConstantTypes)>,
)
    requires
        plan_wf(p),
        plan_matches(p, g, pool),
        plan_covers(p.names@, g),
        nm_unique_keys(g),
    ensures
        !graph_has_cycle(g),
{
    if graph_has_cycle(g) {
        let c = choose|c: Seq<int>| cycle_in(g, c);
        let last = c.len() as int - 1;
        lemma_cycle_descent(p, g, pool, c, last);
        lemma_cycle_step(p, g, pool, c, last);
        assert((last + 1) % c.len() as int == 0) by {
            vstd::arithmetic::div_mod::lemma_mod_self_0(c.len() as int);
        }
        lemma_pos_valid(p.names@, g, c[0]);
        assert(false);
    }
}

/// Every scalar parameter a prepared plan carries is a finite double:
/// resolution refuses NaN and infinite parameters, so no prepared graph
/// injects a non-finite value into sampling.
pub proof fn lemma_prepared_parameters_finite(p: FlatGraph, q: int)
    requires
        plan_wf(p),
        0 <= q < p.nodes@.len(),
    ensures
        crate::plan::plan_params_finite(p.nodes@[q]),
{
}

/// Resolved bits carry the resolved value.
proof fn lemma_rs_sb_v74(
    cov: ConstantOrValue<ScalarBits>,
    pool: Seq<(Seq<char>, ConstantTypes)>,
    bits: u64,
)
    requires
        rs_sb_rel(cov, pool, bits),
    ensures
        crate::scalar::scalar_v74(bits) == sb_resolved_v74(cov, pool),
{
}

/// A prepared plan never carries a clamp whose resolved bounds invert:
/// a graph holding such a clamp admits no plan at all, so preparation
/// must fail on it — and, by the planner's contract, with exactly the
/// invalid-constant kind when nothing else is wrong.
pub proof fn lemma_inverted_clamp_excludes_plan(
    p: FlatGraph,
    g: Seq<(Seq<char>, Node)>,
    pool: Seq<(Seq<char>, ConstantTypes)>,
    i: int,
    input: String,
    min: ConstantOrValue<ScalarBits>,
    max: ConstantOrValue<ScalarBits>,
)
    requires
        nm_unique_keys(g),
        0 <= i < g.len(),
        g[i].1 == Node::Modifier(Modifier::Clamp { input, min, max }),
        sb_resolvable(min, pool),
        sb_resolvable(max, pool),
        sb_resolved_v74(min, pool) > sb_resolved_v74(max, pool),
    ensures
        !(plan_wf(p) && plan_matches(p, g, pool) && plan_covers(p.names@, g)),
{
    if plan_wf(p) && plan_matches(p, g, pool) && plan_covers(p.names@, g) {
        lemma_pos_valid(p.names@, g, i);
        let q = pos_of(p.names@, g[i].0);
        lemma_nm_get_at_index(g, i);
        assert(nm_get(g, p.names@[q]@) == Some(g[i].1));
        match p.nodes@[q] {
            PlanNode::Clamp { input: _, min: lo, max: hi } => {
                lemma_rs_sb_v74(min, pool, lo);
                lemma_rs_sb_v74(max, pool, hi);
            },
            _ => {},
        }
        assert(false);
    }
}

/// If every graph entry before position `i` validates clean and the entry
/// at `i` yields an error, the graph's prescription is exactly that
/// error.
proof fn lemma_sv_graph_first_error(
    s: Seq<(Seq<char>, NodeInstance)>,
    m: NoiseMap,
    i: int,
    e: NoiseErrorView,
)
    requires
        0 <= i < s.len(),
        forall|j: int| 0 <= j < i ==> sv_instance(#[trigger] s[j].1, m) is None,
        sv_instance(s[i].1, m) == Some(e),
    ensures
        sv_graph(s, m) == Some(e),
    decreases s.len(),
{
    if i == 0 {
    } else {
        assert(sv_instance(s[0].1, m) is None);
        assert(forall|j: int|
            0 <= j < i - 1 ==> s.drop_first()[j] == s[j + 1]);
        lemma_sv_graph_first_error(s.drop_first(), m, i - 1, e);
    }
}

/// A document that references a constant absent from its pool fails
/// validation with exactly `UnresolvedConstant`, naming that constant:
/// stated for the first flawed entry of the traversal order, which is the
/// error the validator returns.
pub proof fn lemma_unresolved_constant_reported(m: NoiseMap, i: int, name: Seq<char>)
    requires
        sv_templates(m.node_templates@, m) is None,
        0 <= i < m.graph@.len(),
        forall|j: int| 0 <= j < i ==> sv_instance(#[trigger] m.graph@[j].1, m) is None,
        sv_instance(m.graph@[i].1, m) == Some(NoiseErrorView::UnresolvedConstant(name)),
    ensures
        sv_noise_map(m) == Some(NoiseErrorView::UnresolvedConstant(name)),
{
    lemma_sv_graph_first_error(m.graph@, m, i, NoiseErrorView::UnresolvedConstant(name));
}

/// A binding list with an undeclared slot name is refused.
proof fn lemma_sv_bindings_undeclared(
    b: Seq<(Seq<char>, String)>,
    t: NodeTemplate,
    m: NoiseMap,
)
    requires
        exists|j: int| 0 <= j < b.len() && !slot_listed(t.inputs@, (#[trigger] b[j]).0),
    ensures
        sv_bindings(b, t, m) is Some,
    decreases b.len(),
{
    let j = choose|j: int| 0 <= j < b.len() && !slot_listed(t.inputs@, (#[trigger] b[j]).0);
    if j == 0 {
    } else {
        assert(b.drop_first()[j - 1] == b[j]);
        lemma_sv_bindings_undeclared(b.drop_first(), t, m);
    }
}

/// A declared slot left unbound is refused.
proof fn lemma_sv_missing_unbound(
    inputs: Seq<String>,
    b: Seq<(Seq<char>, String)>,
)
    requires
        exists|j: int| 0 <= j < inputs.len() && !nm_contains(b, (#[trigger] inputs[j])@),
    ensures
        sv_missing_bindings(inputs, b) is Some,
    decreases inputs.len(),
{
    let j = choose|j: int| 0 <= j < inputs.len() && !nm_contains(b, (#[trigger] inputs[j])@);
    if j == 0 {
    } else {
        assert(inputs.drop_first()[j - 1] == inputs[j]);
        lemma_sv_missing_unbound(inputs.drop_first(), b);
    }
}

/// A template instantiation whose binding keys do not exactly match the
/// template's declared inputs is refused with `MissingTemplateInput` or
/// `InvalidTemplateInput`, as appropriate, provided every bound node
/// exists (a dangling bound node is its own, earlier error).
pub proof fn lemma_binding_mismatch_reported(
    m: NoiseMap,
    template: String,
    inputs: crate::named_map::NamedMap<String>,
    t: NodeTemplate,
)
    requires
        nm_get(m.node_templates@, template@) == Some(t),
        forall|j: int| 0 <= j < inputs@.len() ==> nm_contains(m.graph@, (#[trigger] inputs@[j]).1@),
        (exists|j: int| 0 <= j < inputs@.len() && !slot_listed(t.inputs@, (#[trigger] inputs@[j]).0))
            || (exists|j: int|
            0 <= j < t.inputs@.len() && !nm_contains(inputs@, (#[trigger] t.inputs@[j])@)),
    ensures
        sv_instance(NodeInstance::FromTemplate { template, inputs }, m) matches Some(e) && (
        e is MissingTemplateInput || e is InvalidTemplateInput),
{
    lemma_sv_bindings_kinds(inputs@, t, m);
    lemma_sv_missing_kinds(t.inputs@, inputs@);
    if exists|j: int|
        0 <= j < inputs@.len() && !slot_listed(t.inputs@, (#[trigger] inputs@[j]).0) {
        lemma_sv_bindings_undeclared(inputs@, t, m);
        // With every bound node present, the only possible binding error is
        // the undeclared slot.
        lemma_sv_bindings_not_node(inputs@, t, m);
    } else {
        if sv_bindings(inputs@, t, m) is Some {
            lemma_sv_bindings_not_node(inputs@, t, m);
            lemma_sv_bindings_all_declared(inputs@, t, m);
        } else {
            lemma_sv_missing_unbound(t.inputs@, inputs@);
        }
    }
}

/// With every bound node present in the graph, a binding error can only
/// be an undeclared slot.
proof fn lemma_sv_bindings_not_node(
    b: Seq<(Seq<char>, String)>,
    t: NodeTemplate,
    m: NoiseMap,
)
    requires
        forall|j: int| 0 <= j < b.len() ==> nm_contains(m.graph@, (#[trigger] b[j]).1@),
    ensures
        sv_bindings(b, t, m) matches Some(e) ==> e is InvalidTemplateInput,
    decreases b.len(),
{
    if b.len() > 0 {
        assert(forall|j: int|
            0 <= j < b.drop_first().len() ==> b.drop_first()[j] == b[j + 1]);
        lemma_sv_bindings_not_node(b.drop_first(), t, m);
    }
}

/// With every binding's slot declared, the binding list validates clean
/// when every bound node exists.
proof fn lemma_sv_bindings_all_declared(
    b: Seq<(Seq<char>, String)>,
    t: NodeTemplate,
    m: NoiseMap,
)
    requires
        forall|j: int| 0 <= j < b.len() ==> slot_listed(t.inputs@, (#[trigger] b[j]).0),
        forall|j: int| 0 <= j < b.len() ==> nm_contains(m.graph@, (#[trigger] b[j]).1@),
    ensures
        sv_bindings(b, t, m) is None,
    decreases b.len(),
{
    if b.len() > 0 {
        assert(forall|j: int|
            0 <= j < b.drop_first().len() ==> b.drop_first()[j] == b[j + 1]);
        lemma_sv_bindings_all_declared(b.drop_first(), t, m);
    }
}

/// A node the validator accepts in graph context has every input
/// reference present among the graph's names.
proof fn lemma_sv_node_refs_sound(n: Node, m: NoiseMap)
    requires
        sv_node(n, m, None) is None,
    ensures
        forall|j: int|
            0 <= j < node_refs(n).len() ==> nm_contains(m.graph@, #[trigger] node_refs(n)[j]),
{
}

/// A graph run the validator accepts is clean entry by entry.
proof fn lemma_sv_graph_sound(s: Seq<(Seq<char>, NodeInstance)>, m: NoiseMap)
    requires
        sv_graph(s, m) is None,
    ensures
        forall|i: int| 0 <= i < s.len() ==> sv_instance(#[trigger] s[i].1, m) is None,
    decreases s.len(),
{
    if s.len() > 0 {
        lemma_sv_graph_sound(s.drop_first(), m);
        assert(forall|i: int| 1 <= i < s.len() ==> s.drop_first()[i - 1] == s[i]);
    }
}

/// Seen as a plain node mapping, a template-free graph holds the same
/// names.
pub proof fn lemma_direct_view_same_names(s: Seq<(Seq<char>, NodeInstance)>, k: Seq<char>)
    ensures
        nm_contains(direct_view(s), k) <==> nm_contains(s, k),
{
    crate::named_map::lemma_nm_get_present(s, k);
    crate::named_map::lemma_nm_get_present(direct_view(s), k);
    if nm_contains(s, k) {
        let i = choose|i: int| 0 <= i < s.len() && s[i].0 == k;
        assert(direct_view(s)[i].0 == k);
    }
    if nm_contains(direct_view(s), k) {
        let i = choose|i: int|
            0 <= i < direct_view(s).len() && direct_view(s)[i].0 == k;
        assert(s[i].0 == k);
    }
}

/// Validation is sound for template-free documents: a document the
/// validator accepts has no dangling references once seen as a flattened
/// graph, so the post-expansion reference check accepts it too.
pub proof fn lemma_validation_sound_for_direct(m: NoiseMap)
    requires
        sv_graph(m.graph@, m) is None,
        all_direct(m.graph@),
    ensures
        flat_refs_ok(direct_view(m.graph@)),
{
    let g = direct_view(m.graph@);
    lemma_sv_graph_sound(m.graph@, m);
    assert forall|i: int, j: int|
        0 <= i < g.len() && 0 <= j < node_refs(g[i].1).len() implies nm_contains(
        g,
        #[trigger] node_refs(g[i].1)[j],
    ) by {
        let n = m.graph@[i].1->Direct_0;
        assert(sv_instance(m.graph@[i].1, m) is None);
        assert(sv_node(n, m, None) is None);
        lemma_sv_node_refs_sound(n, m);
        assert(g[i].1 == n);
        lemma_direct_view_same_names(m.graph@, node_refs(n)[j]);
    }
}

/// A document whose templates and graph validate clean but whose
/// designated output is absent from the graph is refused with exactly
/// `MissingOutputNode`, naming the designated output.
pub proof fn lemma_missing_output_reported(m: NoiseMap, o: String)
    requires
        sv_templates(m.node_templates@, m) is None,
        sv_graph(m.graph@, m) is None,
        m.output == Some(o),
        !nm_contains(m.graph@, o@),
    ensures
        sv_noise_map(m) == Some(NoiseErrorView::MissingOutputNode(o@)),
{
    assert(sv_output(m) == Some(NoiseErrorView::MissingOutputNode(o@)));
}

} // verus!
