use crate::errors::{err_view, NoiseError};
use crate::expand::{all_direct, direct_view, expand, instance_expanded};
use crate::model::{noise_map_wf, Node, NoiseMap};
use crate::named_map::{nm_contains, nm_unique_keys, NamedMap};
use crate::plan::{
    build_plan, flat_refs_ok, graph_has_cycle, graph_resolvable, graph_resolvable_weak, node_refs,
    plan_covers, plan_matches, plan_wf, FlatGraph,
};
use crate::validate::{sv_noise_map, validate_ok};
use vstd::prelude::*;

verus! {

// The engine pipeline: a document goes through validation, template
// expansion, a post-expansion reference check, and plan building.  Either
// every pass succeeds and a well-formed plan comes out, or the first
// failing pass's error is returned and no plan exists at all.
/// How many references a node declares.
fn node_ref_count(n: &Node) -> (r: usize)
    ensures
        r == node_refs(*n).len(),
{
    match n {
        Node::Generator(_) => 0,
        Node::Modifier(_) => 1,
        Node::Combiner(c) => match c {
            crate::model::Combiner::Blend { .. } => 3,
            crate::model::Combiner::Select { .. } => 3,
            _ => 2,
        },
        Node::Transformer(_) => 1,
    }
}

/// The reference at a position, in field order.
fn node_ref_at<'a>(n: &'a Node, j: usize) -> (r: &'a String)
    requires
        j < node_refs(*n).len(),
    ensures
        r@ == node_refs(*n)[j as int],
{
    match n {
        Node::Generator(_) => vstd::pervasive::unreached(),
        Node::Modifier(md) => match md {
            crate::model::Modifier::Fbm { input, .. } => input,
            crate::model::Modifier::RidgedMulti { input, .. } => input,
            crate::model::Modifier::Billow { input, .. } => input,
            crate::model::Modifier::Abs { input } => input,
            crate::model::Modifier::Exp { input } => input,
            crate::model::Modifier::Neg { input } => input,
            crate::model::Modifier::Add { input, .. } => input,
            crate::model::Modifier::Mul { input, .. } => input,
            crate::model::Modifier::Clamp { input, .. } => input,
            crate::model::Modifier::Pow { input, .. } => input,
        },
        Node::Combiner(c) => match c {
            crate::model::Combiner::Blend { base, other, control } => {
                if j == 0 {
                    base
                } else if j == 1 {
                    other
                } else {
                    control
                }
            },
            crate::model::Combiner::Max { base, other } => {
                if j == 0 {
                    base
                } else {
                    other
                }
            },
            crate::model::Combiner::Min { base, other } => {
                if j == 0 {
                    base
                } else {
                    other
                }
            },
            crate::model::Combiner::Power { base, exponent } => {
                if j == 0 {
                    base
                } else {
                    exponent
                }
            },
            crate::model::Combiner::Product { base, other } => {
                if j == 0 {
                    base
                } else {
                    other
                }
            },
            crate::model::Combiner::Sum { base, other } => {
                if j == 0 {
                    base
                } else {
                    other
                }
            },
            crate::model::Combiner::Select { base, other, control, .. } => {
                if j == 0 {
                    base
                } else if j == 1 {
                    other
                } else {
                    control
                }
            },
        },
        Node::Transformer(t) => match t {
            crate::model::Transformer::Rotate { input, .. } => input,
            crate::model::Transformer::Scale { input, .. } => input,
            crate::model::Transformer::Translate { input, .. } => input,
        },
    }
}

/// Confirms that a flattened graph has no residual dangling names: every
/// reference of every node must be a key of the graph.
pub fn validate_flat_refs(g: &NamedMap<Node>) -> (r: Result<(), NoiseError>)
    ensures
        r is Ok <==> flat_refs_ok(g@),
        r matches Err(e) ==> e matches NoiseError::NodeNotFound(_),
{
    let n = g.len();
    let mut i: usize = 0;
    while i < n
        invariant
            n == g@.len(),
            i <= n,
            forall|i2: int, j: int|
                0 <= i2 < i && 0 <= j < node_refs(g@[i2].1).len() ==> nm_contains(
                    g@,
                    #[trigger] node_refs(g@[i2].1)[j],
                ),
        decreases n - i,
    {
        let entry = g.entry_at(i);
        let refs = node_ref_count(&entry.1);
        let mut j: usize = 0;
        while j < refs
            invariant
                n == g@.len(),
                i < n,
                refs == node_refs(g@[i as int].1).len(),
                (entry.0@, entry.1) == g@[i as int],
                j <= refs,
                forall|j2: int|
                    0 <= j2 < j ==> nm_contains(g@, #[trigger] node_refs(g@[i as int].1)[j2]),
            decreases refs - j,
        {
            let name = node_ref_at(&entry.1, j);
            if !g.contains_name(name) {
                return Err(NoiseError::NodeNotFound(name.clone()));
            }
            j = j + 1;
        }
        i = i + 1;
    }
    Ok(())
}

impl NoiseMap {
    /// Prepares the document for sampling: validates it, expands every
    /// template instantiation, re-checks the flattened references, and
    /// orders the result into an evaluable plan.  Either a well-formed
    /// plan comes out, or the first failing pass's error; no partial plan
    /// is ever produced.  On a document the validator rejects, the error
    /// is exactly the validator's.
    pub fn prepare(&self) -> (r: Result<FlatGraph, NoiseError>)
        requires
            noise_map_wf(*self),
        ensures
            match r {
                Ok(p) => {
                    &&& validate_ok(*self)
                    &&& plan_wf(p)
                    &&& self.output is Some
                    &&& p.names@[p.output as int]@ == self.output->Some_0@
                    &&& exists|g: Seq<(Seq<char>, Node)>|
                        {
                            &&& nm_unique_keys(g)
                            &&& #[trigger] plan_matches(p, g, self.constants@)
                            &&& plan_covers(p.names@, g)
                            &&& forall|j: int|
                                0 <= j < self.graph@.len() ==> #[trigger] instance_expanded(
                                    self.graph@,
                                    self.node_templates@,
                                    g,
                                    j,
                                )
                            &&& (all_direct(self.graph@) ==> g == direct_view(self.graph@))
                        }
                },
                Err(e) => sv_noise_map(*self) is Some ==> Some(err_view(e)) == sv_noise_map(
                    *self,
                ),
            },
            validate_ok(*self) && all_direct(self.graph@) && graph_resolvable(
                direct_view(self.graph@),
                self.constants@,
            ) && !graph_has_cycle(direct_view(self.graph@)) ==> r is Ok,
            validate_ok(*self) && all_direct(self.graph@) && graph_resolvable(
                direct_view(self.graph@),
                self.constants@,
            ) ==> (r is Ok || (r matches Err(e) && e is CircularReference)),
            validate_ok(*self) && all_direct(self.graph@) ==> (r matches Err(e) ==> (
            e is CircularReference ==> graph_has_cycle(direct_view(self.graph@)))),
            validate_ok(*self) && all_direct(self.graph@) ==> (r matches Err(e) ==> (e matches
                NoiseError::CircularReference(nm) ==> nm_contains(self.graph@, nm@))),
            validate_ok(*self) && all_direct(self.graph@) && graph_resolvable_weak(
                direct_view(self.graph@),
                self.constants@,
            ) && !graph_has_cycle(direct_view(self.graph@)) ==> (r is Ok || (r matches Err(e)
                && e is InvalidConstantValue)),
    {
        match self.validate() {
            Ok(_) => {},
            Err(e) => {
                return Err(e);
            },
        }
        let flat = match expand(self) {
            Ok(g) => g,
            Err(e) => {
                return Err(e);
            },
        };
        proof {
            // On a template-free document the validator's acceptance
            // already covers the flattened graph's references.
            if all_direct(self.graph@) {
                crate::laws::lemma_validation_sound_for_direct(*self);
            }
        }
        match validate_flat_refs(&flat) {
            Ok(_) => {},
            Err(e) => {
                return Err(e);
            },
        }
        let out = match &self.output {
            Some(o) => o,
            None => {
                proof {
                    // The validator demands a designated output, so this
                    // arm is out of reach once validation has passed.
                    assert(false);
                }
                return Err(NoiseError::MissingOutputNode(String::new()));
            },
        };
        proof {
            // The designated output survives into the flattened graph.
            if all_direct(self.graph@) {
                crate::laws::lemma_direct_view_same_names(self.graph@, out@);
            }
        }
        match build_plan(&flat, out, &self.constants) {
            Err(e) => {
                proof {
                    // On a template-free document the reported cycle node is
                    // a key of the document's own graph.
                    if all_direct(self.graph@) {
                        match &e {
                            NoiseError::CircularReference(nm) => {
                                crate::laws::lemma_direct_view_same_names(self.graph@, nm@);
                            },
                            _ => {},
                        }
                    }
                }
                Err(e)
            },
            Ok(p) => {
                proof {
                    let ghost gv = flat@;
                    assert(nm_unique_keys(gv) && plan_matches(p, gv, self.constants@)
                        && plan_covers(p.names@, gv) && (forall|j: int|
                        0 <= j < self.graph@.len() ==> #[trigger] instance_expanded(
                            self.graph@,
                            self.node_templates@,
                            gv,
                            j,
                        )) && (all_direct(self.graph@) ==> gv == direct_view(self.graph@)));
                }
                Ok(p)
            },
        }
    }
}

} // verus!
