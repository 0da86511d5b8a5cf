use crate::errors::{err_view, outcome_matches, NoiseError, NoiseErrorView};
use crate::model::{
    Combiner, ConstantOrValue, Generator, Modifier, Node, NodeInstance, NodeTemplate, NoiseMap,
    NoiseParameters, Transformer,
};
use crate::named_map::{nm_contains, nm_get};
use vstd::prelude::*;

verus! {

// The validator: the static pass that resolves every reference of a
// document and prescribes, for each possible flaw, the exact error that
// reports it.  Each `sv_*` specification function states what the matching
// executable function returns: `None` for a sound construct, or the first
// error met in a fixed traversal order (insertion order of the mappings,
// declaration order of the fields), so that outcomes are reproducible.
/// The first of two prescriptions.
pub open spec fn first_err(
    a: Option<NoiseErrorView>,
    b: Option<NoiseErrorView>,
) -> Option<NoiseErrorView> {
    if a is Some {
        a
    } else {
        b
    }
}

/// Whether a declared input slot list holds a name.
pub open spec fn slot_listed(inputs: Seq<String>, name: Seq<char>) -> bool {
    exists|i: int| 0 <= i < inputs.len() && inputs[i]@ == name
}

/// An indirect value is sound when a literal, or when its constant name is
/// in the pool.
pub open spec fn sv_indirect<T>(iv: ConstantOrValue<T>, m: NoiseMap) -> Option<NoiseErrorView> {
    match iv {
        ConstantOrValue::Constant(name) => if !nm_contains(m.constants@, name@) {
            Some(NoiseErrorView::UnresolvedConstant(name@))
        } else {
            None
        },
        ConstantOrValue::RawValue(_) => None,
    }
}

/// An input reference is sound when it names a sibling graph node, or,
/// inside a template, one of the template's declared inputs or internal
/// nodes.  Graph keys are the only targets outside a template: a template
/// name is not a node and cannot be referenced as one.
pub open spec fn sv_ref(
    name: Seq<char>,
    m: NoiseMap,
    tpl: Option<NodeTemplate>,
) -> Option<NoiseErrorView> {
    match tpl {
        None => if nm_contains(m.graph@, name) {
            None
        } else {
            Some(NoiseErrorView::NodeNotFound(name))
        },
        Some(t) => if slot_listed(t.inputs@, name) || nm_contains(t.nodes@, name) {
            None
        } else {
            Some(NoiseErrorView::NodeNotFound(name))
        },
    }
}

/// What validating a generator yields: its only checkable part is the
/// optional indirect value or seed.
pub open spec fn sv_generator(g: Generator, m: NoiseMap) -> Option<NoiseErrorView> {
    match g {
        Generator::Constant { value } => sv_indirect(value, m),
        Generator::Checkerboard => None,
        Generator::ImprovedPerlin { seed } => sv_indirect(seed, m),
        Generator::Perlin { seed } => sv_indirect(seed, m),
        Generator::Value { seed } => sv_indirect(seed, m),
        Generator::Simplex { seed } => sv_indirect(seed, m),
        Generator::Worley { seed } => sv_indirect(seed, m),
    }
}

/// What validating a parameter set yields: each field checked in
/// declaration order.
pub open spec fn sv_parameters(p: NoiseParameters, m: NoiseMap) -> Option<NoiseErrorView> {
    first_err(
        sv_indirect(p.octaves, m),
        first_err(
            sv_indirect(p.frequency, m),
            first_err(sv_indirect(p.lacunarity, m), sv_indirect(p.persistence, m)),
        ),
    )
}

/// What validating a modifier yields: the input reference first, then its
/// parameters in declaration order.
pub open spec fn sv_modifier(
    md: Modifier,
    m: NoiseMap,
    tpl: Option<NodeTemplate>,
) -> Option<NoiseErrorView> {
    match md {
        Modifier::Fbm { input, parameters } => first_err(
            sv_ref(input@, m, tpl),
            sv_parameters(parameters, m),
        ),
        Modifier::RidgedMulti { input, parameters } => first_err(
            sv_ref(input@, m, tpl),
            sv_parameters(parameters, m),
        ),
        Modifier::Billow { input, parameters } => first_err(
            sv_ref(input@, m, tpl),
            sv_parameters(parameters, m),
        ),
        Modifier::Abs { input } => sv_ref(input@, m, tpl),
        Modifier::Exp { input } => sv_ref(input@, m, tpl),
        Modifier::Neg { input } => sv_ref(input@, m, tpl),
        Modifier::Add { input, value } => first_err(sv_ref(input@, m, tpl), sv_indirect(value, m)),
        Modifier::Mul { input, value } => first_err(sv_ref(input@, m, tpl), sv_indirect(value, m)),
        Modifier::Clamp { input, min, max } => first_err(
            sv_ref(input@, m, tpl),
            first_err(sv_indirect(min, m), sv_indirect(max, m)),
        ),
        Modifier::Pow { input, exponent } => first_err(
            sv_ref(input@, m, tpl),
            sv_indirect(exponent, m),
        ),
    }
}

/// What validating a combiner yields: input references in declaration
/// order, then any bounds.
pub open spec fn sv_combiner(
    c: Combiner,
    m: NoiseMap,
    tpl: Option<NodeTemplate>,
) -> Option<NoiseErrorView> {
    match c {
        Combiner::Blend { base, other, control } => first_err(
            sv_ref(base@, m, tpl),
            first_err(sv_ref(other@, m, tpl), sv_ref(control@, m, tpl)),
        ),
        Combiner::Max { base, other } => first_err(sv_ref(base@, m, tpl), sv_ref(other@, m, tpl)),
        Combiner::Min { base, other } => first_err(sv_ref(base@, m, tpl), sv_ref(other@, m, tpl)),
        Combiner::Power { base, exponent } => first_err(
            sv_ref(base@, m, tpl),
            sv_ref(exponent@, m, tpl),
        ),
        Combiner::Product { base, other } => first_err(
            sv_ref(base@, m, tpl),
            sv_ref(other@, m, tpl),
        ),
        Combiner::Sum { base, other } => first_err(sv_ref(base@, m, tpl), sv_ref(other@, m, tpl)),
        Combiner::Select { base, other, control, lower_bound, upper_bound } => first_err(
            sv_ref(base@, m, tpl),
            first_err(
                sv_ref(other@, m, tpl),
                first_err(
                    sv_ref(control@, m, tpl),
                    first_err(sv_indirect(lower_bound, m), sv_indirect(upper_bound, m)),
                ),
            ),
        ),
    }
}

/// What validating a transformer yields: the input reference, then the
/// vector parameter.
pub open spec fn sv_transformer(
    t: Transformer,
    m: NoiseMap,
    tpl: Option<NodeTemplate>,
) -> Option<NoiseErrorView> {
    match t {
        Transformer::Rotate { input, rotation } => first_err(
            sv_ref(input@, m, tpl),
            sv_indirect(rotation, m),
        ),
        Transformer::Scale { input, scale } => first_err(
            sv_ref(input@, m, tpl),
            sv_indirect(scale, m),
        ),
        Transformer::Translate { input, translation } => first_err(
            sv_ref(input@, m, tpl),
            sv_indirect(translation, m),
        ),
    }
}

/// What validating one node yields.
pub open spec fn sv_node(n: Node, m: NoiseMap, tpl: Option<NodeTemplate>) -> Option<
    NoiseErrorView,
> {
    match n {
        Node::Generator(g) => sv_generator(g, m),
        Node::Modifier(md) => sv_modifier(md, m, tpl),
        Node::Combiner(c) => sv_combiner(c, m, tpl),
        Node::Transformer(t) => sv_transformer(t, m, tpl),
    }
}

/// What validating a run of template-internal nodes yields, in insertion
/// order.
pub open spec fn sv_template_nodes(
    s: Seq<(Seq<char>, Node)>,
    m: NoiseMap,
    t: NodeTemplate,
) -> Option<NoiseErrorView>
    decreases s.len(),
{
    if s.len() == 0 {
        None
    } else {
        first_err(sv_node(s[0].1, m, Some(t)), sv_template_nodes(s.drop_first(), m, t))
    }
}

/// What validating a template yields: its declared output slot must be one
/// of its internal nodes, and every internal node must be sound.
pub open spec fn sv_template(t: NodeTemplate, m: NoiseMap) -> Option<NoiseErrorView> {
    first_err(
        match t.output {
            Some(o) => if !nm_contains(t.nodes@, o@) {
                Some(NoiseErrorView::InvalidTemplateStructure(t.name@))
            } else {
                None
            },
            None => None,
        },
        sv_template_nodes(t.nodes@, m, t),
    )
}

/// What validating the bindings of one instantiation yields, walking the
/// bindings in insertion order: each bound slot must be declared by the
/// template and each bound node name must exist in the graph.
pub open spec fn sv_bindings(
    s: Seq<(Seq<char>, String)>,
    t: NodeTemplate,
    m: NoiseMap,
) -> Option<NoiseErrorView>
    decreases s.len(),
{
    if s.len() == 0 {
        None
    } else {
        first_err(
            if !slot_listed(t.inputs@, s[0].0) {
                Some(NoiseErrorView::InvalidTemplateInput(s[0].0))
            } else if !nm_contains(m.graph@, s[0].1@) {
                Some(NoiseErrorView::NodeNotFound(s[0].1@))
            } else {
                None
            },
            sv_bindings(s.drop_first(), t, m),
        )
    }
}

/// What checking for unbound declared inputs yields, walking the declared
/// slots in declaration order.
pub open spec fn sv_missing_bindings(
    inputs: Seq<String>,
    bound: Seq<(Seq<char>, String)>,
) -> Option<NoiseErrorView>
    decreases inputs.len(),
{
    if inputs.len() == 0 {
        None
    } else {
        first_err(
            if !nm_contains(bound, inputs[0]@) {
                Some(NoiseErrorView::MissingTemplateInput(inputs[0]@))
            } else {
                None
            },
            sv_missing_bindings(inputs.drop_first(), bound),
        )
    }
}

/// Whatever a binding list's prescription is, it is an undeclared-slot or
/// missing-node error.
pub proof fn lemma_sv_bindings_kinds(b: Seq<(Seq<char>, String)>, t: NodeTemplate, m: NoiseMap)
    ensures
        sv_bindings(b, t, m) matches Some(e) ==> (e is InvalidTemplateInput || e is NodeNotFound),
    decreases b.len(),
{
    if b.len() > 0 {
        lemma_sv_bindings_kinds(b.drop_first(), t, m);
    }
}

/// Whatever an unbound-slot check prescribes is a missing-input error.
pub proof fn lemma_sv_missing_kinds(inputs: Seq<String>, b: Seq<(Seq<char>, String)>)
    ensures
        sv_missing_bindings(inputs, b) matches Some(e) ==> e is MissingTemplateInput,
    decreases inputs.len(),
{
    if inputs.len() > 0 {
        lemma_sv_missing_kinds(inputs.drop_first(), b);
    }
}

/// What validating a graph entry yields: a direct node is validated in
/// graph context; an instantiation must name a known template, bind
/// exactly the declared inputs, and bind them to existing graph nodes.
pub open spec fn sv_instance(inst: NodeInstance, m: NoiseMap) -> Option<NoiseErrorView> {
    match inst {
        NodeInstance::Direct(n) => sv_node(n, m, None),
        NodeInstance::FromTemplate { template, inputs } => match nm_get(
            m.node_templates@,
            template@,
        ) {
            None => Some(NoiseErrorView::TemplateNotFound(template@)),
            Some(t) => first_err(
                sv_bindings(inputs@, t, m),
                sv_missing_bindings(t.inputs@, inputs@),
            ),
        },
    }
}

/// What validating a run of templates yields, in insertion order.
pub open spec fn sv_templates(s: Seq<(Seq<char>, NodeTemplate)>, m: NoiseMap) -> Option<
    NoiseErrorView,
>
    decreases s.len(),
{
    if s.len() == 0 {
        None
    } else {
        first_err(sv_template(s[0].1, m), sv_templates(s.drop_first(), m))
    }
}

/// What validating a run of graph entries yields, in insertion order.
pub open spec fn sv_graph(s: Seq<(Seq<char>, NodeInstance)>, m: NoiseMap) -> Option<
    NoiseErrorView,
>
    decreases s.len(),
{
    if s.len() == 0 {
        None
    } else {
        first_err(sv_instance(s[0].1, m), sv_graph(s.drop_first(), m))
    }
}

/// What checking the designated output yields: the document must designate
/// one, and it must be a graph node.
pub open spec fn sv_output(m: NoiseMap) -> Option<NoiseErrorView> {
    match m.output {
        None => Some(NoiseErrorView::MissingOutputNode(Seq::<char>::empty())),
        Some(o) => if nm_contains(m.graph@, o@) {
            None
        } else {
            Some(NoiseErrorView::MissingOutputNode(o@))
        },
    }
}

/// What validating a whole document yields: templates first, then the
/// graph, then the designated output, each part in insertion order.
pub open spec fn sv_noise_map(m: NoiseMap) -> Option<NoiseErrorView> {
    first_err(
        sv_templates(m.node_templates@, m),
        first_err(sv_graph(m.graph@, m), sv_output(m)),
    )
}

/// Whether a whole document is sound.
pub open spec fn validate_ok(m: NoiseMap) -> bool {
    sv_noise_map(m) is None
}

/// Whether a declared input slot list holds a name.
pub(crate) fn slot_listed_exec(inputs: &Vec<String>, name: &String) -> (r: bool)
    ensures
        r == slot_listed(inputs@, name@),
{
    let n = inputs.len();
    let mut i: usize = 0;
    while i < n
        invariant
            n == inputs@.len(),
            i <= n,
            forall|j: int| 0 <= j < i ==> inputs@[j]@ != name@,
        decreases n - i,
    {
        if inputs[i] == *name {
            return true;
        }
        i = i + 1;
    }
    false
}

/// Validates an indirect value against the document's constant pool.
fn validate_indirect<T>(iv: &ConstantOrValue<T>, m: &NoiseMap) -> (r: Result<(), NoiseError>)
    ensures
        outcome_matches(r, sv_indirect(*iv, *m)),
{
    match iv {
        ConstantOrValue::Constant(name) => {
            if !m.constants.contains_name(name) {
                Err(NoiseError::UnresolvedConstant(name.clone()))
            } else {
                Ok(())
            }
        },
        ConstantOrValue::RawValue(_) => Ok(()),
    }
}

/// Resolves whether an input reference names something the context knows.
fn validate_ref(name: &String, m: &NoiseMap, tpl: Option<&NodeTemplate>) -> (r: Result<
    (),
    NoiseError,
>)
    ensures
        outcome_matches(r, sv_ref(name@, *m, opt_deref(tpl))),
{
    match tpl {
        None => {
            if m.graph.contains_name(name) {
                Ok(())
            } else {
                Err(NoiseError::NodeNotFound(name.clone()))
            }
        },
        Some(t) => {
            if slot_listed_exec(&t.inputs, name) || t.nodes.contains_name(name) {
                Ok(())
            } else {
                Err(NoiseError::NodeNotFound(name.clone()))
            }
        },
    }
}

/// The template a context optionally carries, as a value.
pub open spec fn opt_deref(tpl: Option<&NodeTemplate>) -> Option<NodeTemplate> {
    match tpl {
        Some(t) => Some(*t),
        None => None,
    }
}

/// Validates a generator's indirect fields.
fn validate_generator(g: &Generator, m: &NoiseMap) -> (r: Result<(), NoiseError>)
    ensures
        outcome_matches(r, sv_generator(*g, *m)),
{
    match g {
        Generator::Constant { value } => validate_indirect(value, m),
        Generator::Checkerboard => Ok(()),
        Generator::ImprovedPerlin { seed } => validate_indirect(seed, m),
        Generator::Perlin { seed } => validate_indirect(seed, m),
        Generator::Value { seed } => validate_indirect(seed, m),
        Generator::Simplex { seed } => validate_indirect(seed, m),
        Generator::Worley { seed } => validate_indirect(seed, m),
    }
}

/// Validates a parameter set field by field.
fn validate_parameters(p: &NoiseParameters, m: &NoiseMap) -> (r: Result<(), NoiseError>)
    ensures
        outcome_matches(r, sv_parameters(*p, *m)),
{
    validate_indirect(&p.octaves, m)?;
    validate_indirect(&p.frequency, m)?;
    validate_indirect(&p.lacunarity, m)?;
    validate_indirect(&p.persistence, m)?;
    Ok(())
}

/// Validates a modifier: its input reference, then its parameters.
fn validate_modifier(md: &Modifier, m: &NoiseMap, tpl: Option<&NodeTemplate>) -> (r: Result<
    (),
    NoiseError,
>)
    ensures
        outcome_matches(r, sv_modifier(*md, *m, opt_deref(tpl))),
{
    match md {
        Modifier::Fbm { input, parameters } => {
            validate_ref(input, m, tpl)?;
            validate_parameters(parameters, m)
        },
        Modifier::RidgedMulti { input, parameters } => {
            validate_ref(input, m, tpl)?;
            validate_parameters(parameters, m)
        },
        Modifier::Billow { input, parameters } => {
            validate_ref(input, m, tpl)?;
            validate_parameters(parameters, m)
        },
        Modifier::Abs { input } => validate_ref(input, m, tpl),
        Modifier::Exp { input } => validate_ref(input, m, tpl),
        Modifier::Neg { input } => validate_ref(input, m, tpl),
        Modifier::Add { input, value } => {
            validate_ref(input, m, tpl)?;
            validate_indirect(value, m)
        },
        Modifier::Mul { input, value } => {
            validate_ref(input, m, tpl)?;
            validate_indirect(value, m)
        },
        Modifier::Clamp { input, min, max } => {
            validate_ref(input, m, tpl)?;
            validate_indirect(min, m)?;
            validate_indirect(max, m)
        },
        Modifier::Pow { input, exponent } => {
            validate_ref(input, m, tpl)?;
            validate_indirect(exponent, m)
        },
    }
}

/// Validates a combiner's input references and bounds.
fn validate_combiner(c: &Combiner, m: &NoiseMap, tpl: Option<&NodeTemplate>) -> (r: Result<
    (),
    NoiseError,
>)
    ensures
        outcome_matches(r, sv_combiner(*c, *m, opt_deref(tpl))),
{
    match c {
        Combiner::Blend { base, other, control } => {
            validate_ref(base, m, tpl)?;
            validate_ref(other, m, tpl)?;
            validate_ref(control, m, tpl)
        },
        Combiner::Max { base, other } => {
            validate_ref(base, m, tpl)?;
            validate_ref(other, m, tpl)
        },
        Combiner::Min { base, other } => {
            validate_ref(base, m, tpl)?;
            validate_ref(other, m, tpl)
        },
        Combiner::Power { base, exponent } => {
            validate_ref(base, m, tpl)?;
            validate_ref(exponent, m, tpl)
        },
        Combiner::Product { base, other } => {
            validate_ref(base, m, tpl)?;
            validate_ref(other, m, tpl)
        },
        Combiner::Sum { base, other } => {
            validate_ref(base, m, tpl)?;
            validate_ref(other, m, tpl)
        },
        Combiner::Select { base, other, control, lower_bound, upper_bound } => {
            validate_ref(base, m, tpl)?;
            validate_ref(other, m, tpl)?;
            validate_ref(control, m, tpl)?;
            validate_indirect(lower_bound, m)?;
            validate_indirect(upper_bound, m)
        },
    }
}

/// Validates a transformer's input reference and vector parameter.
fn validate_transformer(t: &Transformer, m: &NoiseMap, tpl: Option<&NodeTemplate>) -> (r: Result<
    (),
    NoiseError,
>)
    ensures
        outcome_matches(r, sv_transformer(*t, *m, opt_deref(tpl))),
{
    match t {
        Transformer::Rotate { input, rotation } => {
            validate_ref(input, m, tpl)?;
            validate_indirect(rotation, m)
        },
        Transformer::Scale { input, scale } => {
            validate_ref(input, m, tpl)?;
            validate_indirect(scale, m)
        },
        Transformer::Translate { input, translation } => {
            validate_ref(input, m, tpl)?;
            validate_indirect(translation, m)
        },
    }
}

/// Validates one node in its context.
pub fn validate_node(n: &Node, m: &NoiseMap, tpl: Option<&NodeTemplate>) -> (r: Result<
    (),
    NoiseError,
>)
    ensures
        outcome_matches(r, sv_node(*n, *m, opt_deref(tpl))),
{
    match n {
        Node::Generator(g) => validate_generator(g, m),
        Node::Modifier(md) => validate_modifier(md, m, tpl),
        Node::Combiner(c) => validate_combiner(c, m, tpl),
        Node::Transformer(t) => validate_transformer(t, m, tpl),
    }
}

/// Validates a template: its declared output slot and its internal nodes.
pub fn validate_template(t: &NodeTemplate, m: &NoiseMap) -> (r: Result<(), NoiseError>)
    ensures
        outcome_matches(r, sv_template(*t, *m)),
{
    let output_sound: bool = match &t.output {
        Some(o) => t.nodes.contains_name(o),
        None => true,
    };
    if !output_sound {
        return Err(NoiseError::InvalidTemplateStructure(t.name.clone()));
    }
    let n = t.nodes.len();
    let mut i: usize = 0;
    proof {
        assert(t.nodes@.skip(0) =~= t.nodes@);
    }
    while i < n
        invariant
            n == t.nodes@.len(),
            i <= n,
            match t.output {
                Some(o) => nm_contains(t.nodes@, o@),
                None => true,
            },
            sv_template_nodes(t.nodes@, *m, *t) == sv_template_nodes(
                t.nodes@.skip(i as int),
                *m,
                *t,
            ),
        decreases n - i,
    {
        proof {
            assert(t.nodes@.skip(i as int)[0] == t.nodes@[i as int]);
            assert(t.nodes@.skip(i as int).drop_first() =~= t.nodes@.skip(i as int + 1));
        }
        let entry = t.nodes.entry_at(i);
        validate_node(&entry.1, m, Some(t))?;
        i = i + 1;
    }
    proof {
        assert(t.nodes@.skip(n as int) =~= Seq::<(Seq<char>, Node)>::empty());
    }
    Ok(())
}

/// Validates a graph entry: a direct node, or a template instantiation's
/// existence, bindings and bound nodes.
pub fn validate_instance(inst: &NodeInstance, m: &NoiseMap) -> (r: Result<(), NoiseError>)
    ensures
        outcome_matches(r, sv_instance(*inst, *m)),
{
    match inst {
        NodeInstance::Direct(n) => validate_node(n, m, None),
        NodeInstance::FromTemplate { template, inputs } => {
            let t = match m.node_templates.get(template) {
                Some(t) => t,
                None => {
                    return Err(NoiseError::TemplateNotFound(template.clone()));
                },
            };
            let n = inputs.len();
            let mut i: usize = 0;
            proof {
                assert(inputs@.skip(0) =~= inputs@);
            }
            while i < n
                invariant
                    n == inputs@.len(),
                    i <= n,
                    *inst == (NodeInstance::FromTemplate { template: *template, inputs: *inputs }),
                    nm_get(m.node_templates@, template@) == Some(*t),
                    sv_bindings(inputs@, *t, *m) == sv_bindings(inputs@.skip(i as int), *t, *m),
                decreases n - i,
            {
                proof {
                    assert(inputs@.skip(i as int)[0] == inputs@[i as int]);
                    assert(inputs@.skip(i as int).drop_first() =~= inputs@.skip(i as int + 1));
                }
                let entry = inputs.entry_at(i);
                if !slot_listed_exec(&t.inputs, &entry.0) {
                    return Err(NoiseError::InvalidTemplateInput(entry.0.clone()));
                }
                if !m.graph.contains_name(&entry.1) {
                    return Err(NoiseError::NodeNotFound(entry.1.clone()));
                }
                i = i + 1;
            }
            proof {
                assert(inputs@.skip(n as int) =~= Seq::<(Seq<char>, String)>::empty());
            }
            let d = t.inputs.len();
            let mut j: usize = 0;
            proof {
                assert(t.inputs@.skip(0) =~= t.inputs@);
            }
            while j < d
                invariant
                    d == t.inputs@.len(),
                    j <= d,
                    *inst == (NodeInstance::FromTemplate { template: *template, inputs: *inputs }),
                    nm_get(m.node_templates@, template@) == Some(*t),
                    sv_bindings(inputs@, *t, *m) is None,
                    sv_missing_bindings(t.inputs@, inputs@) == sv_missing_bindings(
                        t.inputs@.skip(j as int),
                        inputs@,
                    ),
                decreases d - j,
            {
                proof {
                    assert(t.inputs@.skip(j as int)[0] == t.inputs@[j as int]);
                    assert(t.inputs@.skip(j as int).drop_first() =~= t.inputs@.skip(j as int + 1));
                }
                if !inputs.contains_name(&t.inputs[j]) {
                    return Err(NoiseError::MissingTemplateInput(t.inputs[j].clone()));
                }
                j = j + 1;
            }
            proof {
                assert(t.inputs@.skip(d as int) =~= Seq::<String>::empty());
            }
            Ok(())
        },
    }
}

impl NoiseMap {
    /// Validates the document for referential integrity: every template is
    /// structurally sound, every graph entry resolves its references, and
    /// the designated output exists.  Returns the first error of the fixed
    /// traversal order, so outcomes are reproducible.
    pub fn validate(&self) -> (r: Result<(), NoiseError>)
        ensures
            outcome_matches(r, sv_noise_map(*self)),
            r is Ok <==> validate_ok(*self),
    {
        let n = self.node_templates.len();
        let mut i: usize = 0;
        proof {
            assert(self.node_templates@.skip(0) =~= self.node_templates@);
        }
        while i < n
            invariant
                n == self.node_templates@.len(),
                i <= n,
                sv_templates(self.node_templates@, *self) == sv_templates(
                    self.node_templates@.skip(i as int),
                    *self,
                ),
            decreases n - i,
        {
            proof {
                assert(self.node_templates@.skip(i as int)[0] == self.node_templates@[i as int]);
                assert(self.node_templates@.skip(i as int).drop_first() =~= self.node_templates@
                    .skip(i as int + 1));
            }
            let entry = self.node_templates.entry_at(i);
            validate_template(&entry.1, self)?;
            i = i + 1;
        }
        proof {
            assert(self.node_templates@.skip(n as int) =~= Seq::<
                (Seq<char>, NodeTemplate),
            >::empty());
        }
        let g = self.graph.len();
        let mut j: usize = 0;
        proof {
            assert(self.graph@.skip(0) =~= self.graph@);
        }
        while j < g
            invariant
                g == self.graph@.len(),
                j <= g,
                sv_templates(self.node_templates@, *self) is None,
                sv_graph(self.graph@, *self) == sv_graph(self.graph@.skip(j as int), *self),
            decreases g - j,
        {
            proof {
                assert(self.graph@.skip(j as int)[0] == self.graph@[j as int]);
                assert(self.graph@.skip(j as int).drop_first() =~= self.graph@.skip(j as int + 1));
            }
            let entry = self.graph.entry_at(j);
            validate_instance(&entry.1, self)?;
            j = j + 1;
        }
        proof {
            assert(self.graph@.skip(g as int) =~= Seq::<(Seq<char>, NodeInstance)>::empty());
        }
        match &self.output {
            None => Err(NoiseError::MissingOutputNode(String::new())),
            Some(o) => {
                if self.graph.contains_name(o) {
                    Ok(())
                } else {
                    Err(NoiseError::MissingOutputNode(o.clone()))
                }
            },
        }
    }
}

} // verus!
