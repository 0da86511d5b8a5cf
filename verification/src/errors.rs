use vstd::prelude::*;
use vstd::string::StringExecFns;

verus! {

/// Errors reported while checking, expanding or preparing a noise document.
///
/// Every failure of the static passes is reported through one of these
/// variants; sampling a prepared graph never fails.
#[derive(Debug, Clone, PartialEq, Eq)]
pub enum NoiseError {
    /// A node name is not acceptable in a graph.
    InvalidNodeName(String),
    /// A node reference does not name a node of the graph.
    NodeNotFound(String),
    /// Two nodes were given the same name.
    DuplicateNodeName(String),
    /// A node definition could not be understood.
    InvalidNodeDefinition(String),
    /// A node is missing an input it requires.
    MissingRequiredInput(String),
    /// A node was handed an input it does not take.
    UnexpectedInput(String),
    /// A named constant is not present in the constant pool.
    ConstantNotFound(String),
    /// A constant resolved to a value the node cannot use.
    InvalidConstantValue(String, String),
    /// An indirect value names a constant that does not exist.
    UnresolvedConstant(String),
    /// A template instantiation names a template that does not exist.
    TemplateNotFound(String),
    /// A template's declared output does not match its internal nodes.
    InvalidTemplateStructure(String),
    /// A template instantiation does not bind one of the declared inputs.
    MissingTemplateInput(String),
    /// A template instantiation binds a name the template does not declare.
    InvalidTemplateInput(String),
    /// A template cannot be instantiated as defined.
    InvalidTemplateDefinition(String),
    /// Two nodes cannot be combined as requested.
    IncompatibleNodeTypes(String),
    /// A document could not be written out.
    SerializationError(String),
    /// A document could not be read back.
    DeserializationError(String),
    /// A numeric value cannot be converted to the requested type.
    InvalidConversion(String),
    /// The reference graph contains a cycle through the named node.
    CircularReference(String),
    /// The designated output node is not present in the graph.
    MissingOutputNode(String),
    /// Validation of the named item failed for the given reason.
    ValidationFailed(String, String),
    /// Any other failure.
    General(String),
    /// A node instance reference is not acceptable.
    InvalidNodeInstance(String),
}

/// The abstract shape of an error: the same variants as `NoiseError`, with
/// every carried name abstracted to its character sequence.  Contracts
/// speak of errors through this view.
pub enum NoiseErrorView {
    InvalidNodeName(Seq<char>),
    NodeNotFound(Seq<char>),
    DuplicateNodeName(Seq<char>),
    InvalidNodeDefinition(Seq<char>),
    MissingRequiredInput(Seq<char>),
    UnexpectedInput(Seq<char>),
    ConstantNotFound(Seq<char>),
    InvalidConstantValue(Seq<char>, Seq<char>),
    UnresolvedConstant(Seq<char>),
    TemplateNotFound(Seq<char>),
    InvalidTemplateStructure(Seq<char>),
    MissingTemplateInput(Seq<char>),
    InvalidTemplateInput(Seq<char>),
    InvalidTemplateDefinition(Seq<char>),
    IncompatibleNodeTypes(Seq<char>),
    SerializationError(Seq<char>),
    DeserializationError(Seq<char>),
    InvalidConversion(Seq<char>),
    CircularReference(Seq<char>),
    MissingOutputNode(Seq<char>),
    ValidationFailed(Seq<char>, Seq<char>),
    General(Seq<char>),
    InvalidNodeInstance(Seq<char>),
}

/// The view of a concrete error.
pub open spec fn err_view(e: NoiseError) -> NoiseErrorView {
    match e {
        NoiseError::InvalidNodeName(s) => NoiseErrorView::InvalidNodeName(s@),
        NoiseError::NodeNotFound(s) => NoiseErrorView::NodeNotFound(s@),
        NoiseError::DuplicateNodeName(s) => NoiseErrorView::DuplicateNodeName(s@),
        NoiseError::InvalidNodeDefinition(s) => NoiseErrorView::InvalidNodeDefinition(s@),
        NoiseError::MissingRequiredInput(s) => NoiseErrorView::MissingRequiredInput(s@),
        NoiseError::UnexpectedInput(s) => NoiseErrorView::UnexpectedInput(s@),
        NoiseError::ConstantNotFound(s) => NoiseErrorView::ConstantNotFound(s@),
        NoiseError::InvalidConstantValue(s, d) => NoiseErrorView::InvalidConstantValue(s@, d@),
        NoiseError::UnresolvedConstant(s) => NoiseErrorView::UnresolvedConstant(s@),
        NoiseError::TemplateNotFound(s) => NoiseErrorView::TemplateNotFound(s@),
        NoiseError::InvalidTemplateStructure(s) => NoiseErrorView::InvalidTemplateStructure(s@),
        NoiseError::MissingTemplateInput(s) => NoiseErrorView::MissingTemplateInput(s@),
        NoiseError::InvalidTemplateInput(s) => NoiseErrorView::InvalidTemplateInput(s@),
        NoiseError::InvalidTemplateDefinition(s) => NoiseErrorView::InvalidTemplateDefinition(s@),
        NoiseError::IncompatibleNodeTypes(s) => NoiseErrorView::IncompatibleNodeTypes(s@),
        NoiseError::SerializationError(s) => NoiseErrorView::SerializationError(s@),
        NoiseError::DeserializationError(s) => NoiseErrorView::DeserializationError(s@),
        NoiseError::InvalidConversion(s) => NoiseErrorView::InvalidConversion(s@),
        NoiseError::CircularReference(s) => NoiseErrorView::CircularReference(s@),
        NoiseError::MissingOutputNode(s) => NoiseErrorView::MissingOutputNode(s@),
        NoiseError::ValidationFailed(s, d) => NoiseErrorView::ValidationFailed(s@, d@),
        NoiseError::General(s) => NoiseErrorView::General(s@),
        NoiseError::InvalidNodeInstance(s) => NoiseErrorView::InvalidNodeInstance(s@),
    }
}

/// Whether an outcome carries exactly the abstract error a pass prescribes:
/// success when the pass prescribes none, the prescribed error otherwise.
pub open spec fn outcome_matches(r: Result<(), NoiseError>, s: Option<NoiseErrorView>) -> bool {
    match r {
        Ok(_) => s is None,
        Err(e) => s == Some(err_view(e)),
    }
}

/// The rendering of an error as text: a fixed phrase around the names the
/// error carries.
pub open spec fn error_message_spec(e: NoiseError) -> Seq<char> {
    match e {
        NoiseError::InvalidNodeName(s) => "Invalid node name: "@ + s@,
        NoiseError::NodeNotFound(s) => "Node '"@ + s@ + "' not found"@,
        NoiseError::DuplicateNodeName(s) => "Duplicate node name detected: "@ + s@,
        NoiseError::InvalidNodeDefinition(s) => "Invalid node definition: "@ + s@,
        NoiseError::MissingRequiredInput(s) => "Node '"@ + s@ + "' has missing required input"@,
        NoiseError::UnexpectedInput(s) => "Unexpected input provided for node '"@ + s@ + "'"@,
        NoiseError::ConstantNotFound(s) => "Constant '"@ + s@ + "' not found"@,
        NoiseError::InvalidConstantValue(s, d) => "Invalid value for constant '"@ + s@ + "': "@
            + d@,
        NoiseError::UnresolvedConstant(s) => "Unresolved constant reference: "@ + s@,
        NoiseError::TemplateNotFound(s) => "Template '"@ + s@ + "' not found"@,
        NoiseError::InvalidTemplateStructure(s) => "Invalid structure for template '"@ + s@ + "'"@,
        NoiseError::MissingTemplateInput(s) => "Missing input '"@ + s@ + "' for template"@,
        NoiseError::InvalidTemplateInput(s) => "Invalid template input '"@ + s@ + "'"@,
        NoiseError::InvalidTemplateDefinition(s) => "Invalid template definition: "@ + s@,
        NoiseError::IncompatibleNodeTypes(s) => "Incompatible node types for '"@ + s@ + "'"@,
        NoiseError::SerializationError(s) => "Error during serialization: "@ + s@,
        NoiseError::DeserializationError(s) => "Error during deserialization: "@ + s@,
        NoiseError::InvalidConversion(s) => "Invalid conversion attempted: "@ + s@,
        NoiseError::CircularReference(s) => "Circular reference detected involving '"@ + s@ + "'"@,
        NoiseError::MissingOutputNode(s) => "Missing output node: "@ + s@,
        NoiseError::ValidationFailed(s, d) => "Validation failed for '"@ + s@ + "' due to: "@ + d@,
        NoiseError::General(s) => "General error: "@ + s@,
        NoiseError::InvalidNodeInstance(s) => "Invalid node instance reference: "@ + s@,
    }
}

impl NoiseError {
    /// The error as text, for callers that surface failures to authors.
    pub fn message(&self) -> (r: String)
        ensures
            r@ == error_message_spec(*self),
    {
        match self {
            NoiseError::InvalidNodeName(s) => {
                let mut m = "Invalid node name: ".to_owned();
                m.append(s.as_str());
                m
            },
            NoiseError::NodeNotFound(s) => {
                let mut m = "Node '".to_owned();
                m.append(s.as_str());
                m.append("' not found");
                m
            },
            NoiseError::DuplicateNodeName(s) => {
                let mut m = "Duplicate node name detected: ".to_owned();
                m.append(s.as_str());
                m
            },
            NoiseError::InvalidNodeDefinition(s) => {
                let mut m = "Invalid node definition: ".to_owned();
                m.append(s.as_str());
                m
            },
            NoiseError::MissingRequiredInput(s) => {
                let mut m = "Node '".to_owned();
                m.append(s.as_str());
                m.append("' has missing required input");
                m
            },
            NoiseError::UnexpectedInput(s) => {
                let mut m = "Unexpected input provided for node '".to_owned();
                m.append(s.as_str());
                m.append("'");
                m
            },
            NoiseError::ConstantNotFound(s) => {
                let mut m = "Constant '".to_owned();
                m.append(s.as_str());
                m.append("' not found");
                m
            },
            NoiseError::InvalidConstantValue(s, d) => {
                let mut m = "Invalid value for constant '".to_owned();
                m.append(s.as_str());
                m.append("': ");
                m.append(d.as_str());
                m
            },
            NoiseError::UnresolvedConstant(s) => {
                let mut m = "Unresolved constant reference: ".to_owned();
                m.append(s.as_str());
                m
            },
            NoiseError::TemplateNotFound(s) => {
                let mut m = "Template '".to_owned();
                m.append(s.as_str());
                m.append("' not found");
                m
            },
            NoiseError::InvalidTemplateStructure(s) => {
                let mut m = "Invalid structure for template '".to_owned();
                m.append(s.as_str());
                m.append("'");
                m
            },
            NoiseError::MissingTemplateInput(s) => {
                let mut m = "Missing input '".to_owned();
                m.append(s.as_str());
                m.append("' for template");
                m
            },
            NoiseError::InvalidTemplateInput(s) => {
                let mut m = "Invalid template input '".to_owned();
                m.append(s.as_str());
                m.append("'");
                m
            },
            NoiseError::InvalidTemplateDefinition(s) => {
                let mut m = "Invalid template definition: ".to_owned();
                m.append(s.as_str());
                m
            },
            NoiseError::IncompatibleNodeTypes(s) => {
                let mut m = "Incompatible node types for '".to_owned();
                m.append(s.as_str());
                m.append("'");
                m
            },
            NoiseError::SerializationError(s) => {
                let mut m = "Error during serialization: ".to_owned();
                m.append(s.as_str());
                m
            },
            NoiseError::DeserializationError(s) => {
                let mut m = "Error during deserialization: ".to_owned();
                m.append(s.as_str());
                m
            },
            NoiseError::InvalidConversion(s) => {
                let mut m = "Invalid conversion attempted: ".to_owned();
                m.append(s.as_str());
                m
            },
            NoiseError::CircularReference(s) => {
                let mut m = "Circular reference detected involving '".to_owned();
                m.append(s.as_str());
                m.append("'");
                m
            },
            NoiseError::MissingOutputNode(s) => {
                let mut m = "Missing output node: ".to_owned();
                m.append(s.as_str());
                m
            },
            NoiseError::ValidationFailed(s, d) => {
                let mut m = "Validation failed for '".to_owned();
                m.append(s.as_str());
                m.append("' due to: ");
                m.append(d.as_str());
                m
            },
            NoiseError::General(s) => {
                let mut m = "General error: ".to_owned();
                m.append(s.as_str());
                m
            },
            NoiseError::InvalidNodeInstance(s) => {
                let mut m = "Invalid node instance reference: ".to_owned();
                m.append(s.as_str());
                m
            },
        }
    }
}

} // verus!
