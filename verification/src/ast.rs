//! Syntax tree model: the node types that the parser produces and the
//! completion engine reads, together with their mathematical views.
//!
//! Every node type has a view function mapping it to a ghost counterpart in
//! which strings are `Seq<char>` and vectors are `Seq`; all contracts in this
//! crate are stated over those views.

use vstd::prelude::*;

verus! {

broadcast use vstd::seq::axiom_seq_index_decreases, vstd::seq::axiom_seq_subrange_decreases,
    vstd::std_specs::vec::axiom_vec_decreases_to_view;

/// Whether a declaration is visible outside its module; `Private` when no
/// modifier is written in the source.
#[derive(Clone, Copy, Debug, PartialEq, Eq, Structural)]
pub enum Visibility {
    Public,
    Private,
}

/// Any node of the syntax tree.
#[derive(Debug)]
pub enum AstNode {
    Module(ModuleNode),
    Function(FunctionNode),
    Service(ServiceNode),
    Variable(VariableNode),
    Type(TypeNode),
}

/// Root node of one parsed source unit: its imports followed by its
/// top-level declarations, in source order.
#[derive(Debug)]
pub struct ModuleNode {
    pub imports: Vec<ImportNode>,
    pub declarations: Vec<AstNode>,
}

/// A module import: a slash-joined qualified path and an optional alias.
#[derive(Debug)]
pub struct ImportNode {
    pub path: String,
    pub alias: Option<String>,
}

/// A function declaration; its body currently holds only variable statements.
#[derive(Debug)]
pub struct FunctionNode {
    pub name: String,
    pub params: Vec<ParameterNode>,
    pub return_type: Option<TypeNode>,
    pub body: Vec<AstNode>,
    pub visibility: Visibility,
}

/// A service declaration: its endpoint identifiers and its resource
/// functions.
#[derive(Debug)]
pub struct ServiceNode {
    pub name: String,
    pub endpoints: Vec<String>,
    pub resources: Vec<FunctionNode>,
}

/// One parameter of a function: a name and its required type.
#[derive(Debug)]
pub struct ParameterNode {
    pub name: String,
    pub param_type: TypeNode,
}

/// A type expression: a base name plus independent array (`[]`) and
/// optional (`?`) markers.
#[derive(Debug)]
pub struct TypeNode {
    pub name: String,
    pub is_array: bool,
    pub is_optional: bool,
}

/// A variable declaration; the initializer, when present, is the placeholder
/// node the grammar currently produces for a bare identifier reference.
#[derive(Debug)]
pub struct VariableNode {
    pub name: String,
    pub var_type: TypeNode,
    pub initializer: Option<Box<AstNode>>,
}

/// View of `TypeNode`.
pub struct TypeV {
    pub name: Seq<char>,
    pub is_array: bool,
    pub is_optional: bool,
}

/// View of `ImportNode`.
pub struct ImportV {
    pub path: Seq<char>,
    pub alias: Option<Seq<char>>,
}

/// View of `ParameterNode`.
pub struct ParameterV {
    pub name: Seq<char>,
    pub param_type: TypeV,
}

/// View of `VariableNode`.
pub struct VariableV {
    pub name: Seq<char>,
    pub var_type: TypeV,
    pub initializer: Option<Box<AstV>>,
}

/// View of `FunctionNode`.
pub struct FunctionV {
    pub name: Seq<char>,
    pub params: Seq<ParameterV>,
    pub return_type: Option<TypeV>,
    pub body: Seq<AstV>,
    pub visibility: Visibility,
}

/// View of `ServiceNode`.
pub struct ServiceV {
    pub name: Seq<char>,
    pub endpoints: Seq<Seq<char>>,
    pub resources: Seq<FunctionV>,
}

/// View of `ModuleNode`.
pub struct ModuleV {
    pub imports: Seq<ImportV>,
    pub declarations: Seq<AstV>,
}

/// View of `AstNode`.
pub enum AstV {
    Module(ModuleV),
    Function(FunctionV),
    Service(ServiceV),
    Variable(VariableV),
    Type(TypeV),
}

pub open spec fn type_view(t: TypeNode) -> TypeV {
    TypeV { name: t.name@, is_array: t.is_array, is_optional: t.is_optional }
}

pub open spec fn import_view(i: ImportNode) -> ImportV {
    ImportV {
        path: i.path@,
        alias: match i.alias {
            Some(a) => Some(a@),
            None => None,
        },
    }
}

pub open spec fn parameter_view(p: ParameterNode) -> ParameterV {
    ParameterV { name: p.name@, param_type: type_view(p.param_type) }
}

pub open spec fn imports_view(v: Seq<ImportNode>) -> Seq<ImportV> {
    Seq::new(v.len(), |i: int| import_view(v[i]))
}

pub open spec fn parameters_view(v: Seq<ParameterNode>) -> Seq<ParameterV> {
    Seq::new(v.len(), |i: int| parameter_view(v[i]))
}

pub open spec fn strings_view(v: Seq<String>) -> Seq<Seq<char>> {
    Seq::new(v.len(), |i: int| v[i]@)
}

pub open spec fn asts_view(v: Seq<AstNode>) -> Seq<AstV>
    decreases v,
{
    if v.len() == 0 {
        Seq::empty()
    } else {
        seq![ast_view(v[0])] + asts_view(v.subrange(1, v.len() as int))
    }
}

pub open spec fn functions_view(v: Seq<FunctionNode>) -> Seq<FunctionV>
    decreases v,
{
    if v.len() == 0 {
        Seq::empty()
    } else {
        seq![function_view(v[0])] + functions_view(v.subrange(1, v.len() as int))
    }
}

pub open spec fn ast_view(n: AstNode) -> AstV
    decreases n,
{
    match n {
        AstNode::Module(m) => AstV::Module(module_view(m)),
        AstNode::Function(f) => AstV::Function(function_view(f)),
        AstNode::Service(s) => AstV::Service(service_view(s)),
        AstNode::Variable(v) => AstV::Variable(variable_view(v)),
        AstNode::Type(t) => AstV::Type(type_view(t)),
    }
}

pub open spec fn module_view(m: ModuleNode) -> ModuleV
    decreases m,
{
    ModuleV {
        imports: imports_view(m.imports@),
        declarations: asts_view(m.declarations@),
    }
}

pub open spec fn function_view(f: FunctionNode) -> FunctionV
    decreases f,
{
    FunctionV {
        name: f.name@,
        params: parameters_view(f.params@),
        return_type: match f.return_type {
            Some(t) => Some(type_view(t)),
            None => None,
        },
        body: asts_view(f.body@),
        visibility: f.visibility,
    }
}

pub open spec fn service_view(s: ServiceNode) -> ServiceV
    decreases s,
{
    ServiceV {
        name: s.name@,
        endpoints: strings_view(s.endpoints@),
        resources: functions_view(s.resources@),
    }
}

pub open spec fn variable_view(v: VariableNode) -> VariableV
    decreases v,
{
    VariableV {
        name: v.name@,
        var_type: type_view(v.var_type),
        initializer: match v.initializer {
            Some(b) => Some(Box::new(ast_view(*b))),
            None => None,
        },
    }
}

/// Unfolding lemma for `functions_view`: the view of each element, by index.
pub proof fn lemma_functions_view_index(v: Seq<FunctionNode>, i: int)
    requires
        0 <= i < v.len(),
    ensures
        functions_view(v).len() == v.len(),
        functions_view(v)[i] == function_view(v[i]),
    decreases v,
{
    lemma_functions_view_len(v);
    if i > 0 {
        lemma_functions_view_index(v.subrange(1, v.len() as int), i - 1);
    }
}

pub proof fn lemma_functions_view_len(v: Seq<FunctionNode>)
    ensures
        functions_view(v).len() == v.len(),
    decreases v,
{
    if v.len() > 0 {
        lemma_functions_view_len(v.subrange(1, v.len() as int));
    }
}

} // verus!
