//! The graph schema and the user roles that the service works with.
use vstd::prelude::*;

verus! {

/// The kind of value a property holds.
#[derive(Clone, Copy, PartialEq, Eq, Debug, Structural)]
pub enum PropertyType {
    Number,
    String,
    Boolean,
    Select,
}

/// A property of a node or edge type.
#[derive(Debug)]
pub struct PropertySchema {
    pub key: String,
    pub label: String,
    pub property_type: PropertyType,
    /// The choices of a `Select` property.
    pub options: Option<Vec<String>>,
}

/// A node type or an edge type of the graph.
#[derive(Debug)]
pub struct TypeSchema {
    pub key: String,
    pub label: String,
    pub description: String,
    pub properties: Vec<PropertySchema>,
}

/// The node types and edge types of a graph.
#[derive(Debug)]
pub struct GraphSchema {
    pub nodes: Vec<TypeSchema>,
    pub edges: Vec<TypeSchema>,
}

/// A user's role on a graph.
#[derive(Clone, Copy, PartialEq, Eq, Debug, Structural)]
pub enum Role {
    Owner,
    Admin,
    Editor,
    Viewer,
    NoAccess,
}

pub struct PropertySchemaView {
    pub key: Seq<char>,
    pub label: Seq<char>,
    pub property_type: PropertyType,
    pub options: Option<Seq<Seq<char>>>,
}

pub struct TypeSchemaView {
    pub key: Seq<char>,
    pub label: Seq<char>,
    pub description: Seq<char>,
    pub properties: Seq<PropertySchemaView>,
}

pub struct GraphSchemaView {
    pub nodes: Seq<TypeSchemaView>,
    pub edges: Seq<TypeSchemaView>,
}

impl View for PropertySchema {
    type V = PropertySchemaView;

    open spec fn view(&self) -> PropertySchemaView {
        PropertySchemaView {
            key: self.key@,
            label: self.label@,
            property_type: self.property_type,
            options: match self.options {
                Some(o) => Some(Seq::new(o@.len(), |i: int| o@[i]@)),
                None => None,
            },
        }
    }
}

impl View for TypeSchema {
    type V = TypeSchemaView;

    open spec fn view(&self) -> TypeSchemaView {
        TypeSchemaView {
            key: self.key@,
            label: self.label@,
            description: self.description@,
            properties: Seq::new(self.properties@.len(), |i: int| self.properties@[i]@),
        }
    }
}

impl View for GraphSchema {
    type V = GraphSchemaView;

    open spec fn view(&self) -> GraphSchemaView {
        GraphSchemaView {
            nodes: Seq::new(self.nodes@.len(), |i: int| self.nodes@[i]@),
            edges: Seq::new(self.edges@.len(), |i: int| self.edges@[i]@),
        }
    }
}

/// Owners, admins and editors may change the graph.
pub open spec fn can_write(role: Role) -> bool {
    role == Role::Owner || role == Role::Admin || role == Role::Editor
}

/// Whether `role` may change the graph.
pub fn is_write_role(role: Role) -> (b: bool)
    ensures
        b == can_write(role),
{
    match role {
        Role::Owner | Role::Admin | Role::Editor => true,
        _ => false,
    }
}

} // verus!
