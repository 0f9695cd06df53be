//! Newtype identifiers for the four node kinds, and the runtime tags
//! [`NodeType`] and [`DagType`] that name a kind or one of the two DAGs.

use vstd::prelude::*;

verus! {

/// Identifier for a shape node.
#[derive(Debug, Clone, Copy, PartialEq, Eq, Structural, Hash, PartialOrd, Ord)]
pub struct ShapeId(pub u64);

/// Identifier for a constraint node.
#[derive(Debug, Clone, Copy, PartialEq, Eq, Structural, Hash, PartialOrd, Ord)]
pub struct ConstraintId(pub u64);

/// Identifier for an amendment node.
#[derive(Debug, Clone, Copy, PartialEq, Eq, Structural, Hash, PartialOrd, Ord)]
pub struct AmendmentId(pub u64);

/// Identifier for a profile node.
#[derive(Debug, Clone, Copy, PartialEq, Eq, Structural, Hash, PartialOrd, Ord)]
pub struct ProfileId(pub u64);

impl ShapeId {
    /// Wraps a raw `u64` as a `ShapeId`.
    pub fn new(raw: u64) -> (r: Self)
        ensures
            r.0 == raw,
    {
        ShapeId(raw)
    }

    /// Returns the underlying raw `u64`.
    pub fn get(self) -> (r: u64)
        ensures
            r == self.0,
    {
        self.0
    }
}

impl ConstraintId {
    /// Wraps a raw `u64` as a `ConstraintId`.
    pub fn new(raw: u64) -> (r: Self)
        ensures
            r.0 == raw,
    {
        ConstraintId(raw)
    }

    /// Returns the underlying raw `u64`.
    pub fn get(self) -> (r: u64)
        ensures
            r == self.0,
    {
        self.0
    }
}

impl AmendmentId {
    /// Wraps a raw `u64` as an `AmendmentId`.
    pub fn new(raw: u64) -> (r: Self)
        ensures
            r.0 == raw,
    {
        AmendmentId(raw)
    }

    /// Returns the underlying raw `u64`.
    pub fn get(self) -> (r: u64)
        ensures
            r == self.0,
    {
        self.0
    }
}

impl ProfileId {
    /// Wraps a raw `u64` as a `ProfileId`.
    pub fn new(raw: u64) -> (r: Self)
        ensures
            r.0 == raw,
    {
        ProfileId(raw)
    }

    /// Returns the underlying raw `u64`.
    pub fn get(self) -> (r: u64)
        ensures
            r == self.0,
    {
        self.0
    }
}

/// Discriminator over the four node kinds in the shapes graph.
#[derive(Debug, Clone, Copy, PartialEq, Eq, Structural, Hash)]
pub enum NodeType {
    /// A shape node.
    Shape,
    /// A constraint node.
    Constraint,
    /// An amendment node.
    Amendment,
    /// A profile node.
    Profile,
}

/// The on-disk directory name of each node kind.
pub open spec fn dir_name_of(t: NodeType) -> Seq<char> {
    match t {
        NodeType::Shape => "shapes"@,
        NodeType::Constraint => "constraints"@,
        NodeType::Amendment => "amendments"@,
        NodeType::Profile => "profiles"@,
    }
}

/// The lower-case display name of each node kind.
pub open spec fn type_name_of(t: NodeType) -> Seq<char> {
    match t {
        NodeType::Shape => "shape"@,
        NodeType::Constraint => "constraint"@,
        NodeType::Amendment => "amendment"@,
        NodeType::Profile => "profile"@,
    }
}

impl NodeType {
    /// Returns the directory name (under `.shapes/`) where nodes of this
    /// type are stored.
    pub fn dir_name(&self) -> (r: &'static str)
        ensures
            r@ == dir_name_of(*self),
    {
        match self {
            NodeType::Shape => "shapes",
            NodeType::Constraint => "constraints",
            NodeType::Amendment => "amendments",
            NodeType::Profile => "profiles",
        }
    }

    /// Returns the lower-case name of this node type (`shape`,
    /// `constraint`, `amendment`, `profile`).
    pub fn name(&self) -> (r: &'static str)
        ensures
            r@ == type_name_of(*self),
    {
        match self {
            NodeType::Shape => "shape",
            NodeType::Constraint => "constraint",
            NodeType::Amendment => "amendment",
            NodeType::Profile => "profile",
        }
    }
}

/// Selects which DAG (`shape` or `constraint`) a query operates on.
#[derive(Debug, Clone, Copy, PartialEq, Eq, Structural)]
pub enum DagType {
    /// The shape DAG.
    Shape,
    /// The constraint DAG.
    Constraint,
}

} // verus!
