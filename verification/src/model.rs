//! Domain types for the four node kinds of the shapes graph (shape,
//! constraint, amendment, profile) and their shared value objects.
//!
//! Open YAML values carried in intent extras, metadata and `source`
//! are held as [`YamlValue`]; open maps keep their entries in key order,
//! as the on-disk maps do.

use vstd::prelude::*;
use crate::ids::{AmendmentId, ConstraintId, ProfileId, ShapeId};

verus! {

/// The variant of an open YAML value.
#[derive(Debug, Clone, Copy, PartialEq, Eq, Structural)]
pub enum YamlKind {
    /// `null`.
    Null,
    /// A boolean.
    Bool,
    /// A number; `integral` when it fits `i64` or `u64`.
    Number {
        /// Whether the number is an integer.
        integral: bool,
    },
    /// A string.
    String,
    /// A sequence.
    Sequence,
    /// A mapping.
    Mapping,
    /// A tagged value.
    Tagged,
}

/// An open YAML value, held as its variant, its text and its canonical
/// text: the string itself for strings; otherwise the YAML rendering as
/// written, and the rendering with the entries of every mapping in key
/// order. Two values are equal exactly when variant and canonical text
/// are, so mappings compare without regard to entry order.
#[derive(Debug, Clone)]
pub struct YamlValue {
    /// Variant of the value.
    pub kind: YamlKind,
    /// String content, or the YAML text as written.
    pub text: String,
    /// String content, or the YAML text with mapping entries in key
    /// order.
    pub canon: String,
}

/// Equality of open values: same variant and same canonical text.
pub open spec fn yaml_same(a: YamlValue, b: YamlValue) -> bool {
    a.kind == b.kind && a.canon@ == b.canon@
}

impl YamlValue {
    /// The string value `s`.
    pub fn string(s: &str) -> (r: YamlValue)
        ensures
            r.kind == YamlKind::String,
            r.text@ == s@,
            r.canon@ == s@,
    {
        YamlValue { kind: YamlKind::String, text: crate::text::owned(s), canon: crate::text::owned(s) }
    }
}

/// One entry of an open string-keyed map.
#[derive(Debug, Clone)]
pub struct MapEntry {
    /// Key.
    pub key: String,
    /// Value.
    pub value: YamlValue,
}

/// Whether an open map holds `key`.
pub open spec fn map_has_key(m: Seq<MapEntry>, key: Seq<char>) -> bool {
    exists|i: int| 0 <= i < m.len() && (#[trigger] m[i]).key@ == key
}

/// Optional metadata attached to a progressive status.
#[derive(Debug, Clone)]
pub struct StatusDetail {
    /// Reason for the transition.
    pub reason: Option<String>,
    /// External URIs documenting the transition.
    pub uris: Vec<String>,
    /// Open metadata.
    pub metadata: Vec<MapEntry>,
}

/// Optional metadata attached to a terminal status, plus successor IDs.
#[derive(Debug, Clone)]
pub struct TerminalDetail {
    /// Reason for the transition.
    pub reason: Option<String>,
    /// External URIs documenting the transition.
    pub uris: Vec<String>,
    /// Successor node IDs (same kind as the owning node).
    pub successors: Vec<u64>,
    /// Open metadata.
    pub metadata: Vec<MapEntry>,
}

/// Lifecycle state of a graph node.
#[derive(Debug, Clone)]
pub enum Status {
    /// Initial draft state — direct edits allowed.
    Proposed(StatusDetail),
    /// Reviewed but not yet ratified.
    Promoted(StatusDetail),
    /// Ratified state — changes require an amendment.
    Canonical(StatusDetail),
    /// Terminally rejected.
    Rejected(TerminalDetail),
    /// Replaced by a successor node.
    Superseded(TerminalDetail),
    /// Abandoned without a replacement.
    Abandoned(TerminalDetail),
    /// Reverted after promotion or canonicalization.
    Reverted(TerminalDetail),
}

/// The lower-case on-disk name of a status.
pub open spec fn status_name(s: Status) -> Seq<char> {
    match s {
        Status::Proposed(_) => "proposed"@,
        Status::Promoted(_) => "promoted"@,
        Status::Canonical(_) => "canonical"@,
        Status::Rejected(_) => "rejected"@,
        Status::Superseded(_) => "superseded"@,
        Status::Abandoned(_) => "abandoned"@,
        Status::Reverted(_) => "reverted"@,
    }
}

/// The empty progressive detail.
pub open spec fn empty_status_detail(d: StatusDetail) -> bool {
    d.reason is None && d.uris@.len() == 0 && d.metadata@.len() == 0
}

impl StatusDetail {
    /// The empty detail.
    pub fn empty() -> (r: Self)
        ensures
            empty_status_detail(r),
    {
        StatusDetail { reason: None, uris: Vec::new(), metadata: Vec::new() }
    }
}

impl Status {
    /// Returns the lower-case status name as it appears on disk.
    pub fn name(&self) -> (r: &'static str)
        ensures
            r@ == status_name(*self),
    {
        match self {
            Status::Proposed(_) => "proposed",
            Status::Promoted(_) => "promoted",
            Status::Canonical(_) => "canonical",
            Status::Rejected(_) => "rejected",
            Status::Superseded(_) => "superseded",
            Status::Abandoned(_) => "abandoned",
            Status::Reverted(_) => "reverted",
        }
    }

    /// A fresh `proposed` status with empty detail.
    pub fn proposed() -> (r: Self)
        ensures
            r matches Status::Proposed(d) && empty_status_detail(d),
    {
        Status::Proposed(StatusDetail::empty())
    }

    /// A fresh `canonical` status with empty detail.
    pub fn canonical() -> (r: Self)
        ensures
            r matches Status::Canonical(d) && empty_status_detail(d),
    {
        Status::Canonical(StatusDetail::empty())
    }

    /// Whether a change to a node in this status must go through an
    /// amendment (`promoted` and `canonical`).
    pub fn requires_amendment_on_change(&self) -> (r: bool)
        ensures
            r == (*self is Promoted || *self is Canonical),
    {
        match self {
            Status::Promoted(_) | Status::Canonical(_) => true,
            _ => false,
        }
    }
}

/// Per-node intent payload.
#[derive(Debug, Clone)]
pub struct Intent {
    /// Domain label such as `feature` or `invariant`.
    pub kind: String,
    /// One-line description.
    pub summary: String,
    /// Origin of the intent — typically `human`, `ai`, or `system`.
    pub source: YamlValue,
    /// External URIs documenting the intent.
    pub uris: Vec<String>,
    /// Profile-defined extra fields, in key order.
    pub extra: Vec<MapEntry>,
}

/// A typed reference to a parent node in a DAG.
#[derive(Debug, Clone)]
pub struct ParentRef<Id> {
    /// The parent's identifier.
    pub id: Id,
    /// Optional role label.
    pub role: Option<String>,
    /// Optional reason for the link.
    pub reason: Option<String>,
}

/// A typed pointer to an artifact outside the graph.
#[derive(Debug, Clone)]
pub struct Binding {
    /// Addressing scheme (`path`, `url`, ...).
    pub scheme: String,
    /// Scheme-specific address.
    pub value: String,
    /// Open metadata.
    pub metadata: Vec<MapEntry>,
}

/// A group of bindings realizing a node, with a role label.
#[derive(Debug, Clone)]
pub struct Realization {
    /// Bindings that together realize the node.
    pub bindings: Vec<Binding>,
    /// Role label (`primary`, `supporting`, `test`, ...).
    pub role: String,
}

/// A piece of evidence that a node's claims hold.
#[derive(Debug, Clone)]
pub struct Evidence {
    /// Freeform identifier within the owning node's evidence list.
    pub id: String,
    /// Evidence kind (`test`, `review`, ...).
    pub evidence_type: String,
    /// Bindings to the underlying artifacts.
    pub bindings: Vec<Binding>,
    /// Whether this evidence is from a trusted source.
    pub trusted: Option<bool>,
    /// Open metadata.
    pub metadata: Vec<MapEntry>,
}

/// A provenance record linking a node to a decision-history artifact.
#[derive(Debug, Clone)]
pub struct Provenance {
    /// Provenance kind (`discussion`, `review`, ...).
    pub provenance_type: String,
    /// Bindings to the underlying artifacts.
    pub bindings: Vec<Binding>,
    /// Open metadata.
    pub metadata: Vec<MapEntry>,
}

/// A child entry of a shape: either a reference by ID or an inline shape.
#[derive(Debug)]
pub struct ShapeChildRef {
    /// The child.
    pub shape: ShapeRef,
    /// Optional role label.
    pub role: Option<String>,
    /// Optional reason for the link.
    pub reason: Option<String>,
}

/// A child shape, by ID or inline.
#[derive(Debug)]
pub enum ShapeRef {
    /// Reference by ID.
    Id(ShapeId),
    /// Inline definition.
    Inline(Box<Shape>),
}

/// The primary "what to build" node.
#[derive(Debug)]
pub struct Shape {
    /// Identifier.
    pub id: ShapeId,
    /// Name.
    pub name: String,
    /// Full description.
    pub description: String,
    /// Governing profile.
    pub profile: Option<ProfileId>,
    /// Version label.
    pub version: Option<String>,
    /// Predecessor shapes.
    pub predecessors: Vec<ShapeId>,
    /// Lifecycle status.
    pub status: Status,
    /// Intent payload.
    pub intent: Intent,
    /// Constraints that apply to this shape.
    pub constraints: Vec<ConstraintId>,
    /// Realization bindings.
    pub realization: Vec<Realization>,
    /// Evidence bindings.
    pub evidence: Vec<Evidence>,
    /// Provenance bindings.
    pub provenance: Vec<Provenance>,
    /// Amendments applied to this shape.
    pub amendment_log: Vec<AmendmentId>,
    /// Parent links.
    pub parents: Vec<ParentRef<ShapeId>>,
    /// Child links.
    pub children: Vec<ShapeChildRef>,
    /// Open metadata.
    pub metadata: Vec<MapEntry>,
}

/// The ID of a shape child entry.
pub open spec fn shape_child_id(c: ShapeChildRef) -> u64 {
    match c.shape {
        ShapeRef::Id(id) => id.0,
        ShapeRef::Inline(s) => s.id.0,
    }
}

/// Parent IDs of a shape, in order.
pub open spec fn shape_parent_ids(s: Shape) -> Seq<u64> {
    s.parents@.map_values(|p: ParentRef<ShapeId>| p.id.0)
}

/// Child IDs of a shape, in order.
pub open spec fn shape_child_ids(s: Shape) -> Seq<u64> {
    s.children@.map_values(|c: ShapeChildRef| shape_child_id(c))
}

/// Constraint IDs of a shape, in order.
pub open spec fn shape_constraint_ids(s: Shape) -> Seq<u64> {
    s.constraints@.map_values(|c: ConstraintId| c.0)
}

impl Shape {
    /// Returns the IDs of every parent recorded in `parents`.
    pub fn parent_ids(&self) -> (r: Vec<ShapeId>)
        ensures
            r@.map_values(|i: ShapeId| i.0) == shape_parent_ids(*self),
    {
        let mut r: Vec<ShapeId> = Vec::new();
        let mut i: usize = 0;
        while i < self.parents.len()
            invariant
                i <= self.parents.len(),
                r@.map_values(|x: ShapeId| x.0) =~= shape_parent_ids(*self).take(i as int),
            decreases self.parents.len() - i,
        {
            let ghost before = r@;
            r.push(self.parents[i].id);
            assert(r@.map_values(|x: ShapeId| x.0) =~= before.map_values(|x: ShapeId| x.0).push(self.parents@[i as int].id.0));
            assert(shape_parent_ids(*self).take(i + 1) =~= shape_parent_ids(*self).take(i as int).push(self.parents@[i as int].id.0));
            i = i + 1;
        }
        assert(shape_parent_ids(*self).take(i as int) =~= shape_parent_ids(*self));
        r
    }

    /// Returns the IDs of every direct child, resolving inline children
    /// to their stored ID.
    pub fn child_ids(&self) -> (r: Vec<ShapeId>)
        ensures
            r@.map_values(|i: ShapeId| i.0) == shape_child_ids(*self),
    {
        let mut r: Vec<ShapeId> = Vec::new();
        let mut i: usize = 0;
        while i < self.children.len()
            invariant
                i <= self.children.len(),
                r@.map_values(|x: ShapeId| x.0) =~= shape_child_ids(*self).take(i as int),
            decreases self.children.len() - i,
        {
            let id = match &self.children[i].shape {
                ShapeRef::Id(id) => *id,
                ShapeRef::Inline(s) => s.id,
            };
            let ghost before = r@;
            r.push(id);
            assert(r@.map_values(|x: ShapeId| x.0) =~= before.map_values(|x: ShapeId| x.0).push(id.0));
            assert(shape_child_ids(*self).take(i + 1) =~= shape_child_ids(*self).take(i as int).push(shape_child_id(self.children@[i as int])));
            i = i + 1;
        }
        assert(shape_child_ids(*self).take(i as int) =~= shape_child_ids(*self));
        r
    }
}

/// Whether a constraint is enforced by humans or by an automated check.
#[derive(Debug, Clone, Copy, PartialEq, Eq, Structural)]
pub enum Enforcement {
    /// Verified by code review or human inspection.
    Manual,
    /// Verified by an automated check.
    Machine,
}

/// A child entry of a constraint: by ID or inline.
#[derive(Debug)]
pub struct ConstraintChildRef {
    /// The child.
    pub constraint: ConstraintRef,
    /// Optional role label.
    pub role: Option<String>,
    /// Optional reason for the link.
    pub reason: Option<String>,
}

/// A child constraint, by ID or inline.
#[derive(Debug)]
pub enum ConstraintRef {
    /// Reference by ID.
    Id(ConstraintId),
    /// Inline definition.
    Inline(Box<Constraint>),
}

/// A strict, falsifiable rule the project must satisfy.
#[derive(Debug)]
pub struct Constraint {
    /// Identifier.
    pub id: ConstraintId,
    /// Name.
    pub name: String,
    /// Full description.
    pub description: String,
    /// Constraint kind (`invariant`, `requirement`, ...).
    pub kind: String,
    /// The rule text.
    pub rule: String,
    /// How the rule is enforced.
    pub enforcement: Enforcement,
    /// Governing profile.
    pub profile: Option<ProfileId>,
    /// Version label.
    pub version: Option<String>,
    /// Lifecycle status.
    pub status: Status,
    /// Intent payload.
    pub intent: Intent,
    /// Realization bindings.
    pub realization: Vec<Realization>,
    /// Evidence bindings.
    pub evidence: Vec<Evidence>,
    /// Provenance bindings.
    pub provenance: Vec<Provenance>,
    /// Amendments applied to this constraint.
    pub amendment_log: Vec<AmendmentId>,
    /// Parent links.
    pub parents: Vec<ParentRef<ConstraintId>>,
    /// Child links.
    pub children: Vec<ConstraintChildRef>,
    /// Open metadata.
    pub metadata: Vec<MapEntry>,
}

/// The ID of a constraint child entry.
pub open spec fn constraint_child_id(c: ConstraintChildRef) -> u64 {
    match c.constraint {
        ConstraintRef::Id(id) => id.0,
        ConstraintRef::Inline(s) => s.id.0,
    }
}

/// Parent IDs of a constraint, in order.
pub open spec fn constraint_parent_ids(c: Constraint) -> Seq<u64> {
    c.parents@.map_values(|p: ParentRef<ConstraintId>| p.id.0)
}

/// Child IDs of a constraint, in order.
pub open spec fn constraint_child_ids(c: Constraint) -> Seq<u64> {
    c.children@.map_values(|x: ConstraintChildRef| constraint_child_id(x))
}

impl Constraint {
    /// Returns the IDs of every parent recorded in `parents`.
    pub fn parent_ids(&self) -> (r: Vec<ConstraintId>)
        ensures
            r@.map_values(|i: ConstraintId| i.0) == constraint_parent_ids(*self),
    {
        let mut r: Vec<ConstraintId> = Vec::new();
        let mut i: usize = 0;
        while i < self.parents.len()
            invariant
                i <= self.parents.len(),
                r@.map_values(|x: ConstraintId| x.0) =~= constraint_parent_ids(*self).take(
                    i as int,
                ),
            decreases self.parents.len() - i,
        {
            let ghost before = r@;
            r.push(self.parents[i].id);
            assert(r@.map_values(|x: ConstraintId| x.0) =~= before.map_values(|x: ConstraintId| x.0).push(self.parents@[i as int].id.0));
            assert(constraint_parent_ids(*self).take(i + 1) =~= constraint_parent_ids(*self).take(i as int).push(self.parents@[i as int].id.0));
            i = i + 1;
        }
        assert(constraint_parent_ids(*self).take(i as int) =~= constraint_parent_ids(*self));
        r
    }

    /// Returns the IDs of every direct child, resolving inline children
    /// to their stored ID.
    pub fn child_ids(&self) -> (r: Vec<ConstraintId>)
        ensures
            r@.map_values(|i: ConstraintId| i.0) == constraint_child_ids(*self),
    {
        let mut r: Vec<ConstraintId> = Vec::new();
        let mut i: usize = 0;
        while i < self.children.len()
            invariant
                i <= self.children.len(),
                r@.map_values(|x: ConstraintId| x.0) =~= constraint_child_ids(*self).take(
                    i as int,
                ),
            decreases self.children.len() - i,
        {
            let id = match &self.children[i].constraint {
                ConstraintRef::Id(id) => *id,
                ConstraintRef::Inline(c) => c.id,
            };
            let ghost before = r@;
            r.push(id);
            assert(r@.map_values(|x: ConstraintId| x.0) =~= before.map_values(|x: ConstraintId| x.0).push(id.0));
            assert(constraint_child_ids(*self).take(i + 1) =~= constraint_child_ids(*self).take(i as int).push(constraint_child_id(self.children@[i as int])));
            i = i + 1;
        }
        assert(constraint_child_ids(*self).take(i as int) =~= constraint_child_ids(*self));
        r
    }
}

/// The nodes an amendment applies to.
#[derive(Debug, Clone)]
pub struct AmendmentTargets {
    /// Target shapes.
    pub shape_ids: Vec<ShapeId>,
    /// Target constraints.
    pub constraint_ids: Vec<ConstraintId>,
    /// Target profiles.
    pub profile_ids: Vec<ProfileId>,
}

impl AmendmentTargets {
    /// Whether the amendment targets nothing at all.
    pub fn is_empty(&self) -> (r: bool)
        ensures
            r == (self.shape_ids@.len() == 0 && self.constraint_ids@.len() == 0
                && self.profile_ids@.len() == 0),
    {
        self.shape_ids.len() == 0 && self.constraint_ids.len() == 0 && self.profile_ids.len()
            == 0
    }
}

/// Who initiated an amendment.
#[derive(Debug, Clone, Copy, PartialEq, Eq, Structural)]
pub enum InitiatedType {
    /// A person.
    Human,
    /// An AI agent.
    Ai,
    /// An automated system.
    System,
}

/// Record of who initiated an amendment.
#[derive(Debug, Clone)]
pub struct InitiatedBy {
    /// Initiator kind.
    pub initiated_type: InitiatedType,
    /// Optional identity of the initiator.
    pub identity: Option<String>,
    /// Optional provenance note.
    pub provenance: Option<String>,
}

/// Semantic version impact of an amendment.
#[derive(Debug, Clone, Copy, PartialEq, Eq, Structural)]
pub enum VersionImpact {
    /// Breaking change.
    Major,
    /// Backwards-compatible addition.
    Minor,
    /// Fix.
    Patch,
}

/// Display-only archival flag of an amendment.
#[derive(Debug, Clone)]
pub enum Archived {
    /// Not archived.
    No,
    /// Archived, with an optional reason.
    Yes(Option<String>),
}

impl Archived {
    /// Archived without a reason.
    pub fn yes() -> (r: Self)
        ensures
            r matches Archived::Yes(None),
    {
        Archived::Yes(None)
    }

    /// Archived with a reason.
    pub fn yes_with_reason(reason: String) -> (r: Self)
        ensures
            r matches Archived::Yes(Some(x)) && x@ == reason@,
    {
        Archived::Yes(Some(reason))
    }
}

/// An immutable change record targeting shapes, constraints, or profiles.
#[derive(Debug, Clone)]
pub struct Amendment {
    /// Identifier.
    pub id: AmendmentId,
    /// Name.
    pub name: String,
    /// Full description.
    pub description: String,
    /// Targets.
    pub targets: AmendmentTargets,
    /// Lifecycle status.
    pub status: Status,
    /// Semantic version impact.
    pub version_impact: Option<VersionImpact>,
    /// Intent payload.
    pub intent: Intent,
    /// Constraints referenced by the amendment.
    pub constraints: Vec<ConstraintId>,
    /// Realization bindings.
    pub realization: Vec<Realization>,
    /// Evidence bindings.
    pub evidence: Vec<Evidence>,
    /// Provenance bindings.
    pub provenance: Vec<Provenance>,
    /// Initiator.
    pub initiated_by: InitiatedBy,
    /// Archival flag.
    pub archived: Archived,
    /// Open metadata.
    pub metadata: Vec<MapEntry>,
}

impl Amendment {
    /// Whether this amendment is archived.
    pub fn is_archived(&self) -> (r: bool)
        ensures
            r == (self.archived is Yes),
    {
        match self.archived {
            Archived::Yes(_) => true,
            Archived::No => false,
        }
    }
}

/// One named status of a lifecycle.
#[derive(Debug, Clone)]
pub struct StatusDef {
    /// Status name.
    pub name: String,
    /// Description.
    pub description: String,
    /// Status type (`progressive`, `terminal`).
    pub status_type: String,
}

/// A gate between two statuses.
#[derive(Debug, Clone)]
pub struct Gate {
    /// Source status.
    pub from: String,
    /// Target status.
    pub to: String,
    /// Preconditions.
    pub preconditions: Vec<String>,
    /// Postconditions.
    pub postconditions: Vec<String>,
}

/// Lifecycle definition: statuses and the gates between them.
#[derive(Debug, Clone)]
pub struct Lifecycle {
    /// Statuses.
    pub statuses: Vec<StatusDef>,
    /// Gates.
    pub gates: Vec<Gate>,
}

/// Declaration of a single profile-defined field (or kind, or source).
#[derive(Debug, Clone)]
pub struct FieldDef {
    /// Name.
    pub name: String,
    /// Description.
    pub description: String,
    /// Declared value type.
    pub field_type: Option<String>,
    /// Whether the field is required.
    pub required: bool,
}

/// Field, kind and source declarations of one section group.
#[derive(Debug, Clone)]
pub struct FieldGroup {
    /// Field declarations.
    pub fields: Vec<FieldDef>,
    /// Kind allow-list (empty = unrestricted).
    pub kinds: Vec<FieldDef>,
    /// Source allow-list (empty = unrestricted).
    pub sources: Vec<FieldDef>,
}

/// Profile rules for one node kind.
#[derive(Debug, Clone)]
pub struct FieldSection {
    /// Default `intent.kind` for new nodes.
    pub default_kind: Option<String>,
    /// Intent rules.
    pub intent: Option<FieldGroup>,
    /// Status rules.
    pub status: Option<FieldGroup>,
    /// Constraint-list rules.
    pub constraints: Option<FieldGroup>,
    /// Per-binding realization metadata rules.
    pub realization: Option<FieldGroup>,
    /// Per-binding evidence metadata rules.
    pub evidence: Option<FieldGroup>,
    /// Per-binding provenance metadata rules.
    pub provenance: Option<FieldGroup>,
    /// Node metadata rules.
    pub metadata: Option<FieldGroup>,
}

/// Profile rules for shapes and constraints.
#[derive(Debug, Clone)]
pub struct ProfileFields {
    /// Rules for shapes.
    pub shape: Option<FieldSection>,
    /// Rules for constraints.
    pub constraint: Option<FieldSection>,
}

/// Versioning configuration for a profile.
#[derive(Debug, Clone)]
pub struct Versioning {
    /// Versioning scheme.
    pub scheme: String,
    /// Bump rules.
    pub bump_rules: Option<String>,
}

/// How amendments apply to canonical nodes.
#[derive(Debug, Clone, Copy, PartialEq, Eq, Structural)]
pub enum AmendmentModel {
    /// Merge.
    Merge,
    /// Overlay.
    Overlay,
    /// Edition.
    Edition,
    /// Append-only.
    AppendOnly,
}

/// Amendment rules of a profile.
#[derive(Debug, Clone)]
pub struct AmendmentRules {
    /// Application model.
    pub application: AmendmentModel,
}

/// Governance configuration node.
#[derive(Debug, Clone)]
pub struct Profile {
    /// Identifier.
    pub id: ProfileId,
    /// Name.
    pub name: String,
    /// Full description.
    pub description: String,
    /// Version label.
    pub version: Option<String>,
    /// Lifecycle status.
    pub status: Status,
    /// Intent payload.
    pub intent: Intent,
    /// Provenance bindings.
    pub provenance: Vec<Provenance>,
    /// Lifecycle definition.
    pub lifecycle: Option<Lifecycle>,
    /// Field rules.
    pub fields: Option<ProfileFields>,
    /// Versioning configuration.
    pub versioning: Option<Versioning>,
    /// Amendment rules.
    pub amendment_rules: Option<AmendmentRules>,
    /// Amendments applied to this profile.
    pub amendment_log: Vec<AmendmentId>,
    /// Open metadata.
    pub metadata: Vec<MapEntry>,
}

} // verus!
