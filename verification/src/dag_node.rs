//! The DAG-navigable node kinds (shapes and constraints) seen through
//! one interface: their links, constraint references, governing
//! profile, amendment log, and binding holders.

use vstd::prelude::*;
use crate::ids::{AmendmentId, ConstraintId, ShapeId};
use crate::issues::{append_num, append_str};
use crate::text::{dec, owned};
use crate::model::{
    Binding, Constraint, Evidence, Intent, MapEntry, Status, Profile, Provenance, Realization, Shape, constraint_child_ids,
    constraint_parent_ids, shape_child_ids, shape_constraint_ids, shape_parent_ids, status_name,
};

verus! {

/// Raw values of shape ids.
pub fn raw_shape_ids(v: &Vec<ShapeId>) -> (r: Vec<u64>)
    ensures
        r@ == v@.map_values(|x: ShapeId| x.0),
{
    let mut r: Vec<u64> = Vec::new();
    let mut i: usize = 0;
    while i < v.len()
        invariant
            i <= v.len(),
            r@ =~= v@.map_values(|x: ShapeId| x.0).take(i as int),
        decreases v.len() - i,
    {
        r.push(v[i].0);
        i = i + 1;
    }
    r
}

/// Raw values of constraint ids.
pub fn raw_constraint_ids(v: &Vec<ConstraintId>) -> (r: Vec<u64>)
    ensures
        r@ == v@.map_values(|x: ConstraintId| x.0),
{
    let mut r: Vec<u64> = Vec::new();
    let mut i: usize = 0;
    while i < v.len()
        invariant
            i <= v.len(),
            r@ =~= v@.map_values(|x: ConstraintId| x.0).take(i as int),
        decreases v.len() - i,
    {
        r.push(v[i].0);
        i = i + 1;
    }
    r
}

/// Raw values of amendment ids.
pub fn raw_amendment_ids(v: &Vec<AmendmentId>) -> (r: Vec<u64>)
    ensures
        r@ == v@.map_values(|x: AmendmentId| x.0),
{
    let mut r: Vec<u64> = Vec::new();
    let mut i: usize = 0;
    while i < v.len()
        invariant
            i <= v.len(),
            r@ =~= v@.map_values(|x: AmendmentId| x.0).take(i as int),
        decreases v.len() - i,
    {
        r.push(v[i].0);
        i = i + 1;
    }
    r
}

/// A node that carries identity, lifecycle status and intent.
pub trait GraphNode {
    /// The typed identifier of this node kind.
    type Id;

    /// The node's raw identifier.
    spec fn raw_id_spec(&self) -> u64;

    /// The node's name.
    spec fn name_spec(&self) -> Seq<char>;

    /// The node's lifecycle status.
    spec fn status_spec(&self) -> Status;

    /// The node's intent payload.
    spec fn graph_intent_spec(&self) -> Intent;

    /// Returns the raw identifier.
    fn raw_id(&self) -> (r: u64)
        ensures
            r == self.raw_id_spec(),
    ;

    /// Returns the name.
    fn name(&self) -> (r: &str)
        ensures
            r@ == self.name_spec(),
    ;

    /// Returns the lifecycle status.
    fn status(&self) -> (r: &Status)
        ensures
            *r == self.status_spec(),
    ;

    /// Returns the intent payload.
    fn intent(&self) -> (r: &Intent)
        ensures
            *r == self.graph_intent_spec(),
    ;
}

impl GraphNode for Shape {
    type Id = ShapeId;

    open spec fn raw_id_spec(&self) -> u64 {
        self.id.0
    }

    open spec fn name_spec(&self) -> Seq<char> {
        self.name@
    }

    open spec fn status_spec(&self) -> Status {
        self.status
    }

    open spec fn graph_intent_spec(&self) -> Intent {
        self.intent
    }

    fn raw_id(&self) -> (r: u64) {
        self.id.0
    }

    fn name(&self) -> (r: &str) {
        self.name.as_str()
    }

    fn status(&self) -> (r: &Status) {
        &self.status
    }

    fn intent(&self) -> (r: &Intent) {
        &self.intent
    }
}

impl GraphNode for Constraint {
    type Id = ConstraintId;

    open spec fn raw_id_spec(&self) -> u64 {
        self.id.0
    }

    open spec fn name_spec(&self) -> Seq<char> {
        self.name@
    }

    open spec fn status_spec(&self) -> Status {
        self.status
    }

    open spec fn graph_intent_spec(&self) -> Intent {
        self.intent
    }

    fn raw_id(&self) -> (r: u64) {
        self.id.0
    }

    fn name(&self) -> (r: &str) {
        self.name.as_str()
    }

    fn status(&self) -> (r: &Status) {
        &self.status
    }

    fn intent(&self) -> (r: &Intent) {
        &self.intent
    }
}

/// A node of one of the two DAGs.
pub trait DagNode: Sized {
    /// Parent ids, in order.
    spec fn parents_spec(&self) -> Seq<u64>;

    /// Child ids, in order (inline children by their stored id).
    spec fn children_spec(&self) -> Seq<u64>;

    /// Directly attached constraint ids (none for constraints).
    spec fn constraints_spec(&self) -> Seq<u64>;

    /// Governing profile id.
    spec fn profile_spec(&self) -> Option<u64>;

    /// Intent payload.
    spec fn intent_spec(&self) -> Intent;

    /// Open metadata.
    spec fn metadata_spec(&self) -> Seq<MapEntry>;

    /// Realization bindings.
    spec fn realization_spec(&self) -> Seq<Realization>;

    /// Evidence bindings.
    spec fn evidence_spec(&self) -> Seq<Evidence>;

    /// Provenance bindings.
    spec fn provenance_spec(&self) -> Seq<Provenance>;

    /// The one-line label of the node in a tree view.
    spec fn label_spec(&self) -> Seq<char>;

    /// Parent ids.
    fn parent_list(&self) -> (r: Vec<u64>)
        ensures
            r@ == self.parents_spec(),
    ;

    /// Child ids.
    fn child_list(&self) -> (r: Vec<u64>)
        ensures
            r@ == self.children_spec(),
    ;

    /// Attached constraint ids.
    fn constraint_list(&self) -> (r: Vec<u64>)
        ensures
            r@ == self.constraints_spec(),
    ;

    /// Governing profile id.
    fn profile_ref(&self) -> (r: Option<u64>)
        ensures
            r == self.profile_spec(),
    ;

    /// Intent payload.
    fn intent_ref(&self) -> (r: &Intent)
        ensures
            *r == self.intent_spec(),
    ;

    /// Open metadata.
    fn metadata_ref(&self) -> (r: &Vec<MapEntry>)
        ensures
            r@ == self.metadata_spec(),
    ;

    /// Realization bindings.
    fn realization_ref(&self) -> (r: &Vec<Realization>)
        ensures
            r@ == self.realization_spec(),
    ;

    /// Evidence bindings.
    fn evidence_ref(&self) -> (r: &Vec<Evidence>)
        ensures
            r@ == self.evidence_spec(),
    ;

    /// Provenance bindings.
    fn provenance_ref(&self) -> (r: &Vec<Provenance>)
        ensures
            r@ == self.provenance_spec(),
    ;

    /// The one-line label of the node in a tree view.
    fn tree_label(&self) -> (r: String)
        ensures
            r@ == self.label_spec(),
    ;
}

impl DagNode for Shape {
    open spec fn parents_spec(&self) -> Seq<u64> {
        shape_parent_ids(*self)
    }

    open spec fn children_spec(&self) -> Seq<u64> {
        shape_child_ids(*self)
    }

    open spec fn constraints_spec(&self) -> Seq<u64> {
        shape_constraint_ids(*self)
    }

    open spec fn profile_spec(&self) -> Option<u64> {
        match self.profile {
            Some(p) => Some(p.0),
            None => None,
        }
    }

    open spec fn intent_spec(&self) -> Intent {
        self.intent
    }

    open spec fn metadata_spec(&self) -> Seq<MapEntry> {
        self.metadata@
    }

    open spec fn realization_spec(&self) -> Seq<Realization> {
        self.realization@
    }

    open spec fn evidence_spec(&self) -> Seq<Evidence> {
        self.evidence@
    }

    open spec fn provenance_spec(&self) -> Seq<Provenance> {
        self.provenance@
    }

    open spec fn label_spec(&self) -> Seq<char> {
        "shape:"@ + dec(self.id.0 as nat) + " "@ + self.name@ + " ["@ + status_name(self.status) + "] kind="@
            + self.intent.kind@
    }

    fn parent_list(&self) -> (r: Vec<u64>) {
        let v = self.parent_ids();
        raw_shape_ids(&v)
    }

    fn child_list(&self) -> (r: Vec<u64>) {
        let v = self.child_ids();
        raw_shape_ids(&v)
    }

    fn constraint_list(&self) -> (r: Vec<u64>) {
        raw_constraint_ids(&self.constraints)
    }

    fn profile_ref(&self) -> (r: Option<u64>) {
        match self.profile {
            Some(p) => Some(p.0),
            None => None,
        }
    }

    fn intent_ref(&self) -> (r: &Intent) {
        &self.intent
    }

    fn metadata_ref(&self) -> (r: &Vec<MapEntry>) {
        &self.metadata
    }

    fn realization_ref(&self) -> (r: &Vec<Realization>) {
        &self.realization
    }

    fn evidence_ref(&self) -> (r: &Vec<Evidence>) {
        &self.evidence
    }

    fn provenance_ref(&self) -> (r: &Vec<Provenance>) {
        &self.provenance
    }

    fn tree_label(&self) -> (r: String) {
        let mut m = owned("shape:");
        append_num(&mut m, self.id.0);
        append_str(&mut m, " ");
        append_str(&mut m, self.name.as_str());
        append_str(&mut m, " [");
        append_str(&mut m, self.status.name());
        append_str(&mut m, "] kind=");
        append_str(&mut m, self.intent.kind.as_str());
        m
    }

}

impl DagNode for Constraint {
    open spec fn parents_spec(&self) -> Seq<u64> {
        constraint_parent_ids(*self)
    }

    open spec fn children_spec(&self) -> Seq<u64> {
        constraint_child_ids(*self)
    }

    open spec fn constraints_spec(&self) -> Seq<u64> {
        Seq::empty()
    }

    open spec fn profile_spec(&self) -> Option<u64> {
        match self.profile {
            Some(p) => Some(p.0),
            None => None,
        }
    }

    open spec fn intent_spec(&self) -> Intent {
        self.intent
    }

    open spec fn metadata_spec(&self) -> Seq<MapEntry> {
        self.metadata@
    }

    open spec fn realization_spec(&self) -> Seq<Realization> {
        self.realization@
    }

    open spec fn evidence_spec(&self) -> Seq<Evidence> {
        self.evidence@
    }

    open spec fn provenance_spec(&self) -> Seq<Provenance> {
        self.provenance@
    }

    open spec fn label_spec(&self) -> Seq<char> {
        "constraint:"@ + dec(self.id.0 as nat) + " "@ + self.name@ + " ["@ + status_name(self.status)
            + "] kind="@ + self.kind@
    }

    fn parent_list(&self) -> (r: Vec<u64>) {
        let v = self.parent_ids();
        raw_constraint_ids(&v)
    }

    fn child_list(&self) -> (r: Vec<u64>) {
        let v = self.child_ids();
        raw_constraint_ids(&v)
    }

    fn constraint_list(&self) -> (r: Vec<u64>) {
        Vec::new()
    }

    fn profile_ref(&self) -> (r: Option<u64>) {
        match self.profile {
            Some(p) => Some(p.0),
            None => None,
        }
    }

    fn intent_ref(&self) -> (r: &Intent) {
        &self.intent
    }

    fn metadata_ref(&self) -> (r: &Vec<MapEntry>) {
        &self.metadata
    }

    fn realization_ref(&self) -> (r: &Vec<Realization>) {
        &self.realization
    }

    fn evidence_ref(&self) -> (r: &Vec<Evidence>) {
        &self.evidence
    }

    fn provenance_ref(&self) -> (r: &Vec<Provenance>) {
        &self.provenance
    }

    fn tree_label(&self) -> (r: String) {
        let mut m = owned("constraint:");
        append_num(&mut m, self.id.0);
        append_str(&mut m, " ");
        append_str(&mut m, self.name.as_str());
        append_str(&mut m, " [");
        append_str(&mut m, self.status.name());
        append_str(&mut m, "] kind=");
        append_str(&mut m, self.kind.as_str());
        m
    }

}

/// A node kind that keeps an amendment log.
pub trait HasLog: Sized {
    /// Amendment log ids, in order.
    spec fn log_spec(&self) -> Seq<u64>;

    /// Amendment log ids.
    fn log_list(&self) -> (r: Vec<u64>)
        ensures
            r@ == self.log_spec(),
    ;
}

impl HasLog for Shape {
    open spec fn log_spec(&self) -> Seq<u64> {
        self.amendment_log@.map_values(|x: AmendmentId| x.0)
    }

    fn log_list(&self) -> (r: Vec<u64>) {
        raw_amendment_ids(&self.amendment_log)
    }
}

impl HasLog for Constraint {
    open spec fn log_spec(&self) -> Seq<u64> {
        self.amendment_log@.map_values(|x: AmendmentId| x.0)
    }

    fn log_list(&self) -> (r: Vec<u64>) {
        raw_amendment_ids(&self.amendment_log)
    }
}

impl HasLog for Profile {
    open spec fn log_spec(&self) -> Seq<u64> {
        self.amendment_log@.map_values(|x: AmendmentId| x.0)
    }

    fn log_list(&self) -> (r: Vec<u64>) {
        raw_amendment_ids(&self.amendment_log)
    }
}

/// A record that groups bindings (realization, evidence, provenance).
pub trait HoldsBindings: Sized {
    /// The bindings, in order.
    spec fn bindings_spec(&self) -> Seq<Binding>;

    /// The bindings.
    fn bindings_ref(&self) -> (r: &Vec<Binding>)
        ensures
            r@ == self.bindings_spec(),
    ;
}

impl HoldsBindings for Realization {
    open spec fn bindings_spec(&self) -> Seq<Binding> {
        self.bindings@
    }

    fn bindings_ref(&self) -> (r: &Vec<Binding>) {
        &self.bindings
    }
}

impl HoldsBindings for Evidence {
    open spec fn bindings_spec(&self) -> Seq<Binding> {
        self.bindings@
    }

    fn bindings_ref(&self) -> (r: &Vec<Binding>) {
        &self.bindings
    }
}

impl HoldsBindings for Provenance {
    open spec fn bindings_spec(&self) -> Seq<Binding> {
        self.bindings@
    }

    fn bindings_ref(&self) -> (r: &Vec<Binding>) {
        &self.bindings
    }
}

} // verus!
