//! Structural equality of model values: two values are the same when
//! every field is, strings compared by their characters and lists
//! element by element. This is the equality the change checks of
//! `ci-check` use to tell an edited node from an untouched one.

use vstd::prelude::*;
use crate::ids::{AmendmentId, ConstraintId, ProfileId, ShapeId};
use crate::model::{
    Amendment, AmendmentModel, Constraint, ConstraintChildRef, ConstraintRef, Shape,
    ShapeChildRef, ShapeRef, AmendmentRules, AmendmentTargets, Archived, Binding,
    Enforcement, Evidence, FieldDef, FieldGroup, FieldSection, Gate, InitiatedBy,
    InitiatedType, Intent, Lifecycle, MapEntry, ParentRef, Profile, ProfileFields, Provenance,
    Realization, Status, StatusDef, StatusDetail, TerminalDetail, VersionImpact, Versioning,
    YamlValue, yaml_same,
};
use crate::profile_checks::same_text;

verus! {

/// Field-by-field equality.
pub trait Same: Sized {
    /// Whether `self` and `other` are the same value.
    spec fn same(&self, other: &Self) -> bool;

    /// Decides [`Same::same`].
    fn same_as(&self, other: &Self) -> (r: bool)
        ensures
            r == self.same(other),
    ;

    /// Every value is the same as itself.
    proof fn same_refl(&self)
        ensures
            self.same(self),
    ;
}

impl Same for String {
    open spec fn same(&self, other: &Self) -> bool {
        self@ == other@
    }

    fn same_as(&self, other: &Self) -> (r: bool) {
        same_text(self.as_str(), other.as_str())
    }

    proof fn same_refl(&self) {
    }
}

impl Same for bool {
    open spec fn same(&self, other: &Self) -> bool {
        *self == *other
    }

    fn same_as(&self, other: &Self) -> (r: bool) {
        *self == *other
    }

    proof fn same_refl(&self) {
    }
}

impl Same for u64 {
    open spec fn same(&self, other: &Self) -> bool {
        *self == *other
    }

    fn same_as(&self, other: &Self) -> (r: bool) {
        *self == *other
    }

    proof fn same_refl(&self) {
    }
}

impl Same for ShapeId {
    open spec fn same(&self, other: &Self) -> bool {
        self.0 == other.0
    }

    fn same_as(&self, other: &Self) -> (r: bool) {
        self.0 == other.0
    }

    proof fn same_refl(&self) {
    }
}

impl Same for ConstraintId {
    open spec fn same(&self, other: &Self) -> bool {
        self.0 == other.0
    }

    fn same_as(&self, other: &Self) -> (r: bool) {
        self.0 == other.0
    }

    proof fn same_refl(&self) {
    }
}

impl Same for ProfileId {
    open spec fn same(&self, other: &Self) -> bool {
        self.0 == other.0
    }

    fn same_as(&self, other: &Self) -> (r: bool) {
        self.0 == other.0
    }

    proof fn same_refl(&self) {
    }
}

impl Same for AmendmentId {
    open spec fn same(&self, other: &Self) -> bool {
        self.0 == other.0
    }

    fn same_as(&self, other: &Self) -> (r: bool) {
        self.0 == other.0
    }

    proof fn same_refl(&self) {
    }
}

/// Two sequences are the same when they have the same length and are
/// the same element by element.
pub open spec fn seq_same<T: Same>(a: Seq<T>, b: Seq<T>) -> bool {
    &&& a.len() == b.len()
    &&& forall|i: int| 0 <= i < a.len() ==> (#[trigger] a[i]).same(&b[i])
}

impl<T: Same> Same for Vec<T> {
    open spec fn same(&self, other: &Self) -> bool {
        seq_same(self@, other@)
    }

    fn same_as(&self, other: &Self) -> (r: bool) {
        if self.len() != other.len() {
            return false;
        }
        let mut i: usize = 0;
        while i < self.len()
            invariant
                i <= self@.len(),
                self@.len() == other@.len(),
                forall|k: int| 0 <= k < i ==> (#[trigger] self@[k]).same(&other@[k]),
            decreases self@.len() - i,
        {
            if !self[i].same_as(&other[i]) {
                return false;
            }
            i = i + 1;
        }
        true
    }

    proof fn same_refl(&self) {
        assert forall|i: int| 0 <= i < self@.len() implies (#[trigger] self@[i]).same(&self@[i]) by {
            self@[i].same_refl();
        }
    }
}

/// Two options are the same when both are absent or both hold the
/// same value.
pub open spec fn opt_same<T: Same>(a: Option<T>, b: Option<T>) -> bool {
    match (a, b) {
        (None, None) => true,
        (Some(x), Some(y)) => x.same(&y),
        _ => false,
    }
}

impl<T: Same> Same for Option<T> {
    open spec fn same(&self, other: &Self) -> bool {
        opt_same(*self, *other)
    }

    fn same_as(&self, other: &Self) -> (r: bool) {
        match (self, other) {
            (None, None) => true,
            (Some(x), Some(y)) => x.same_as(y),
            _ => false,
        }
    }

    proof fn same_refl(&self) {
        match *self {
            Some(x) => x.same_refl(),
            None => {},
        }
    }
}

impl Same for YamlValue {
    open spec fn same(&self, other: &Self) -> bool {
        yaml_same(*self, *other)
    }

    fn same_as(&self, other: &Self) -> (r: bool) {
        self.kind == other.kind && same_text(self.canon.as_str(), other.canon.as_str())
    }

    proof fn same_refl(&self) {
    }
}

impl Same for MapEntry {
    open spec fn same(&self, other: &Self) -> bool {
        self.key.same(&other.key) && self.value.same(&other.value)
    }

    fn same_as(&self, other: &Self) -> (r: bool) {
        self.key.same_as(&other.key) && self.value.same_as(&other.value)
    }

    proof fn same_refl(&self) {
        self.key.same_refl();
        self.value.same_refl();
    }
}

impl Same for StatusDetail {
    open spec fn same(&self, other: &Self) -> bool {
        &&& self.reason.same(&other.reason)
        &&& self.uris.same(&other.uris)
        &&& self.metadata.same(&other.metadata)
    }

    fn same_as(&self, other: &Self) -> (r: bool) {
        self.reason.same_as(&other.reason) && self.uris.same_as(&other.uris)
            && self.metadata.same_as(&other.metadata)
    }

    proof fn same_refl(&self) {
        self.reason.same_refl();
        self.uris.same_refl();
        self.metadata.same_refl();
    }
}

impl Same for TerminalDetail {
    open spec fn same(&self, other: &Self) -> bool {
        &&& self.reason.same(&other.reason)
        &&& self.uris.same(&other.uris)
        &&& self.successors.same(&other.successors)
        &&& self.metadata.same(&other.metadata)
    }

    fn same_as(&self, other: &Self) -> (r: bool) {
        self.reason.same_as(&other.reason) && self.uris.same_as(&other.uris)
            && self.successors.same_as(&other.successors) && self.metadata.same_as(
            &other.metadata,
        )
    }

    proof fn same_refl(&self) {
        self.reason.same_refl();
        self.uris.same_refl();
        self.successors.same_refl();
        self.metadata.same_refl();
    }
}

impl Same for Status {
    open spec fn same(&self, other: &Self) -> bool {
        match (*self, *other) {
            (Status::Proposed(x), Status::Proposed(y)) => x.same(&y),
            (Status::Promoted(x), Status::Promoted(y)) => x.same(&y),
            (Status::Canonical(x), Status::Canonical(y)) => x.same(&y),
            (Status::Rejected(x), Status::Rejected(y)) => x.same(&y),
            (Status::Superseded(x), Status::Superseded(y)) => x.same(&y),
            (Status::Abandoned(x), Status::Abandoned(y)) => x.same(&y),
            (Status::Reverted(x), Status::Reverted(y)) => x.same(&y),
            _ => false,
        }
    }

    fn same_as(&self, other: &Self) -> (r: bool) {
        match (self, other) {
            (Status::Proposed(x), Status::Proposed(y)) => x.same_as(y),
            (Status::Promoted(x), Status::Promoted(y)) => x.same_as(y),
            (Status::Canonical(x), Status::Canonical(y)) => x.same_as(y),
            (Status::Rejected(x), Status::Rejected(y)) => x.same_as(y),
            (Status::Superseded(x), Status::Superseded(y)) => x.same_as(y),
            (Status::Abandoned(x), Status::Abandoned(y)) => x.same_as(y),
            (Status::Reverted(x), Status::Reverted(y)) => x.same_as(y),
            _ => false,
        }
    }

    proof fn same_refl(&self) {
        match *self {
            Status::Proposed(x) => x.same_refl(),
            Status::Promoted(x) => x.same_refl(),
            Status::Canonical(x) => x.same_refl(),
            Status::Rejected(x) => x.same_refl(),
            Status::Superseded(x) => x.same_refl(),
            Status::Abandoned(x) => x.same_refl(),
            Status::Reverted(x) => x.same_refl(),
        }
    }
}

impl Same for Intent {
    open spec fn same(&self, other: &Self) -> bool {
        &&& self.kind.same(&other.kind)
        &&& self.summary.same(&other.summary)
        &&& self.source.same(&other.source)
        &&& self.uris.same(&other.uris)
        &&& self.extra.same(&other.extra)
    }

    fn same_as(&self, other: &Self) -> (r: bool) {
        self.kind.same_as(&other.kind) && self.summary.same_as(&other.summary)
            && self.source.same_as(&other.source) && self.uris.same_as(&other.uris)
            && self.extra.same_as(&other.extra)
    }

    proof fn same_refl(&self) {
        self.kind.same_refl();
        self.summary.same_refl();
        self.source.same_refl();
        self.uris.same_refl();
        self.extra.same_refl();
    }
}

impl<Id: Same> Same for ParentRef<Id> {
    open spec fn same(&self, other: &Self) -> bool {
        &&& self.id.same(&other.id)
        &&& self.role.same(&other.role)
        &&& self.reason.same(&other.reason)
    }

    fn same_as(&self, other: &Self) -> (r: bool) {
        self.id.same_as(&other.id) && self.role.same_as(&other.role) && self.reason.same_as(
            &other.reason,
        )
    }

    proof fn same_refl(&self) {
        self.id.same_refl();
        self.role.same_refl();
        self.reason.same_refl();
    }
}

impl Same for Binding {
    open spec fn same(&self, other: &Self) -> bool {
        &&& self.scheme.same(&other.scheme)
        &&& self.value.same(&other.value)
        &&& self.metadata.same(&other.metadata)
    }

    fn same_as(&self, other: &Self) -> (r: bool) {
        self.scheme.same_as(&other.scheme) && self.value.same_as(&other.value)
            && self.metadata.same_as(&other.metadata)
    }

    proof fn same_refl(&self) {
        self.scheme.same_refl();
        self.value.same_refl();
        self.metadata.same_refl();
    }
}

impl Same for Realization {
    open spec fn same(&self, other: &Self) -> bool {
        self.bindings.same(&other.bindings) && self.role.same(&other.role)
    }

    fn same_as(&self, other: &Self) -> (r: bool) {
        self.bindings.same_as(&other.bindings) && self.role.same_as(&other.role)
    }

    proof fn same_refl(&self) {
        self.bindings.same_refl();
        self.role.same_refl();
    }
}

impl Same for Evidence {
    open spec fn same(&self, other: &Self) -> bool {
        &&& self.id.same(&other.id)
        &&& self.evidence_type.same(&other.evidence_type)
        &&& self.bindings.same(&other.bindings)
        &&& self.trusted.same(&other.trusted)
        &&& self.metadata.same(&other.metadata)
    }

    fn same_as(&self, other: &Self) -> (r: bool) {
        self.id.same_as(&other.id) && self.evidence_type.same_as(&other.evidence_type)
            && self.bindings.same_as(&other.bindings) && self.trusted.same_as(&other.trusted)
            && self.metadata.same_as(&other.metadata)
    }

    proof fn same_refl(&self) {
        self.id.same_refl();
        self.evidence_type.same_refl();
        self.bindings.same_refl();
        self.trusted.same_refl();
        self.metadata.same_refl();
    }
}

impl Same for Provenance {
    open spec fn same(&self, other: &Self) -> bool {
        &&& self.provenance_type.same(&other.provenance_type)
        &&& self.bindings.same(&other.bindings)
        &&& self.metadata.same(&other.metadata)
    }

    fn same_as(&self, other: &Self) -> (r: bool) {
        self.provenance_type.same_as(&other.provenance_type) && self.bindings.same_as(
            &other.bindings,
        ) && self.metadata.same_as(&other.metadata)
    }

    proof fn same_refl(&self) {
        self.provenance_type.same_refl();
        self.bindings.same_refl();
        self.metadata.same_refl();
    }
}

impl Same for Enforcement {
    open spec fn same(&self, other: &Self) -> bool {
        *self == *other
    }

    fn same_as(&self, other: &Self) -> (r: bool) {
        *self == *other
    }

    proof fn same_refl(&self) {
    }
}

impl Same for VersionImpact {
    open spec fn same(&self, other: &Self) -> bool {
        *self == *other
    }

    fn same_as(&self, other: &Self) -> (r: bool) {
        *self == *other
    }

    proof fn same_refl(&self) {
    }
}

impl Same for InitiatedType {
    open spec fn same(&self, other: &Self) -> bool {
        *self == *other
    }

    fn same_as(&self, other: &Self) -> (r: bool) {
        *self == *other
    }

    proof fn same_refl(&self) {
    }
}

impl Same for AmendmentModel {
    open spec fn same(&self, other: &Self) -> bool {
        *self == *other
    }

    fn same_as(&self, other: &Self) -> (r: bool) {
        *self == *other
    }

    proof fn same_refl(&self) {
    }
}

impl Same for InitiatedBy {
    open spec fn same(&self, other: &Self) -> bool {
        &&& self.initiated_type.same(&other.initiated_type)
        &&& self.identity.same(&other.identity)
        &&& self.provenance.same(&other.provenance)
    }

    fn same_as(&self, other: &Self) -> (r: bool) {
        self.initiated_type.same_as(&other.initiated_type) && self.identity.same_as(&other.identity) && self.provenance.same_as(&other.provenance)
    }

    proof fn same_refl(&self) {
        self.initiated_type.same_refl();
        self.identity.same_refl();
        self.provenance.same_refl();
    }
}

impl Same for Archived {
    open spec fn same(&self, other: &Self) -> bool {
        match (*self, *other) {
            (Archived::No, Archived::No) => true,
            (Archived::Yes(x), Archived::Yes(y)) => x.same(&y),
            _ => false,
        }
    }

    fn same_as(&self, other: &Self) -> (r: bool) {
        match (self, other) {
            (Archived::No, Archived::No) => true,
            (Archived::Yes(x), Archived::Yes(y)) => x.same_as(y),
            _ => false,
        }
    }

    proof fn same_refl(&self) {
        match *self {
            Archived::Yes(x) => x.same_refl(),
            Archived::No => {},
        }
    }
}

impl Same for AmendmentTargets {
    open spec fn same(&self, other: &Self) -> bool {
        &&& self.shape_ids.same(&other.shape_ids)
        &&& self.constraint_ids.same(&other.constraint_ids)
        &&& self.profile_ids.same(&other.profile_ids)
    }

    fn same_as(&self, other: &Self) -> (r: bool) {
        self.shape_ids.same_as(&other.shape_ids) && self.constraint_ids.same_as(&other.constraint_ids) && self.profile_ids.same_as(&other.profile_ids)
    }

    proof fn same_refl(&self) {
        self.shape_ids.same_refl();
        self.constraint_ids.same_refl();
        self.profile_ids.same_refl();
    }
}

impl Same for Amendment {
    open spec fn same(&self, other: &Self) -> bool {
        &&& self.id.same(&other.id)
        &&& self.name.same(&other.name)
        &&& self.description.same(&other.description)
        &&& self.targets.same(&other.targets)
        &&& self.status.same(&other.status)
        &&& self.version_impact.same(&other.version_impact)
        &&& self.intent.same(&other.intent)
        &&& self.constraints.same(&other.constraints)
        &&& self.realization.same(&other.realization)
        &&& self.evidence.same(&other.evidence)
        &&& self.provenance.same(&other.provenance)
        &&& self.initiated_by.same(&other.initiated_by)
        &&& self.archived.same(&other.archived)
        &&& self.metadata.same(&other.metadata)
    }

    fn same_as(&self, other: &Self) -> (r: bool) {
        self.id.same_as(&other.id) && self.name.same_as(&other.name) && self.description.same_as(&other.description) && self.targets.same_as(&other.targets) && self.status.same_as(&other.status) && self.version_impact.same_as(&other.version_impact) && self.intent.same_as(&other.intent) && self.constraints.same_as(&other.constraints) && self.realization.same_as(&other.realization) && self.evidence.same_as(&other.evidence) && self.provenance.same_as(&other.provenance) && self.initiated_by.same_as(&other.initiated_by) && self.archived.same_as(&other.archived) && self.metadata.same_as(&other.metadata)
    }

    proof fn same_refl(&self) {
        self.id.same_refl();
        self.name.same_refl();
        self.description.same_refl();
        self.targets.same_refl();
        self.status.same_refl();
        self.version_impact.same_refl();
        self.intent.same_refl();
        self.constraints.same_refl();
        self.realization.same_refl();
        self.evidence.same_refl();
        self.provenance.same_refl();
        self.initiated_by.same_refl();
        self.archived.same_refl();
        self.metadata.same_refl();
    }
}

impl Same for StatusDef {
    open spec fn same(&self, other: &Self) -> bool {
        &&& self.name.same(&other.name)
        &&& self.description.same(&other.description)
        &&& self.status_type.same(&other.status_type)
    }

    fn same_as(&self, other: &Self) -> (r: bool) {
        self.name.same_as(&other.name) && self.description.same_as(&other.description) && self.status_type.same_as(&other.status_type)
    }

    proof fn same_refl(&self) {
        self.name.same_refl();
        self.description.same_refl();
        self.status_type.same_refl();
    }
}

impl Same for Gate {
    open spec fn same(&self, other: &Self) -> bool {
        &&& self.from.same(&other.from)
        &&& self.to.same(&other.to)
        &&& self.preconditions.same(&other.preconditions)
        &&& self.postconditions.same(&other.postconditions)
    }

    fn same_as(&self, other: &Self) -> (r: bool) {
        self.from.same_as(&other.from) && self.to.same_as(&other.to) && self.preconditions.same_as(&other.preconditions) && self.postconditions.same_as(&other.postconditions)
    }

    proof fn same_refl(&self) {
        self.from.same_refl();
        self.to.same_refl();
        self.preconditions.same_refl();
        self.postconditions.same_refl();
    }
}

impl Same for Lifecycle {
    open spec fn same(&self, other: &Self) -> bool {
        &&& self.statuses.same(&other.statuses)
        &&& self.gates.same(&other.gates)
    }

    fn same_as(&self, other: &Self) -> (r: bool) {
        self.statuses.same_as(&other.statuses) && self.gates.same_as(&other.gates)
    }

    proof fn same_refl(&self) {
        self.statuses.same_refl();
        self.gates.same_refl();
    }
}

impl Same for FieldDef {
    open spec fn same(&self, other: &Self) -> bool {
        &&& self.name.same(&other.name)
        &&& self.description.same(&other.description)
        &&& self.field_type.same(&other.field_type)
        &&& self.required.same(&other.required)
    }

    fn same_as(&self, other: &Self) -> (r: bool) {
        self.name.same_as(&other.name) && self.description.same_as(&other.description) && self.field_type.same_as(&other.field_type) && self.required.same_as(&other.required)
    }

    proof fn same_refl(&self) {
        self.name.same_refl();
        self.description.same_refl();
        self.field_type.same_refl();
        self.required.same_refl();
    }
}

impl Same for FieldGroup {
    open spec fn same(&self, other: &Self) -> bool {
        &&& self.fields.same(&other.fields)
        &&& self.kinds.same(&other.kinds)
        &&& self.sources.same(&other.sources)
    }

    fn same_as(&self, other: &Self) -> (r: bool) {
        self.fields.same_as(&other.fields) && self.kinds.same_as(&other.kinds) && self.sources.same_as(&other.sources)
    }

    proof fn same_refl(&self) {
        self.fields.same_refl();
        self.kinds.same_refl();
        self.sources.same_refl();
    }
}

impl Same for FieldSection {
    open spec fn same(&self, other: &Self) -> bool {
        &&& self.default_kind.same(&other.default_kind)
        &&& self.intent.same(&other.intent)
        &&& self.status.same(&other.status)
        &&& self.constraints.same(&other.constraints)
        &&& self.realization.same(&other.realization)
        &&& self.evidence.same(&other.evidence)
        &&& self.provenance.same(&other.provenance)
        &&& self.metadata.same(&other.metadata)
    }

    fn same_as(&self, other: &Self) -> (r: bool) {
        self.default_kind.same_as(&other.default_kind) && self.intent.same_as(&other.intent) && self.status.same_as(&other.status) && self.constraints.same_as(&other.constraints) && self.realization.same_as(&other.realization) && self.evidence.same_as(&other.evidence) && self.provenance.same_as(&other.provenance) && self.metadata.same_as(&other.metadata)
    }

    proof fn same_refl(&self) {
        self.default_kind.same_refl();
        self.intent.same_refl();
        self.status.same_refl();
        self.constraints.same_refl();
        self.realization.same_refl();
        self.evidence.same_refl();
        self.provenance.same_refl();
        self.metadata.same_refl();
    }
}

impl Same for ProfileFields {
    open spec fn same(&self, other: &Self) -> bool {
        &&& self.shape.same(&other.shape)
        &&& self.constraint.same(&other.constraint)
    }

    fn same_as(&self, other: &Self) -> (r: bool) {
        self.shape.same_as(&other.shape) && self.constraint.same_as(&other.constraint)
    }

    proof fn same_refl(&self) {
        self.shape.same_refl();
        self.constraint.same_refl();
    }
}

impl Same for Versioning {
    open spec fn same(&self, other: &Self) -> bool {
        &&& self.scheme.same(&other.scheme)
        &&& self.bump_rules.same(&other.bump_rules)
    }

    fn same_as(&self, other: &Self) -> (r: bool) {
        self.scheme.same_as(&other.scheme) && self.bump_rules.same_as(&other.bump_rules)
    }

    proof fn same_refl(&self) {
        self.scheme.same_refl();
        self.bump_rules.same_refl();
    }
}

impl Same for AmendmentRules {
    open spec fn same(&self, other: &Self) -> bool {
        &&& self.application.same(&other.application)
    }

    fn same_as(&self, other: &Self) -> (r: bool) {
        self.application.same_as(&other.application)
    }

    proof fn same_refl(&self) {
        self.application.same_refl();
    }
}

impl Same for Profile {
    open spec fn same(&self, other: &Self) -> bool {
        &&& self.id.same(&other.id)
        &&& self.name.same(&other.name)
        &&& self.description.same(&other.description)
        &&& self.version.same(&other.version)
        &&& self.status.same(&other.status)
        &&& self.intent.same(&other.intent)
        &&& self.provenance.same(&other.provenance)
        &&& self.lifecycle.same(&other.lifecycle)
        &&& self.fields.same(&other.fields)
        &&& self.versioning.same(&other.versioning)
        &&& self.amendment_rules.same(&other.amendment_rules)
        &&& self.amendment_log.same(&other.amendment_log)
        &&& self.metadata.same(&other.metadata)
    }

    fn same_as(&self, other: &Self) -> (r: bool) {
        self.id.same_as(&other.id) && self.name.same_as(&other.name) && self.description.same_as(&other.description) && self.version.same_as(&other.version) && self.status.same_as(&other.status) && self.intent.same_as(&other.intent) && self.provenance.same_as(&other.provenance) && self.lifecycle.same_as(&other.lifecycle) && self.fields.same_as(&other.fields) && self.versioning.same_as(&other.versioning) && self.amendment_rules.same_as(&other.amendment_rules) && self.amendment_log.same_as(&other.amendment_log) && self.metadata.same_as(&other.metadata)
    }

    proof fn same_refl(&self) {
        self.id.same_refl();
        self.name.same_refl();
        self.description.same_refl();
        self.version.same_refl();
        self.status.same_refl();
        self.intent.same_refl();
        self.provenance.same_refl();
        self.lifecycle.same_refl();
        self.fields.same_refl();
        self.versioning.same_refl();
        self.amendment_rules.same_refl();
        self.amendment_log.same_refl();
        self.metadata.same_refl();
    }
}

/// Whether two shape children are the same: same role and reason, and
/// the same id, or inline shapes that are the same as a whole.
pub open spec fn shape_child_same(a: ShapeChildRef, b: ShapeChildRef) -> bool
    decreases a,
{
    &&& a.role.same(&b.role)
    &&& a.reason.same(&b.reason)
    &&& match (a.shape, b.shape) {
        (ShapeRef::Id(x), ShapeRef::Id(y)) => x == y,
        (ShapeRef::Inline(x), ShapeRef::Inline(y)) => shape_same(*x, *y),
        _ => false,
    }
}

/// Whether two child lists are the same, entry by entry.
pub open spec fn shape_children_same(a: Seq<ShapeChildRef>, b: Seq<ShapeChildRef>) -> bool
    decreases a,
{
    &&& a.len() == b.len()
    &&& forall|i: int| 0 <= i < a.len() ==> shape_child_same(#[trigger] a[i], b[i])
}

/// Whether two shapes are the same in every field.
pub open spec fn shape_same(a: Shape, b: Shape) -> bool
    decreases a,
{
    &&& a.id == b.id
    &&& a.name.same(&b.name)
    &&& a.description.same(&b.description)
    &&& a.profile.same(&b.profile)
    &&& a.version.same(&b.version)
    &&& a.predecessors.same(&b.predecessors)
    &&& a.status.same(&b.status)
    &&& a.intent.same(&b.intent)
    &&& a.constraints.same(&b.constraints)
    &&& a.realization.same(&b.realization)
    &&& a.evidence.same(&b.evidence)
    &&& a.provenance.same(&b.provenance)
    &&& a.amendment_log.same(&b.amendment_log)
    &&& a.parents.same(&b.parents)
    &&& shape_children_same(a.children@, b.children@)
    &&& a.metadata.same(&b.metadata)
}

/// Decides [`shape_children_same`].
pub fn shape_children_same_exec(a: &Vec<ShapeChildRef>, b: &Vec<ShapeChildRef>) -> (r: bool)
    ensures
        r == shape_children_same(a@, b@),
    decreases a,
{
    if a.len() != b.len() {
        return false;
    }
    let mut i: usize = 0;
    while i < a.len()
        invariant
            i <= a@.len(),
            a@.len() == b@.len(),
            forall|k: int| 0 <= k < i ==> shape_child_same(#[trigger] a@[k], b@[k]),
        decreases a@.len() - i,
    {
        let ca = &a[i];
        let cb = &b[i];
        let same_ref = match (&ca.shape, &cb.shape) {
            (ShapeRef::Id(x), ShapeRef::Id(y)) => x.0 == y.0,
            (ShapeRef::Inline(x), ShapeRef::Inline(y)) => shape_same_exec(x, y),
            _ => false,
        };
        if !(ca.role.same_as(&cb.role) && ca.reason.same_as(&cb.reason) && same_ref) {
            return false;
        }
        i = i + 1;
    }
    true
}

/// Decides [`shape_same`].
pub fn shape_same_exec(a: &Shape, b: &Shape) -> (r: bool)
    ensures
        r == shape_same(*a, *b),
    decreases a,
{
    a.id.0 == b.id.0 && a.name.same_as(&b.name) && a.description.same_as(&b.description)
        && a.profile.same_as(&b.profile) && a.version.same_as(&b.version)
        && a.predecessors.same_as(&b.predecessors) && a.status.same_as(&b.status)
        && a.intent.same_as(&b.intent) && a.constraints.same_as(&b.constraints)
        && a.realization.same_as(&b.realization) && a.evidence.same_as(&b.evidence)
        && a.provenance.same_as(&b.provenance) && a.amendment_log.same_as(&b.amendment_log)
        && a.parents.same_as(&b.parents) && shape_children_same_exec(&a.children, &b.children)
        && a.metadata.same_as(&b.metadata)
}

/// Whether two constraint children are the same: same role and reason, and
/// the same id, or inline constraints that are the same as a whole.
pub open spec fn constraint_child_same(a: ConstraintChildRef, b: ConstraintChildRef) -> bool
    decreases a,
{
    &&& a.role.same(&b.role)
    &&& a.reason.same(&b.reason)
    &&& match (a.constraint, b.constraint) {
        (ConstraintRef::Id(x), ConstraintRef::Id(y)) => x == y,
        (ConstraintRef::Inline(x), ConstraintRef::Inline(y)) => constraint_same(*x, *y),
        _ => false,
    }
}

/// Whether two child lists are the same, entry by entry.
pub open spec fn constraint_children_same(a: Seq<ConstraintChildRef>, b: Seq<ConstraintChildRef>) -> bool
    decreases a,
{
    &&& a.len() == b.len()
    &&& forall|i: int| 0 <= i < a.len() ==> constraint_child_same(#[trigger] a[i], b[i])
}

/// Whether two constraints are the same in every field.
pub open spec fn constraint_same(a: Constraint, b: Constraint) -> bool
    decreases a,
{
    &&& a.id == b.id
    &&& a.name.same(&b.name)
    &&& a.description.same(&b.description)
    &&& a.kind.same(&b.kind)
    &&& a.rule.same(&b.rule)
    &&& a.enforcement.same(&b.enforcement)
    &&& a.profile.same(&b.profile)
    &&& a.version.same(&b.version)
    &&& a.status.same(&b.status)
    &&& a.intent.same(&b.intent)
    &&& a.realization.same(&b.realization)
    &&& a.evidence.same(&b.evidence)
    &&& a.provenance.same(&b.provenance)
    &&& a.amendment_log.same(&b.amendment_log)
    &&& a.parents.same(&b.parents)
    &&& constraint_children_same(a.children@, b.children@)
    &&& a.metadata.same(&b.metadata)
}

/// Decides [`constraint_children_same`].
pub fn constraint_children_same_exec(a: &Vec<ConstraintChildRef>, b: &Vec<ConstraintChildRef>) -> (r: bool)
    ensures
        r == constraint_children_same(a@, b@),
    decreases a,
{
    if a.len() != b.len() {
        return false;
    }
    let mut i: usize = 0;
    while i < a.len()
        invariant
            i <= a@.len(),
            a@.len() == b@.len(),
            forall|k: int| 0 <= k < i ==> constraint_child_same(#[trigger] a@[k], b@[k]),
        decreases a@.len() - i,
    {
        let ca = &a[i];
        let cb = &b[i];
        let same_ref = match (&ca.constraint, &cb.constraint) {
            (ConstraintRef::Id(x), ConstraintRef::Id(y)) => x.0 == y.0,
            (ConstraintRef::Inline(x), ConstraintRef::Inline(y)) => constraint_same_exec(x, y),
            _ => false,
        };
        if !(ca.role.same_as(&cb.role) && ca.reason.same_as(&cb.reason) && same_ref) {
            return false;
        }
        i = i + 1;
    }
    true
}

/// Decides [`constraint_same`].
pub fn constraint_same_exec(a: &Constraint, b: &Constraint) -> (r: bool)
    ensures
        r == constraint_same(*a, *b),
    decreases a,
{
    a.id.0 == b.id.0 && a.name.same_as(&b.name) && a.description.same_as(&b.description)
        && a.kind.same_as(&b.kind) && a.rule.same_as(&b.rule)
        && a.enforcement.same_as(&b.enforcement) && a.profile.same_as(&b.profile)
        && a.version.same_as(&b.version) && a.status.same_as(&b.status)
        && a.intent.same_as(&b.intent)
        && a.realization.same_as(&b.realization) && a.evidence.same_as(&b.evidence)
        && a.provenance.same_as(&b.provenance) && a.amendment_log.same_as(&b.amendment_log)
        && a.parents.same_as(&b.parents) && constraint_children_same_exec(&a.children, &b.children)
        && a.metadata.same_as(&b.metadata)
}

} // verus!
