//! The pull-request checks of `ci-check`, decided on the two snapshots
//! of the `.shapes/` tree it compares: the nodes on the base ref and
//! the nodes in the working tree.
//!
//! - CI-001: with `require_shapes_changes`, the change set under the
//!   shapes directory must not be empty.
//! - CI-002: a shape, constraint or profile that is `promoted` or
//!   `canonical` on the base and whose monitored fields changed, or
//!   that was deleted, needs an amendment added in this change that
//!   targets it.
//! - CI-003: amendments are immutable: one present on the base may be
//!   neither deleted nor modified, toggling `archived` aside.
//!
//! Each snapshot is keyed by node id; where two files carry the same
//! id, the later one in the snapshot's file order stands for it.

use vstd::prelude::*;
use crate::ids::{ConstraintId, NodeType, ProfileId, ShapeId, type_name_of};
use crate::error::{CiCheckError, CliError};
use crate::issues::{IssueSpec, Severity, ValidationIssue, err, flat, issues_view, lemma_flat_step, lemma_flat_whole, push_err};
use crate::model::{Amendment, Archived, Constraint, Profile, Shape, Status, status_name};
use crate::same::{
    Same, constraint_children_same, constraint_children_same_exec, shape_children_same,
    shape_children_same_exec,
};
use crate::sorting::{ascending, insert_unique, lemma_sorted_u64_props, sort_ids, strictly_ascending};
use crate::text::dec;
use crate::walk::contains_id;

verus! {

/// A node of a snapshot, known by its raw id.
pub trait Keyed: Sized {
    /// The raw id.
    spec fn key(&self) -> u64;

    /// Returns [`Keyed::key`].
    fn key_of(&self) -> (r: u64)
        ensures
            r == self.key(),
    ;
}

/// Whether some node of `s` has id `x`.
pub open spec fn has_key<T: Keyed>(s: Seq<T>, x: u64) -> bool {
    exists|i: int| 0 <= i < s.len() && (#[trigger] s[i]).key() == x
}

/// Whether `ids` lists every id of `a` and of `b`, each once, in
/// strictly ascending order.
pub open spec fn key_order<A: Keyed, B: Keyed>(ids: Seq<u64>, a: Seq<A>, b: Seq<B>) -> bool {
    &&& forall|i: int, j: int| 0 <= i < j < ids.len() ==> ids[i] < ids[j]
    &&& forall|x: u64| ids.contains(x) <==> (has_key(a, x) || has_key(b, x))
}

/// A strictly ascending sequence is fixed by the values it holds.
proof fn strictly_ascending_unique(s: Seq<u64>, t: Seq<u64>)
    requires
        forall|i: int, j: int| 0 <= i < j < s.len() ==> s[i] < s[j],
        forall|i: int, j: int| 0 <= i < j < t.len() ==> t[i] < t[j],
        forall|x: u64| s.contains(x) <==> t.contains(x),
    ensures
        s == t,
    decreases s.len(),
{
    if s.len() == 0 {
        if t.len() > 0 {
            assert(t.contains(t[0]));
        }
        assert(s =~= t);
    } else if t.len() == 0 {
        assert(s.contains(s[0]));
    } else {
        let m = s.last();
        let n = t.last();
        assert(s.contains(m));
        assert(t.contains(n));
        let i = choose|i: int| 0 <= i < s.len() && s[i] == n;
        let j = choose|j: int| 0 <= j < t.len() && t[j] == m;
        assert(m == n) by {
            if i < s.len() - 1 {
                assert(s[i] < m);
            }
            if j < t.len() - 1 {
                assert(t[j] < n);
            }
        }
        assert forall|x: u64| s.drop_last().contains(x) <==> t.drop_last().contains(x) by {
            if s.drop_last().contains(x) {
                let p = choose|p: int| 0 <= p < s.len() - 1 && s[p] == x;
                assert(s[p] < m);
                assert(t.contains(x));
                let q = choose|q: int| 0 <= q < t.len() && t[q] == x;
                assert(q != t.len() - 1);
                assert(t.drop_last()[q] == x);
            }
            if t.drop_last().contains(x) {
                let p = choose|p: int| 0 <= p < t.len() - 1 && t[p] == x;
                assert(t[p] < n);
                assert(s.contains(x));
                let q = choose|q: int| 0 <= q < s.len() && s[q] == x;
                assert(q != s.len() - 1);
                assert(s.drop_last()[q] == x);
            }
        }
        strictly_ascending_unique(s.drop_last(), t.drop_last());
        assert(s =~= s.drop_last().push(m));
        assert(t =~= t.drop_last().push(n));
    }
}

/// The order in which the checks pair two snapshots is fixed by them:
/// one sequence lists every id once, ascending.
pub proof fn law_key_order_is_unique<A: Keyed, B: Keyed>(ids1: Seq<u64>, ids2: Seq<u64>, a: Seq<A>, b: Seq<B>)
    requires
        key_order(ids1, a, b),
        key_order(ids2, a, b),
    ensures
        ids1 == ids2,
{
    strictly_ascending_unique(ids1, ids2);
}

/// Collects the ids of `a` into `all`, skipping those already there.
fn add_keys<T: Keyed>(all: &mut Vec<u64>, a: &Vec<T>)
    requires
        old(all)@.no_duplicates(),
    ensures
        final(all)@.no_duplicates(),
        forall|x: u64| final(all)@.contains(x) <==> (old(all)@.contains(x) || has_key(a@, x)),
{
    let mut i: usize = 0;
    while i < a.len()
        invariant
            i <= a@.len(),
            all@.no_duplicates(),
            forall|x: u64|
                all@.contains(x) <==> (old(all)@.contains(x) || has_key(a@.take(i as int), x)),
        decreases a@.len() - i,
    {
        let x = a[i].key_of();
        let ghost prev = all@;
        if !contains_id(all, x) {
            all.push(x);
            assert(all@ == prev.push(x));
        }
        proof {
            assert forall|y: u64| all@.contains(y) <==> (prev.contains(y) || y == x) by {
                if all@.contains(y) && !prev.contains(y) {
                    let p = choose|p: int| 0 <= p < all@.len() && all@[p] == y;
                    assert(p == prev.len());
                }
                if y == x && !prev.contains(y) {
                    assert(all@[prev.len() as int] == x);
                }
                if prev.contains(y) && all@ != prev {
                    let p = choose|p: int| 0 <= p < prev.len() && prev[p] == y;
                    assert(all@[p] == y);
                }
            }
            assert forall|y: u64|
                all@.contains(y) <==> (old(all)@.contains(y) || has_key(a@.take(i + 1), y)) by {
                assert(prev.contains(y) <==> (old(all)@.contains(y) || has_key(a@.take(i as int), y)));
                assert(a@.take(i + 1)[i as int] == a@[i as int]);
                if y == x {
                    assert((#[trigger] a@.take(i + 1)[i as int]).key() == y);
                }
                if has_key(a@.take(i + 1), y) && y != x {
                    let p = choose|p: int| 0 <= p < i + 1 && (#[trigger] a@.take(i + 1)[p]).key() == y;
                    assert(p < i);
                    assert(a@.take(i as int)[p] == a@.take(i + 1)[p]);
                }
                if has_key(a@.take(i as int), y) {
                    let p = choose|p: int| 0 <= p < i && (#[trigger] a@.take(i as int)[p]).key() == y;
                    assert(a@.take(i + 1)[p] == a@.take(i as int)[p]);
                }
            }
        }
        i = i + 1;
    }
    assert(a@.take(i as int) =~= a@);
}

/// Every id of `a` and of `b`, each once, ascending.
pub fn union_keys<A: Keyed, B: Keyed>(a: &Vec<A>, b: &Vec<B>) -> (ids: Vec<u64>)
    ensures
        key_order(ids@, a@, b@),
{
    let mut all: Vec<u64> = Vec::new();
    add_keys(&mut all, a);
    add_keys(&mut all, b);
    let sorted = sort_ids(&all);
    proof {
        lemma_sorted_u64_props(all@);
        all@.lemma_multiset_has_no_duplicates();
        sorted@.lemma_multiset_has_no_duplicates_conv();
        assert forall|i: int, j: int| 0 <= i < j < sorted@.len() implies sorted@[i] < sorted@[j] by {
            assert(ascending(sorted@));
            assert(sorted@[i] != sorted@[j]);
        }
        assert forall|x: u64| sorted@.contains(x) <==> (has_key(a@, x) || has_key(b@, x)) by {
            assert(sorted@.contains(x) <==> all@.contains(x));
        }
    }
    sorted
}

/// Whether `i` is the last position of `s` holding id `x`.
pub open spec fn is_last_at<T: Keyed>(s: Seq<T>, x: u64, i: int) -> bool {
    &&& 0 <= i < s.len()
    &&& s[i].key() == x
    &&& forall|k: int| i < k < s.len() ==> (#[trigger] s[k]).key() != x
}

/// The node that stands for id `x` in `s`: the last one with that id.
pub open spec fn keyed<T: Keyed>(s: Seq<T>, x: u64) -> Option<T> {
    if exists|i: int| is_last_at(s, x, i) {
        Some(s[choose|i: int| is_last_at(s, x, i)])
    } else {
        None
    }
}

/// The last position of `s` holding id `x`, if any.
pub fn last_index<T: Keyed>(s: &Vec<T>, x: u64) -> (r: Option<usize>)
    ensures
        match r {
            Some(i) => is_last_at(s@, x, i as int) && keyed(s@, x) == Some(s@[i as int]),
            None => keyed(s@, x) is None && !has_key(s@, x),
        },
{
    let mut found: Option<usize> = None;
    let mut i: usize = 0;
    while i < s.len()
        invariant
            i <= s@.len(),
            match found {
                Some(j) => j < i && s@[j as int].key() == x && forall|k: int|
                    j < k < i ==> (#[trigger] s@[k]).key() != x,
                None => forall|k: int| 0 <= k < i ==> (#[trigger] s@[k]).key() != x,
            },
        decreases s@.len() - i,
    {
        if s[i].key_of() == x {
            found = Some(i);
        }
        i = i + 1;
    }
    match found {
        Some(j) => {
            assert(is_last_at(s@, x, j as int));
            assert forall|k: int| is_last_at(s@, x, k) implies k == j by {
                if k < j {
                    assert(s@[j as int].key() == x);
                } else if k > j {
                }
            }
        },
        None => {
            assert(!exists|k: int| is_last_at(s@, x, k));
        },
    }
    found
}

impl Keyed for ShapeId {
    open spec fn key(&self) -> u64 {
        self.0
    }

    fn key_of(&self) -> (r: u64) {
        self.0
    }
}

impl Keyed for ConstraintId {
    open spec fn key(&self) -> u64 {
        self.0
    }

    fn key_of(&self) -> (r: u64) {
        self.0
    }
}

impl Keyed for ProfileId {
    open spec fn key(&self) -> u64 {
        self.0
    }

    fn key_of(&self) -> (r: u64) {
        self.0
    }
}

impl Keyed for Amendment {
    open spec fn key(&self) -> u64 {
        self.id.0
    }

    fn key_of(&self) -> (r: u64) {
        self.id.0
    }
}

impl Keyed for Shape {
    open spec fn key(&self) -> u64 {
        self.id.0
    }

    fn key_of(&self) -> (r: u64) {
        self.id.0
    }
}

impl Keyed for Constraint {
    open spec fn key(&self) -> u64 {
        self.id.0
    }

    fn key_of(&self) -> (r: u64) {
        self.id.0
    }
}

impl Keyed for Profile {
    open spec fn key(&self) -> u64 {
        self.id.0
    }

    fn key_of(&self) -> (r: u64) {
        self.id.0
    }
}

/// An amendment file of the working tree, with its path relative to
/// the repository root.
#[derive(Debug)]
pub struct HeadAmendment {
    /// Repository-relative path of the file.
    pub path: String,
    /// The amendment it holds.
    pub amendment: Amendment,
}

impl Keyed for HeadAmendment {
    open spec fn key(&self) -> u64 {
        self.amendment.id.0
    }

    fn key_of(&self) -> (r: u64) {
        self.amendment.id.0
    }
}

/// A node that stands for an id is one with that id.
pub proof fn lemma_keyed_has_key<T: Keyed>(s: Seq<T>, x: u64)
    ensures
        keyed(s, x) is Some <==> has_key(s, x),
        keyed(s, x) matches Some(n) ==> n.key() == x,
{
    if has_key(s, x) {
        let i = choose|i: int| 0 <= i < s.len() && (#[trigger] s[i]).key() == x;
        lemma_last_exists(s, x, i);
    }
}

/// Past a position holding `x` lies the last one.
proof fn lemma_last_exists<T: Keyed>(s: Seq<T>, x: u64, i: int)
    requires
        0 <= i < s.len(),
        s[i].key() == x,
    ensures
        exists|j: int| is_last_at(s, x, j),
    decreases s.len() - i,
{
    if exists|k: int| i < k < s.len() && (#[trigger] s[k]).key() == x {
        let k = choose|k: int| i < k < s.len() && (#[trigger] s[k]).key() == x;
        lemma_last_exists(s, x, k);
    } else {
        assert(is_last_at(s, x, i));
    }
}

/// Whether `base` and `head` differ in nothing but `archived`.
pub open spec fn same_but_archived(base: Amendment, head: Amendment) -> bool {
    &&& base.id.same(&head.id)
    &&& base.name.same(&head.name)
    &&& base.description.same(&head.description)
    &&& base.targets.same(&head.targets)
    &&& base.status.same(&head.status)
    &&& base.version_impact.same(&head.version_impact)
    &&& base.intent.same(&head.intent)
    &&& base.constraints.same(&head.constraints)
    &&& base.realization.same(&head.realization)
    &&& base.evidence.same(&head.evidence)
    &&& base.provenance.same(&head.provenance)
    &&& base.initiated_by.same(&head.initiated_by)
    &&& base.metadata.same(&head.metadata)
}

/// Whether the only edit from `base` to `head` is a toggle of
/// `archived`, the one change an existing amendment may take.
pub open spec fn archive_only_change(base: Amendment, head: Amendment) -> bool {
    !base.archived.same(&head.archived) && same_but_archived(base, head)
}

/// Decides [`archive_only_change`].
pub fn is_archive_only_change(base: &Amendment, head: &Amendment) -> (r: bool)
    ensures
        r == archive_only_change(*base, *head),
{
    if base.archived.same_as(&head.archived) {
        return false;
    }
    base.id.same_as(&head.id) && base.name.same_as(&head.name) && base.description.same_as(
        &head.description,
    ) && base.targets.same_as(&head.targets) && base.status.same_as(&head.status)
        && base.version_impact.same_as(&head.version_impact) && base.intent.same_as(&head.intent)
        && base.constraints.same_as(&head.constraints) && base.realization.same_as(
        &head.realization,
    ) && base.evidence.same_as(&head.evidence) && base.provenance.same_as(&head.provenance)
        && base.initiated_by.same_as(&head.initiated_by) && base.metadata.same_as(&head.metadata)
}

/// The CI-003 message for an amendment deleted in the change.
pub open spec fn deleted_amendment_text(id: u64) -> Seq<char> {
    "amendment "@ + dec(id as nat)
        + " was deleted in this PR — amendments are immutable per constraint:10"@
}

/// The CI-003 message for an amendment edited in the change.
pub open spec fn modified_amendment_text(path: Seq<char>) -> Seq<char> {
    "amendment "@ + path + " was modified in this PR — amendments are immutable per constraint:10"@
}

/// The CI-003 issues for amendment id `id`: one when the amendment is
/// on the base but was deleted, or was edited beyond toggling
/// `archived`; none otherwise.
pub open spec fn amendment_issue(base: Seq<Amendment>, head: Seq<HeadAmendment>, id: u64) -> Seq<IssueSpec> {
    match (keyed(base, id), keyed(head, id)) {
        (Some(_), None) => seq![err("CI-003"@, "amendment"@, id, deleted_amendment_text(id))],
        (Some(b), Some(h)) => if !b.same(&h.amendment) && !archive_only_change(b, h.amendment) {
            seq![err("CI-003"@, "amendment"@, id, modified_amendment_text(h.path@))]
        } else {
            seq![]
        },
        _ => seq![],
    }
}

/// [`amendment_issue`] as a function of each id.
pub open spec fn amendment_issue_fn(base: Seq<Amendment>, head: Seq<HeadAmendment>) -> spec_fn(int, u64) -> Seq<IssueSpec> {
    |_i: int, id: u64| amendment_issue(base, head, id)
}

/// The amendment with id `id` when it is new in the change: in the
/// working tree and not on the base.
pub open spec fn added_amendment(base: Seq<Amendment>, head: Seq<HeadAmendment>, id: u64) -> Option<Amendment> {
    match (keyed(base, id), keyed(head, id)) {
        (None, Some(h)) => Some(h.amendment),
        _ => None,
    }
}

/// The ids of `nt` nodes that amendment `a` targets (none for
/// amendments).
pub open spec fn targets_of(a: Amendment, nt: NodeType, x: u64) -> bool {
    match nt {
        NodeType::Shape => has_key(a.targets.shape_ids@, x),
        NodeType::Constraint => has_key(a.targets.constraint_ids@, x),
        NodeType::Profile => has_key(a.targets.profile_ids@, x),
        NodeType::Amendment => false,
    }
}

/// Whether amendment `id` is new in the change and targets the `nt`
/// node `x`.
pub open spec fn adds_target(base: Seq<Amendment>, head: Seq<HeadAmendment>, id: u64, nt: NodeType, x: u64) -> bool {
    match added_amendment(base, head, id) {
        Some(a) => targets_of(a, nt, x),
        None => false,
    }
}

/// Whether some amendment new in the change targets the `nt` node `x`.
pub open spec fn target_satisfied(base: Seq<Amendment>, head: Seq<HeadAmendment>, nt: NodeType, x: u64) -> bool {
    exists|id: u64| #[trigger] adds_target(base, head, id, nt, x)
}

/// The node ids that amendments new in the change target.
#[derive(Debug)]
pub struct SatisfiedTargets {
    /// Targeted shapes.
    pub shape_ids: Vec<u64>,
    /// Targeted constraints.
    pub constraint_ids: Vec<u64>,
    /// Targeted profiles.
    pub profile_ids: Vec<u64>,
}

/// Adds the ids of `src` to the strictly ascending `dst`, keeping it
/// strictly ascending.
fn add_all<T: Keyed>(dst: &mut Vec<u64>, src: &Vec<T>)
    requires
        strictly_ascending(old(dst)@),
    ensures
        strictly_ascending(final(dst)@),
        forall|x: u64| final(dst)@.contains(x) <==> (old(dst)@.contains(x) || has_key(src@, x)),
{
    let mut i: usize = 0;
    while i < src.len()
        invariant
            i <= src@.len(),
            strictly_ascending(dst@),
            forall|x: u64|
                dst@.contains(x) <==> (old(dst)@.contains(x) || has_key(src@.take(i as int), x)),
        decreases src@.len() - i,
    {
        let x = src[i].key_of();
        let ghost prev = dst@;
        insert_unique(dst, x);
        proof {
            assert forall|y: u64|
                dst@.contains(y) <==> (old(dst)@.contains(y) || has_key(src@.take(i + 1), y)) by {
                assert(prev.contains(y) <==> (old(dst)@.contains(y) || has_key(src@.take(i as int), y)));
                assert(src@.take(i + 1)[i as int] == src@[i as int]);
                if y == x {
                    assert((#[trigger] src@.take(i + 1)[i as int]).key() == y);
                }
                if has_key(src@.take(i + 1), y) && y != x {
                    let p = choose|p: int| 0 <= p < i + 1 && (#[trigger] src@.take(i + 1)[p]).key() == y;
                    assert(src@.take(i as int)[p] == src@.take(i + 1)[p]);
                }
                if has_key(src@.take(i as int), y) {
                    let p = choose|p: int| 0 <= p < i && (#[trigger] src@.take(i as int)[p]).key() == y;
                    assert(src@.take(i + 1)[p] == src@.take(i as int)[p]);
                }
            }
        }
        i = i + 1;
    }
    assert(src@.take(i as int) =~= src@);
}

impl SatisfiedTargets {
    /// The ids held for node kind `nt` (none for amendments).
    pub open spec fn ids_for(self, nt: NodeType) -> Seq<u64> {
        match nt {
            NodeType::Shape => self.shape_ids@,
            NodeType::Constraint => self.constraint_ids@,
            NodeType::Profile => self.profile_ids@,
            NodeType::Amendment => Seq::empty(),
        }
    }

    /// Each kind's ids are strictly ascending (no id twice).
    pub open spec fn sorted(self) -> bool {
        &&& strictly_ascending(self.shape_ids@)
        &&& strictly_ascending(self.constraint_ids@)
        &&& strictly_ascending(self.profile_ids@)
    }

    /// The ids held for node kind `nt`.
    pub fn ids(&self, nt: NodeType) -> (r: Vec<u64>)
        ensures
            r@ == self.ids_for(nt),
    {
        match nt {
            NodeType::Shape => self.shape_ids.clone(),
            NodeType::Constraint => self.constraint_ids.clone(),
            NodeType::Profile => self.profile_ids.clone(),
            NodeType::Amendment => Vec::new(),
        }
    }
}

/// Handles amendment id `id`: records its CI-003 issue, if any, and the
/// targets it satisfies when it is new.
fn amendment_step(
    base: &Vec<Amendment>,
    head: &Vec<HeadAmendment>,
    id: u64,
    issues: &mut Vec<ValidationIssue>,
    sat: &mut SatisfiedTargets,
)
    requires
        old(sat).sorted(),
    ensures
        final(sat).sorted(),
        issues_view(final(issues)@) == issues_view(old(issues)@) + amendment_issue(base@, head@, id),
        forall|nt: NodeType, x: u64|
            #![trigger final(sat).ids_for(nt).contains(x)]
            nt != NodeType::Amendment ==> (final(sat).ids_for(nt).contains(x) <==> (old(sat).ids_for(nt).contains(x)
                || adds_target(base@, head@, id, nt, x))),
{
    let bi = last_index(base, id);
    let hi = last_index(head, id);
    match (bi, hi) {
        (None, Some(j)) => {
            let a = &head[j].amendment;
            add_all(&mut sat.shape_ids, &a.targets.shape_ids);
            add_all(&mut sat.constraint_ids, &a.targets.constraint_ids);
            add_all(&mut sat.profile_ids, &a.targets.profile_ids);
            assert(issues_view(issues@) =~= issues_view(issues@) + amendment_issue(base@, head@, id));
        },
        (Some(_), None) => {
            let mut msg = String::from_str("amendment ");
            crate::issues::append_num(&mut msg, id);
            crate::issues::append_str(
                &mut msg,
                " was deleted in this PR — amendments are immutable per constraint:10",
            );
            proof {
                reveal_strlit("amendment ");
                reveal_strlit(" was deleted in this PR — amendments are immutable per constraint:10");
            }
            push_err(issues, "CI-003", "amendment", id, msg);
            proof {
                reveal_strlit("CI-003");
                reveal_strlit("amendment");
            }
        },
        (Some(i), Some(j)) => {
            let b = &base[i];
            let h = &head[j];
            if !b.same_as(&h.amendment) && !is_archive_only_change(b, &h.amendment) {
                let mut msg = String::from_str("amendment ");
                crate::issues::append_str(&mut msg, h.path.as_str());
                crate::issues::append_str(
                    &mut msg,
                    " was modified in this PR — amendments are immutable per constraint:10",
                );
                proof {
                    reveal_strlit("amendment ");
                    reveal_strlit(" was modified in this PR — amendments are immutable per constraint:10");
                }
                push_err(issues, "CI-003", "amendment", id, msg);
                proof {
                    reveal_strlit("CI-003");
                    reveal_strlit("amendment");
                }
            } else {
                assert(issues_view(issues@) =~= issues_view(issues@) + amendment_issue(base@, head@, id));
            }
        },
        (None, None) => {
            assert(issues_view(issues@) =~= issues_view(issues@) + amendment_issue(base@, head@, id));
        },
    }
}

/// Pairs the base and working-tree amendments by id, in ascending id
/// order, appends a CI-003 issue for each that was deleted or modified
/// (toggling `archived` aside), and returns the nodes that amendments
/// new in the change target. Modified and unchanged amendments satisfy
/// nothing.
pub fn collect_satisfied_targets(
    base: &Vec<Amendment>,
    head: &Vec<HeadAmendment>,
    issues: &mut Vec<ValidationIssue>,
) -> (r: SatisfiedTargets)
    ensures
        exists|ids: Seq<u64>|
            key_order(ids, base@, head@) && issues_view(final(issues)@) == issues_view(old(issues)@)
                + flat(ids, amendment_issue_fn(base@, head@)),
        r.sorted(),
        forall|nt: NodeType, x: u64|
            #![trigger r.ids_for(nt).contains(x)]
            nt != NodeType::Amendment ==> (r.ids_for(nt).contains(x) <==> target_satisfied(
                base@,
                head@,
                nt,
                x,
            )),
{
    let ids = union_keys(base, head);
    let mut sat = SatisfiedTargets {
        shape_ids: Vec::new(),
        constraint_ids: Vec::new(),
        profile_ids: Vec::new(),
    };
    let ghost start = issues_view(issues@);
    let ghost f = amendment_issue_fn(base@, head@);
    let mut t: usize = 0;
    while t < ids.len()
        invariant
            t <= ids@.len(),
            key_order(ids@, base@, head@),
            f == amendment_issue_fn(base@, head@),
            sat.sorted(),
            issues_view(issues@) == start + flat(ids@.take(t as int), f),
            forall|nt: NodeType, x: u64|
                #![trigger sat.ids_for(nt).contains(x)]
                nt != NodeType::Amendment ==> (sat.ids_for(nt).contains(x) <==> exists|q: int|
                    0 <= q < t && #[trigger] adds_target(base@, head@, ids@[q], nt, x)),
        decreases ids@.len() - t,
    {
        let id = ids[t];
        let ghost before = sat;
        amendment_step(base, head, id, issues, &mut sat);
        proof {
            lemma_flat_step(ids@, t as int, f);
            assert forall|nt: NodeType, x: u64|
                nt != NodeType::Amendment implies (#[trigger] sat.ids_for(nt).contains(x) <==> exists|q: int|
                    0 <= q < t + 1 && #[trigger] adds_target(base@, head@, ids@[q], nt, x)) by {
                assert(before.ids_for(nt).contains(x) <==> exists|q: int|
                    0 <= q < t && #[trigger] adds_target(base@, head@, ids@[q], nt, x));
                if adds_target(base@, head@, id, nt, x) {
                    assert(adds_target(base@, head@, ids@[t as int], nt, x));
                }
                if exists|q: int| 0 <= q < t + 1 && #[trigger] adds_target(base@, head@, ids@[q], nt, x) {
                    let q = choose|q: int| 0 <= q < t + 1 && #[trigger] adds_target(base@, head@, ids@[q], nt, x);
                    if q < t {
                        assert(before.ids_for(nt).contains(x));
                    }
                }
            }
        }
        t = t + 1;
    }
    proof {
        lemma_flat_whole(ids@, f);
        assert forall|nt: NodeType, x: u64|
            nt != NodeType::Amendment implies (#[trigger] sat.ids_for(nt).contains(x) <==> target_satisfied(
                base@,
                head@,
                nt,
                x,
            )) by {
            if target_satisfied(base@, head@, nt, x) {
                let id = choose|id: u64| #[trigger] adds_target(base@, head@, id, nt, x);
                lemma_keyed_has_key(head@, id);
                assert(ids@.contains(id));
                let q = choose|q: int| 0 <= q < ids@.len() && ids@[q] == id;
                assert(adds_target(base@, head@, ids@[q], nt, x));
            }
            if sat.ids_for(nt).contains(x) {
                let q = choose|q: int| 0 <= q < t && #[trigger] adds_target(base@, head@, ids@[q], nt, x);
                assert(adds_target(base@, head@, ids@[q], nt, x));
            }
        }
    }
    sat
}

/// Whether a monitored field of shape `base` differs in `head`: name,
/// description, intent, profile, predecessors, constraints, parents,
/// children, realization, evidence or provenance. Id, status, version,
/// amendment log and metadata are not monitored.
pub open spec fn shape_monitored_changed(base: Shape, head: Shape) -> bool {
    !{
        &&& base.name.same(&head.name)
        &&& base.description.same(&head.description)
        &&& base.intent.same(&head.intent)
        &&& base.profile.same(&head.profile)
        &&& base.predecessors.same(&head.predecessors)
        &&& base.constraints.same(&head.constraints)
        &&& base.parents.same(&head.parents)
        &&& shape_children_same(base.children@, head.children@)
        &&& base.realization.same(&head.realization)
        &&& base.evidence.same(&head.evidence)
        &&& base.provenance.same(&head.provenance)
    }
}

/// Whether a monitored field of constraint `base` differs in `head`:
/// name, description, kind, rule, enforcement, intent, profile,
/// parents, children, realization, evidence or provenance.
pub open spec fn constraint_monitored_changed(base: Constraint, head: Constraint) -> bool {
    !{
        &&& base.name.same(&head.name)
        &&& base.description.same(&head.description)
        &&& base.kind.same(&head.kind)
        &&& base.rule.same(&head.rule)
        &&& base.enforcement.same(&head.enforcement)
        &&& base.intent.same(&head.intent)
        &&& base.profile.same(&head.profile)
        &&& base.parents.same(&head.parents)
        &&& constraint_children_same(base.children@, head.children@)
        &&& base.realization.same(&head.realization)
        &&& base.evidence.same(&head.evidence)
        &&& base.provenance.same(&head.provenance)
    }
}

/// Whether a monitored field of profile `base` differs in `head`: name,
/// description, intent, fields, lifecycle, versioning, amendment rules
/// or provenance.
pub open spec fn profile_monitored_changed(base: Profile, head: Profile) -> bool {
    !{
        &&& base.name.same(&head.name)
        &&& base.description.same(&head.description)
        &&& base.intent.same(&head.intent)
        &&& base.fields.same(&head.fields)
        &&& base.lifecycle.same(&head.lifecycle)
        &&& base.versioning.same(&head.versioning)
        &&& base.amendment_rules.same(&head.amendment_rules)
        &&& base.provenance.same(&head.provenance)
    }
}

/// A node kind under CI-002: it has a lifecycle status and a set of
/// monitored fields.
pub trait StatusedNode: Keyed {
    /// The node's status.
    spec fn node_status(&self) -> Status;

    /// Whether a monitored field differs from `self` to `head`.
    spec fn monitored_changed(&self, head: &Self) -> bool;

    /// The node's status.
    fn status_ref(&self) -> (r: &Status)
        ensures
            *r == self.node_status(),
    ;

    /// Decides [`StatusedNode::monitored_changed`].
    fn changed_in(&self, head: &Self) -> (r: bool)
        ensures
            r == self.monitored_changed(head),
    ;
}

impl StatusedNode for Shape {
    open spec fn node_status(&self) -> Status {
        self.status
    }

    open spec fn monitored_changed(&self, head: &Self) -> bool {
        shape_monitored_changed(*self, *head)
    }

    fn status_ref(&self) -> (r: &Status) {
        &self.status
    }

    fn changed_in(&self, head: &Self) -> (r: bool) {
        !(self.name.same_as(&head.name) && self.description.same_as(&head.description)
            && self.intent.same_as(&head.intent) && self.profile.same_as(&head.profile)
            && self.predecessors.same_as(&head.predecessors) && self.constraints.same_as(
            &head.constraints,
        ) && self.parents.same_as(&head.parents) && shape_children_same_exec(
            &self.children,
            &head.children,
        ) && self.realization.same_as(&head.realization) && self.evidence.same_as(&head.evidence)
            && self.provenance.same_as(&head.provenance))
    }
}

impl StatusedNode for Constraint {
    open spec fn node_status(&self) -> Status {
        self.status
    }

    open spec fn monitored_changed(&self, head: &Self) -> bool {
        constraint_monitored_changed(*self, *head)
    }

    fn status_ref(&self) -> (r: &Status) {
        &self.status
    }

    fn changed_in(&self, head: &Self) -> (r: bool) {
        !(self.name.same_as(&head.name) && self.description.same_as(&head.description)
            && self.kind.same_as(&head.kind) && self.rule.same_as(&head.rule)
            && self.enforcement.same_as(&head.enforcement) && self.intent.same_as(&head.intent)
            && self.profile.same_as(&head.profile) && self.parents.same_as(&head.parents)
            && constraint_children_same_exec(&self.children, &head.children)
            && self.realization.same_as(&head.realization) && self.evidence.same_as(&head.evidence)
            && self.provenance.same_as(&head.provenance))
    }
}

impl StatusedNode for Profile {
    open spec fn node_status(&self) -> Status {
        self.status
    }

    open spec fn monitored_changed(&self, head: &Self) -> bool {
        profile_monitored_changed(*self, *head)
    }

    fn status_ref(&self) -> (r: &Status) {
        &self.status
    }

    fn changed_in(&self, head: &Self) -> (r: bool) {
        !(self.name.same_as(&head.name) && self.description.same_as(&head.description)
            && self.intent.same_as(&head.intent) && self.fields.same_as(&head.fields)
            && self.lifecycle.same_as(&head.lifecycle) && self.versioning.same_as(&head.versioning)
            && self.amendment_rules.same_as(&head.amendment_rules) && self.provenance.same_as(
            &head.provenance,
        ))
    }
}

/// Membership in `s`, as a predicate.
pub open spec fn in_seq(s: Seq<u64>) -> spec_fn(u64) -> bool {
    |x: u64| s.contains(x)
}

/// Whether some amendment new in the change targets the `nt` node, as
/// a predicate on its id.
pub open spec fn satisfied_by(base: Seq<Amendment>, head: Seq<HeadAmendment>, nt: NodeType) -> spec_fn(u64) -> bool {
    |x: u64| target_satisfied(base, head, nt, x)
}

/// The CI-002 message for `nt` node `id`, deleted or modified on a base
/// in status `status`.
pub open spec fn required_amendment_text(nt: NodeType, id: u64, deleted: bool, status: Seq<char>) -> Seq<char> {
    type_name_of(nt) + " "@ + dec(id as nat) + " was "@ + (if deleted {
        "deleted"@
    } else {
        "modified"@
    }) + " on a "@ + status + " base, but no amendment in this PR targets it"@
}

/// The CI-002 issues for `nt` node `id`: one when the node is promoted
/// or canonical on the base, was deleted or had a monitored field
/// changed, and no amendment new in the change targets it.
pub open spec fn required_amendment_issue<T: StatusedNode>(
    base: Seq<T>,
    head: Seq<T>,
    nt: NodeType,
    satisfied: spec_fn(u64) -> bool,
    id: u64,
) -> Seq<IssueSpec> {
    match keyed(base, id) {
        None => seq![],
        Some(b) => {
            let needs = match keyed(head, id) {
                None => true,
                Some(h) => b.monitored_changed(&h),
            };
            if (b.node_status() is Promoted || b.node_status() is Canonical) && needs
                && !satisfied(id) {
                seq![
                    err(
                        "CI-002"@,
                        type_name_of(nt),
                        id,
                        required_amendment_text(
                            nt,
                            id,
                            keyed(head, id) is None,
                            status_name(b.node_status()),
                        ),
                    ),
                ]
            } else {
                seq![]
            }
        },
    }
}

/// [`required_amendment_issue`] as a function of each id.
pub open spec fn required_amendment_fn<T: StatusedNode>(
    base: Seq<T>,
    head: Seq<T>,
    nt: NodeType,
    satisfied: spec_fn(u64) -> bool,
) -> spec_fn(int, u64) -> Seq<IssueSpec> {
    |_i: int, id: u64| required_amendment_issue(base, head, nt, satisfied, id)
}

/// Handles `nt` node `id` for CI-002.
fn required_step<T: StatusedNode>(
    base: &Vec<T>,
    head: &Vec<T>,
    nt: NodeType,
    satisfied: &Vec<u64>,
    id: u64,
    issues: &mut Vec<ValidationIssue>,
)
    ensures
        issues_view(final(issues)@) == issues_view(old(issues)@) + required_amendment_issue(
            base@,
            head@,
            nt,
            in_seq(satisfied@),
            id,
        ),
{
    let bi = last_index(base, id);
    match bi {
        None => {
            assert(issues_view(issues@) =~= issues_view(issues@) + required_amendment_issue(
                base@,
                head@,
                nt,
                in_seq(satisfied@),
                id,
            ));
        },
        Some(i) => {
            let b = &base[i];
            let hi = last_index(head, id);
            let needs = match hi {
                None => true,
                Some(j) => b.changed_in(&head[j]),
            };
            if b.status_ref().requires_amendment_on_change() && needs && !contains_id(satisfied, id) {
                let mut msg = String::from_str(nt.name());
                crate::issues::append_str(&mut msg, " ");
                crate::issues::append_num(&mut msg, id);
                crate::issues::append_str(&mut msg, " was ");
                match hi {
                    None => crate::issues::append_str(&mut msg, "deleted"),
                    Some(_) => crate::issues::append_str(&mut msg, "modified"),
                }
                crate::issues::append_str(&mut msg, " on a ");
                crate::issues::append_str(&mut msg, b.status_ref().name());
                crate::issues::append_str(&mut msg, " base, but no amendment in this PR targets it");
                proof {
                    reveal_strlit(" ");
                    reveal_strlit(" was ");
                    reveal_strlit("deleted");
                    reveal_strlit("modified");
                    reveal_strlit(" on a ");
                    reveal_strlit(" base, but no amendment in this PR targets it");
                }
                push_err(issues, "CI-002", nt.name(), id, msg);
                proof {
                    reveal_strlit("CI-002");
                }
            } else {
                assert(issues_view(issues@) =~= issues_view(issues@) + required_amendment_issue(
                    base@,
                    head@,
                    nt,
                    in_seq(satisfied@),
                    id,
                ));
            }
        },
    }
}

/// For one node kind, pairs the base and working-tree nodes by id, in
/// ascending id order, and appends a CI-002 issue for each promoted or
/// canonical base node that was deleted, or had a monitored field
/// changed, with no amendment new in the change targeting it.
pub fn check_required_amendments<T: StatusedNode>(
    base: &Vec<T>,
    head: &Vec<T>,
    nt: NodeType,
    satisfied: &Vec<u64>,
    issues: &mut Vec<ValidationIssue>,
)
    ensures
        exists|ids: Seq<u64>|
            key_order(ids, base@, head@) && issues_view(final(issues)@) == issues_view(old(issues)@)
                + flat(ids, required_amendment_fn(base@, head@, nt, in_seq(satisfied@))),
{
    let ids = union_keys(base, head);
    let ghost start = issues_view(issues@);
    let ghost f = required_amendment_fn(base@, head@, nt, in_seq(satisfied@));
    let mut t: usize = 0;
    while t < ids.len()
        invariant
            t <= ids@.len(),
            f == required_amendment_fn(base@, head@, nt, in_seq(satisfied@)),
            issues_view(issues@) == start + flat(ids@.take(t as int), f),
        decreases ids@.len() - t,
    {
        required_step(base, head, nt, satisfied, ids[t], issues);
        proof {
            lemma_flat_step(ids@, t as int, f);
        }
        t = t + 1;
    }
    proof {
        lemma_flat_whole(ids@, f);
    }
}

/// The nodes of the `.shapes/` tree on the base ref, each list in the
/// order its directory lists the files.
#[derive(Debug)]
pub struct BaseTree {
    /// Shapes.
    pub shapes: Vec<Shape>,
    /// Constraints.
    pub constraints: Vec<Constraint>,
    /// Profiles.
    pub profiles: Vec<Profile>,
    /// Amendments.
    pub amendments: Vec<Amendment>,
}

/// The nodes of the `.shapes/` tree in the working tree, each list in
/// the order of its files' paths.
#[derive(Debug)]
pub struct WorkTree {
    /// Shapes.
    pub shapes: Vec<Shape>,
    /// Constraints.
    pub constraints: Vec<Constraint>,
    /// Profiles.
    pub profiles: Vec<Profile>,
    /// Amendments, with their repository-relative paths.
    pub amendments: Vec<HeadAmendment>,
}

/// The CI-001 message.
pub open spec fn no_changes_text(shapes_dir: Seq<char>) -> Seq<char> {
    "PR has no changes under "@ + shapes_dir + " (required by --require-shapes-changes)"@
}

/// The CI-001 issues: one when changes under the shapes directory are
/// required and there are none.
pub open spec fn no_changes_issue(require_shapes_changes: bool, changed: Seq<String>, shapes_dir: Seq<char>) -> Seq<IssueSpec> {
    if require_shapes_changes && changed.len() == 0 {
        seq![
            IssueSpec {
                invariant: "CI-001"@,
                severity: Severity::Error,
                node_type: "pull-request"@,
                node_id: "-"@,
                message: no_changes_text(shapes_dir),
            },
        ]
    } else {
        seq![]
    }
}

/// What `ci-check` reports: CI-001, then CI-003 by ascending amendment
/// id (`ia`), then CI-002 for shapes, constraints and profiles, each by
/// ascending id (`is`, `ic`, `ip`).
pub open spec fn ci_issues(
    base: BaseTree,
    head: WorkTree,
    shapes_dir: Seq<char>,
    changed: Seq<String>,
    require_shapes_changes: bool,
    ia: Seq<u64>,
    is: Seq<u64>,
    ic: Seq<u64>,
    ip: Seq<u64>,
) -> Seq<IssueSpec> {
    let ba = base.amendments@;
    let ha = head.amendments@;
    no_changes_issue(require_shapes_changes, changed, shapes_dir) + flat(ia, amendment_issue_fn(ba, ha))
        + flat(
        is,
        required_amendment_fn(
            base.shapes@,
            head.shapes@,
            NodeType::Shape,
            satisfied_by(ba, ha, NodeType::Shape),
        ),
    ) + flat(
        ic,
        required_amendment_fn(
            base.constraints@,
            head.constraints@,
            NodeType::Constraint,
            satisfied_by(ba, ha, NodeType::Constraint),
        ),
    ) + flat(
        ip,
        required_amendment_fn(
            base.profiles@,
            head.profiles@,
            NodeType::Profile,
            satisfied_by(ba, ha, NodeType::Profile),
        ),
    )
}

/// The outcome `ci-check` exits with: success when nothing was found,
/// else the count of issues.
pub open spec fn ci_outcome(count: nat) -> Result<(), CliError> {
    if count == 0 {
        Ok(())
    } else {
        Err(CliError::CiCheck(CiCheckError::IssuesFound { count: count as usize }))
    }
}

/// Runs the pull-request checks on the base and working-tree snapshots
/// of the shapes directory `shapes_dir`; `changed` lists the paths
/// under it that differ between the two. Returns the issues, in the
/// order of [`ci_issues`], and the outcome: an error counting them
/// when there are any.
pub fn ci_check(
    base: &BaseTree,
    head: &WorkTree,
    shapes_dir: &str,
    changed: &Vec<String>,
    require_shapes_changes: bool,
) -> (r: (Vec<ValidationIssue>, Result<(), CliError>))
    ensures
        exists|ia: Seq<u64>, is: Seq<u64>, ic: Seq<u64>, ip: Seq<u64>|
            {
                &&& key_order(ia, base.amendments@, head.amendments@)
                &&& key_order(is, base.shapes@, head.shapes@)
                &&& key_order(ic, base.constraints@, head.constraints@)
                &&& key_order(ip, base.profiles@, head.profiles@)
                &&& issues_view(r.0@) == ci_issues(
                    *base,
                    *head,
                    shapes_dir@,
                    changed@,
                    require_shapes_changes,
                    ia,
                    is,
                    ic,
                    ip,
                )
            },
        r.1 == ci_outcome(r.0@.len()),
{
    let mut issues: Vec<ValidationIssue> = Vec::new();
    if require_shapes_changes && changed.len() == 0 {
        let mut msg = String::from_str("PR has no changes under ");
        crate::issues::append_str(&mut msg, shapes_dir);
        crate::issues::append_str(&mut msg, " (required by --require-shapes-changes)");
        issues.push(
            ValidationIssue {
                invariant: String::from_str("CI-001"),
                severity: Severity::Error,
                node_type: String::from_str("pull-request"),
                node_id: String::from_str("-"),
                message: msg,
            },
        );
        proof {
            reveal_strlit("PR has no changes under ");
            reveal_strlit(" (required by --require-shapes-changes)");
            reveal_strlit("CI-001");
            reveal_strlit("pull-request");
            reveal_strlit("-");
        }
    }
    let ghost after_first = issues_view(issues@);
    assert(after_first =~= no_changes_issue(require_shapes_changes, changed@, shapes_dir@));
    let sat = collect_satisfied_targets(&base.amendments, &head.amendments, &mut issues);
    let ghost after_amend = issues_view(issues@);
    let ba = Ghost(base.amendments@);
    let ha = Ghost(head.amendments@);
    let shape_sat = sat.ids(NodeType::Shape);
    let constraint_sat = sat.ids(NodeType::Constraint);
    let profile_sat = sat.ids(NodeType::Profile);
    proof {
        assert forall|x: u64| #![trigger target_satisfied(ba@, ha@, NodeType::Shape, x)]
            shape_sat@.contains(x) == target_satisfied(ba@, ha@, NodeType::Shape, x) by {
            assert(sat.ids_for(NodeType::Shape).contains(x) == target_satisfied(ba@, ha@, NodeType::Shape, x));
        }
        assert(in_seq(shape_sat@) =~= satisfied_by(ba@, ha@, NodeType::Shape));
        assert forall|x: u64| #![trigger target_satisfied(ba@, ha@, NodeType::Constraint, x)]
            constraint_sat@.contains(x) == target_satisfied(ba@, ha@, NodeType::Constraint, x) by {
            assert(sat.ids_for(NodeType::Constraint).contains(x) == target_satisfied(ba@, ha@, NodeType::Constraint, x));
        }
        assert(in_seq(constraint_sat@) =~= satisfied_by(ba@, ha@, NodeType::Constraint));
        assert forall|x: u64| #![trigger target_satisfied(ba@, ha@, NodeType::Profile, x)]
            profile_sat@.contains(x) == target_satisfied(ba@, ha@, NodeType::Profile, x) by {
            assert(sat.ids_for(NodeType::Profile).contains(x) == target_satisfied(ba@, ha@, NodeType::Profile, x));
        }
        assert(in_seq(profile_sat@) =~= satisfied_by(ba@, ha@, NodeType::Profile));
    }
    check_required_amendments(&base.shapes, &head.shapes, NodeType::Shape, &shape_sat, &mut issues);
    let ghost after_shapes = issues_view(issues@);
    check_required_amendments(
        &base.constraints,
        &head.constraints,
        NodeType::Constraint,
        &constraint_sat,
        &mut issues,
    );
    let ghost after_constraints = issues_view(issues@);
    check_required_amendments(&base.profiles, &head.profiles, NodeType::Profile, &profile_sat, &mut issues);
    proof {
        let ia = choose|ia: Seq<u64>|
            key_order(ia, base.amendments@, head.amendments@) && after_amend == after_first + flat(
                ia,
                amendment_issue_fn(base.amendments@, head.amendments@),
            );
        let is = choose|is: Seq<u64>|
            key_order(is, base.shapes@, head.shapes@) && after_shapes == after_amend + flat(
                is,
                required_amendment_fn(base.shapes@, head.shapes@, NodeType::Shape, in_seq(shape_sat@)),
            );
        let ic = choose|ic: Seq<u64>|
            key_order(ic, base.constraints@, head.constraints@) && after_constraints == after_shapes
                + flat(
                ic,
                required_amendment_fn(
                    base.constraints@,
                    head.constraints@,
                    NodeType::Constraint,
                    in_seq(constraint_sat@),
                ),
            );
        let ip = choose|ip: Seq<u64>|
            key_order(ip, base.profiles@, head.profiles@) && issues_view(issues@) == after_constraints
                + flat(
                ip,
                required_amendment_fn(
                    base.profiles@,
                    head.profiles@,
                    NodeType::Profile,
                    in_seq(profile_sat@),
                ),
            );
        assert(issues_view(issues@) =~= ci_issues(
            *base,
            *head,
            shapes_dir@,
            changed@,
            require_shapes_changes,
            ia,
            is,
            ic,
            ip,
        ));
    }
    let outcome = if issues.len() == 0 {
        Ok(())
    } else {
        Err(CliError::CiCheck(CiCheckError::IssuesFound { count: issues.len() }))
    };
    (issues, outcome)
}

/// An amendment whose base and working-tree versions are the same,
/// wherever its file now lies, draws no CI-003 issue; nor does one
/// whose only edit is a toggle of `archived`.
pub proof fn law_unchanged_amendment_is_accepted(base: Seq<Amendment>, head: Seq<HeadAmendment>, id: u64)
    requires
        keyed(base, id) matches Some(b) && keyed(head, id) matches Some(h) && (b.same(&h.amendment)
            || archive_only_change(b, h.amendment)),
    ensures
        amendment_issue(base, head, id) == Seq::<IssueSpec>::empty(),
{
}

/// An amendment on the base that is gone from the working tree always
/// draws a CI-003 issue.
pub proof fn law_deleted_amendment_is_refused(base: Seq<Amendment>, head: Seq<HeadAmendment>, id: u64)
    requires
        has_key(base, id),
        !has_key(head, id),
    ensures
        amendment_issue(base, head, id) == seq![err("CI-003"@, "amendment"@, id, deleted_amendment_text(id))],
{
    lemma_keyed_has_key(base, id);
    lemma_keyed_has_key(head, id);
}

/// An amendment on the base whose name, description, intent kind or
/// summary, or target shape, constraint or profile ids were edited in
/// the working tree draws one CI-003 issue, whatever happened to its
/// `archived` flag.
pub proof fn law_edited_amendment_is_refused(base: Seq<Amendment>, head: Seq<HeadAmendment>, id: u64)
    requires
        keyed(base, id) matches Some(b) && keyed(head, id) matches Some(h) && (b.name@ != h.amendment.name@
            || b.description@ != h.amendment.description@ || b.intent.kind@ != h.amendment.intent.kind@
            || b.intent.summary@ != h.amendment.intent.summary@ || b.targets.shape_ids@
            != h.amendment.targets.shape_ids@ || b.targets.constraint_ids@ != h.amendment.targets.constraint_ids@
            || b.targets.profile_ids@ != h.amendment.targets.profile_ids@),
    ensures
        amendment_issue(base, head, id).len() == 1,
        amendment_issue(base, head, id)[0].invariant == "CI-003"@,
        amendment_issue(base, head, id)[0].node_id == dec(id as nat),
{
    let b = keyed(base, id)->Some_0;
    let h = keyed(head, id)->Some_0.amendment;
    if same_but_archived(b, h) {
        assert(b.targets.same(&h.targets));
        assert(b.targets.shape_ids.same(&h.targets.shape_ids));
        assert forall|i: int| 0 <= i < b.targets.shape_ids@.len() implies b.targets.shape_ids@[i]
            == h.targets.shape_ids@[i] by {
            assert(b.targets.shape_ids@[i].same(&h.targets.shape_ids@[i]));
        }
        assert(b.targets.shape_ids@ =~= h.targets.shape_ids@);
        assert forall|i: int| 0 <= i < b.targets.constraint_ids@.len() implies b.targets.constraint_ids@[i]
            == h.targets.constraint_ids@[i] by {
            assert(b.targets.constraint_ids@[i].same(&h.targets.constraint_ids@[i]));
        }
        assert(b.targets.constraint_ids@ =~= h.targets.constraint_ids@);
        assert forall|i: int| 0 <= i < b.targets.profile_ids@.len() implies b.targets.profile_ids@[i]
            == h.targets.profile_ids@[i] by {
            assert(b.targets.profile_ids@[i].same(&h.targets.profile_ids@[i]));
        }
        assert(b.targets.profile_ids@ =~= h.targets.profile_ids@);
        assert(b.intent.same(&h.intent));
        assert(false);
    }
    assert(!b.same(&h));
}

/// Only amendments new in the change satisfy CI-002: one already on
/// the base satisfies nothing, edited or not.
pub proof fn law_only_new_amendments_satisfy(base: Seq<Amendment>, head: Seq<HeadAmendment>, id: u64, nt: NodeType, x: u64)
    requires
        has_key(base, id),
    ensures
        !adds_target(base, head, id, nt, x),
{
    lemma_keyed_has_key(base, id);
}

/// A node that is neither promoted nor canonical on the base may be
/// edited or deleted freely: it draws no CI-002 issue.
pub proof fn law_unratified_nodes_are_free<T: StatusedNode>(
    base: Seq<T>,
    head: Seq<T>,
    nt: NodeType,
    satisfied: spec_fn(u64) -> bool,
    id: u64,
)
    requires
        keyed(base, id) matches Some(b) && !(b.node_status() is Promoted || b.node_status() is Canonical),
    ensures
        required_amendment_issue(base, head, nt, satisfied, id) == Seq::<IssueSpec>::empty(),
{
}

/// A promoted or canonical node that was deleted, or had a monitored
/// field changed, draws a CI-002 issue exactly when no amendment new in
/// the change targets it.
pub proof fn law_ratified_change_needs_amendment<T: StatusedNode>(
    base: Seq<T>,
    head: Seq<T>,
    nt: NodeType,
    satisfied: spec_fn(u64) -> bool,
    id: u64,
)
    requires
        keyed(base, id) matches Some(b) && (b.node_status() is Promoted || b.node_status() is Canonical)
            && match keyed(head, id) {
            None => true,
            Some(h) => b.monitored_changed(&h),
        },
    ensures
        (required_amendment_issue(base, head, nt, satisfied, id).len() == 1) == !satisfied(id),
        required_amendment_issue(base, head, nt, satisfied, id).len() <= 1,
{
}

/// A shape counts as changed when any monitored field was edited: its
/// name, description, intent kind or summary, governing profile,
/// predecessors, constraints, the ids of its parents, or the number of
/// its children, realizations, evidence items or provenance entries.
pub proof fn law_shape_field_edits_are_monitored(b: Shape, h: Shape)
    requires
        b.name@ != h.name@ || b.description@ != h.description@ || b.intent.kind@ != h.intent.kind@
            || b.intent.summary@ != h.intent.summary@ || b.profile != h.profile || b.predecessors@
            != h.predecessors@ || b.constraints@ != h.constraints@ || b.parents@.len()
            != h.parents@.len() || (exists|i: int|
            0 <= i < b.parents@.len() && #[trigger] b.parents@[i].id != h.parents@[i].id)
            || b.children@.len() != h.children@.len() || b.realization@.len() != h.realization@.len()
            || b.evidence@.len() != h.evidence@.len() || b.provenance@.len() != h.provenance@.len(),
    ensures
        shape_monitored_changed(b, h),
{
    if !shape_monitored_changed(b, h) {
        assert(b.profile.same(&h.profile));
        if b.profile is Some {
            assert(b.profile->Some_0.0 == h.profile->Some_0.0);
        }
        assert(b.profile == h.profile);
        assert(b.predecessors.same(&h.predecessors));
        assert forall|i: int| 0 <= i < b.predecessors@.len() implies b.predecessors@[i] == h.predecessors@[i] by {
            assert(b.predecessors@[i].same(&h.predecessors@[i]));
        }
        assert(b.predecessors@ =~= h.predecessors@);
        assert(b.constraints.same(&h.constraints));
        assert forall|i: int| 0 <= i < b.constraints@.len() implies b.constraints@[i] == h.constraints@[i] by {
            assert(b.constraints@[i].same(&h.constraints@[i]));
        }
        assert(b.constraints@ =~= h.constraints@);
        assert(b.parents.same(&h.parents));
        assert forall|i: int| 0 <= i < b.parents@.len() implies b.parents@[i].id == h.parents@[i].id by {
            assert(b.parents@[i].same(&h.parents@[i]));
        }
        assert(shape_children_same(b.children@, h.children@));
        assert(b.realization.same(&h.realization));
        assert(b.evidence.same(&h.evidence));
        assert(b.provenance.same(&h.provenance));
        assert(b.intent.same(&h.intent));
    }
}

/// A constraint counts as changed when any monitored field was edited:
/// its name, description, kind, rule, enforcement, intent kind or
/// summary, governing profile, the ids of its parents, or the number of
/// its children, realizations, evidence items or provenance entries.
pub proof fn law_constraint_field_edits_are_monitored(b: Constraint, h: Constraint)
    requires
        b.name@ != h.name@ || b.description@ != h.description@ || b.kind@ != h.kind@ || b.rule@ != h.rule@
            || b.enforcement != h.enforcement || b.intent.kind@ != h.intent.kind@ || b.intent.summary@
            != h.intent.summary@ || b.profile != h.profile || b.parents@.len() != h.parents@.len() || (
        exists|i: int| 0 <= i < b.parents@.len() && #[trigger] b.parents@[i].id != h.parents@[i].id)
            || b.children@.len() != h.children@.len() || b.realization@.len() != h.realization@.len()
            || b.evidence@.len() != h.evidence@.len() || b.provenance@.len() != h.provenance@.len(),
    ensures
        constraint_monitored_changed(b, h),
{
    if !constraint_monitored_changed(b, h) {
        assert(b.profile.same(&h.profile));
        if b.profile is Some {
            assert(b.profile->Some_0.0 == h.profile->Some_0.0);
        }
        assert(b.profile == h.profile);
        assert(b.parents.same(&h.parents));
        assert forall|i: int| 0 <= i < b.parents@.len() implies b.parents@[i].id == h.parents@[i].id by {
            assert(b.parents@[i].same(&h.parents@[i]));
        }
        assert(constraint_children_same(b.children@, h.children@));
        assert(b.realization.same(&h.realization));
        assert(b.evidence.same(&h.evidence));
        assert(b.provenance.same(&h.provenance));
        assert(b.intent.same(&h.intent));
    }
}

/// A profile counts as changed when any monitored field was edited: its
/// name, description, intent kind or summary, whether it has field
/// rules, a lifecycle, versioning or amendment rules, or the number of
/// its provenance entries.
pub proof fn law_profile_field_edits_are_monitored(b: Profile, h: Profile)
    requires
        b.name@ != h.name@ || b.description@ != h.description@ || b.intent.kind@ != h.intent.kind@
            || b.intent.summary@ != h.intent.summary@ || (b.fields is Some) != (h.fields is Some) || (
        b.lifecycle is Some) != (h.lifecycle is Some) || (b.versioning is Some) != (h.versioning is Some)
            || (b.amendment_rules is Some) != (h.amendment_rules is Some) || b.provenance@.len()
            != h.provenance@.len(),
    ensures
        profile_monitored_changed(b, h),
{
    if !profile_monitored_changed(b, h) {
        assert(b.intent.same(&h.intent));
        assert(b.fields.same(&h.fields));
        assert(b.lifecycle.same(&h.lifecycle));
        assert(b.versioning.same(&h.versioning));
        assert(b.amendment_rules.same(&h.amendment_rules));
        assert(b.provenance.same(&h.provenance));
    }
}

/// A promoted or canonical shape whose parents were changed (by id)
/// draws a CI-002 issue exactly when no amendment new in the change
/// targets it.
pub proof fn law_reparented_ratified_shape_needs_amendment(
    base: Seq<Shape>,
    head: Seq<Shape>,
    satisfied: spec_fn(u64) -> bool,
    id: u64,
)
    requires
        keyed(base, id) matches Some(b) && (b.status is Promoted || b.status is Canonical),
        keyed(head, id) matches Some(h) && keyed(base, id) matches Some(b) && (b.parents@.len()
            != h.parents@.len() || exists|i: int|
            0 <= i < b.parents@.len() && #[trigger] b.parents@[i].id != h.parents@[i].id),
    ensures
        (required_amendment_issue(base, head, NodeType::Shape, satisfied, id).len() == 1) == !satisfied(id),
        required_amendment_issue(base, head, NodeType::Shape, satisfied, id).len() <= 1,
        !satisfied(id) ==> required_amendment_issue(base, head, NodeType::Shape, satisfied, id)[0].invariant
            == "CI-002"@,
{
    let b = keyed(base, id)->Some_0;
    let h = keyed(head, id)->Some_0;
    law_shape_field_edits_are_monitored(b, h);
    law_ratified_change_needs_amendment(base, head, NodeType::Shape, satisfied, id);
}

/// A node whose monitored fields are unchanged needs no amendment,
/// whatever happened to its status, version, amendment log or metadata.
pub proof fn law_unmonitored_edits_are_free<T: StatusedNode>(
    base: Seq<T>,
    head: Seq<T>,
    nt: NodeType,
    satisfied: spec_fn(u64) -> bool,
    id: u64,
)
    requires
        keyed(base, id) matches Some(b) && keyed(head, id) matches Some(h) && !b.monitored_changed(&h),
    ensures
        required_amendment_issue(base, head, nt, satisfied, id) == Seq::<IssueSpec>::empty(),
{
}

/// Every amendment differs in nothing but `archived` from itself.
pub proof fn lemma_same_but_archived_refl(a: Amendment)
    ensures
        same_but_archived(a, a),
{
    a.id.same_refl();
    a.name.same_refl();
    a.description.same_refl();
    a.targets.same_refl();
    a.status.same_refl();
    a.version_impact.same_refl();
    a.intent.same_refl();
    a.constraints.same_refl();
    a.realization.same_refl();
    a.evidence.same_refl();
    a.provenance.same_refl();
    a.initiated_by.same_refl();
    a.metadata.same_refl();
}

/// Archiving an amendment that is not archived (what `archive`
/// returns), or unarchiving one that is (what `unarchive` returns), is
/// an archive-only change, which CI-003 accepts.
pub proof fn law_archive_toggle_is_accepted(a: Amendment, reason: Option<String>)
    ensures
        a.archived is No ==> archive_only_change(
            a,
            Amendment {
                archived: match reason {
                    Some(x) => Archived::Yes(Some(x)),
                    None => Archived::Yes(None),
                },
                ..a
            },
        ),
        a.archived is Yes ==> archive_only_change(a, Amendment { archived: Archived::No, ..a }),
{
    lemma_same_but_archived_refl(a);
}

} // verus!
