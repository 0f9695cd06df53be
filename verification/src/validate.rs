//! `validate`: every graph integrity check over a store, in the order
//! the checks run.

use vstd::prelude::*;
use crate::binding_checks::{
    amendment_binding_fn, check_amendment_bindings, check_dag_bindings, dag_binding_fn,
    existing_view, holder_bind_fn, node_binding_issues, url_fn,
};
use crate::cycles::{cycle_issues, detect_cycles_in, edge, found_links, has_cycle, reaches};
use crate::graph_checks::{
    lemma_dangling_child_reported, lemma_dangling_constraint_reported, lemma_one_sided_child_reported,
    lemma_one_sided_parent_reported, amendment_fn, check_amendment_targets, check_dag_refs, check_duplicate_ids, check_log_forward,
    check_log_reverse, check_parse, check_reciprocal_links, dup_issues, fwd_log_fn, parse_issues,
    recip_fn, ref_fn, rev_log_fn,
};
use crate::ids::{NodeType, type_name_of};
use crate::issues::{IssueSpec, Severity, ValidationIssue, flat, issues_view};
use crate::model::{Amendment, Binding, Constraint, Evidence, Profile, Provenance, Realization, Shape};
use crate::profile_checks::{
    consistency_fn, node_profile_fn, validate_profile_fields_for, validate_profiles_self_consistency,
};
use crate::store::{NodeFile, Store, loaded_ids, node_keys};

verus! {

/// `es` is a valid report of cycle links for one DAG: each is a link
/// that closes a cycle, and there is at least one exactly when the DAG
/// has a cycle.
pub open spec fn cycle_report<N: crate::dag_node::DagNode>(f: Seq<NodeFile<N>>, es: Seq<(u64, u64)>) -> bool {
    &&& forall|k: int| 0 <= k < es.len() ==> edge(f, (#[trigger] es[k]).0, es[k].1) && reaches(f, es[k].1, es[k].0)
    &&& (es.len() == 0 <==> !has_cycle(f))
}

/// PARSE warnings of all four kinds, then INV-011 errors of all four.
pub open spec fn load_issues(st: Store) -> Seq<IssueSpec> {
    parse_issues(st.shapes@, NodeType::Shape) + parse_issues(st.constraints@, NodeType::Constraint)
        + parse_issues(st.amendments@, NodeType::Amendment) + parse_issues(
        st.profiles@,
        NodeType::Profile,
    ) + dup_issues(st.shapes@, NodeType::Shape) + dup_issues(st.constraints@, NodeType::Constraint)
        + dup_issues(st.amendments@, NodeType::Amendment) + dup_issues(
        st.profiles@,
        NodeType::Profile,
    )
}

/// Dangling references of both DAGs, amendment targets, reciprocal links
/// of both DAGs.
pub open spec fn link_issues(st: Store) -> Seq<IssueSpec> {
    let ck = node_keys(st.constraints@);
    let pk = node_keys(st.profiles@);
    flat(node_keys(st.shapes@), ref_fn(st.shapes@, ck, pk, "shape"@)) + flat(
        node_keys(st.constraints@),
        ref_fn(st.constraints@, ck, pk, "constraint"@),
    ) + flat(
        node_keys(st.amendments@),
        amendment_fn(st.amendments@, node_keys(st.shapes@), ck, pk),
    ) + flat(node_keys(st.shapes@), recip_fn(st.shapes@, "shape"@)) + flat(
        node_keys(st.constraints@),
        recip_fn(st.constraints@, "constraint"@),
    )
}

/// Amendment-log reciprocity: forward, then reverse for shapes,
/// constraints, profiles.
pub open spec fn log_issues(st: Store) -> Seq<IssueSpec> {
    flat(
        node_keys(st.amendments@),
        fwd_log_fn(st.amendments@, st.shapes@, st.constraints@, st.profiles@),
    ) + flat(node_keys(st.shapes@), rev_log_fn(st.shapes@, st.amendments@, NodeType::Shape))
        + flat(
        node_keys(st.constraints@),
        rev_log_fn(st.constraints@, st.amendments@, NodeType::Constraint),
    ) + flat(node_keys(st.profiles@), rev_log_fn(st.profiles@, st.amendments@, NodeType::Profile))
}

/// Profile-driven checks of both DAGs, then profile self-consistency.
pub open spec fn profile_issues(st: Store) -> Seq<IssueSpec> {
    flat(node_keys(st.shapes@), node_profile_fn(st.shapes@, st.profiles@, NodeType::Shape)) + flat(
        node_keys(st.constraints@),
        node_profile_fn(st.constraints@, st.profiles@, NodeType::Constraint),
    ) + flat(node_keys(st.profiles@), consistency_fn(st.profiles@))
}

/// Binding checks of shapes, constraints, then amendments.
pub open spec fn binding_issues(st: Store, existing: Option<Seq<Seq<char>>>) -> Seq<IssueSpec> {
    flat(node_keys(st.shapes@), dag_binding_fn(st.shapes@, NodeType::Shape, existing)) + flat(
        node_keys(st.constraints@),
        dag_binding_fn(st.constraints@, NodeType::Constraint, existing),
    ) + flat(node_keys(st.amendments@), amendment_binding_fn(st.amendments@, existing))
}

/// Everything `validate` reports, given the cycle links `es_s` (shapes)
/// and `es_c` (constraints) its searches report.
pub open spec fn validation_issues(
    st: Store,
    existing: Option<Seq<Seq<char>>>,
    es_s: Seq<(u64, u64)>,
    es_c: Seq<(u64, u64)>,
) -> Seq<IssueSpec> {
    load_issues(st) + cycle_issues("INV-001"@, "shape"@, es_s) + cycle_issues(
        "INV-002"@,
        "constraint"@,
        es_c,
    ) + link_issues(st) + log_issues(st) + profile_issues(st) + binding_issues(st, existing)
}

/// Runs every graph integrity check against `st` and returns the issues
/// found. `existing_paths` lists the `path` binding values that resolve
/// to a file or directory under the workspace root; when it is `None`
/// the path checks (INV-017) are skipped.
#[verifier::spinoff_prover]
pub fn validate(st: &Store, existing_paths: &Option<Vec<String>>) -> (r: Vec<ValidationIssue>)
    ensures
        issues_view(r@) == validation_issues(
            *st,
            existing_view(*existing_paths),
            found_links(st.shapes@),
            found_links(st.constraints@),
        ),
        cycle_report(st.shapes@, found_links(st.shapes@)),
        cycle_report(st.constraints@, found_links(st.constraints@)),
{
    let mut issues: Vec<ValidationIssue> = Vec::new();
    check_parse(&st.shapes, NodeType::Shape, &mut issues);
    check_parse(&st.constraints, NodeType::Constraint, &mut issues);
    check_parse(&st.amendments, NodeType::Amendment, &mut issues);
    check_parse(&st.profiles, NodeType::Profile, &mut issues);
    check_duplicate_ids(&st.shapes, NodeType::Shape, &mut issues);
    check_duplicate_ids(&st.constraints, NodeType::Constraint, &mut issues);
    check_duplicate_ids(&st.amendments, NodeType::Amendment, &mut issues);
    check_duplicate_ids(&st.profiles, NodeType::Profile, &mut issues);
    let ghost a = issues_view(issues@);
    assert(a =~= load_issues(*st));
    let sk = loaded_ids(&st.shapes);
    let ck = loaded_ids(&st.constraints);
    let ak = loaded_ids(&st.amendments);
    let pk = loaded_ids(&st.profiles);
    let es_s = detect_cycles_in(&st.shapes, &sk, NodeType::Shape, "INV-001", &mut issues);
    let es_c = detect_cycles_in(&st.constraints, &ck, NodeType::Constraint, "INV-002", &mut issues);
    let ghost b = issues_view(issues@);
    check_dag_refs(&st.shapes, &sk, &ck, &pk, NodeType::Shape, &mut issues);
    check_dag_refs(&st.constraints, &ck, &ck, &pk, NodeType::Constraint, &mut issues);
    check_amendment_targets(&st.amendments, &ak, &sk, &ck, &pk, &mut issues);
    check_reciprocal_links(&st.shapes, &sk, NodeType::Shape, &mut issues);
    check_reciprocal_links(&st.constraints, &ck, NodeType::Constraint, &mut issues);
    let ghost c = issues_view(issues@);
    assert(c =~= b + link_issues(*st));
    check_log_forward(&st.amendments, &ak, &st.shapes, &st.constraints, &st.profiles, &mut issues);
    check_log_reverse(&st.shapes, &sk, &st.amendments, NodeType::Shape, &mut issues);
    check_log_reverse(&st.constraints, &ck, &st.amendments, NodeType::Constraint, &mut issues);
    check_log_reverse(&st.profiles, &pk, &st.amendments, NodeType::Profile, &mut issues);
    let ghost d = issues_view(issues@);
    assert(d =~= c + log_issues(*st));
    validate_profile_fields_for(&st.shapes, &sk, &st.profiles, NodeType::Shape, &mut issues);
    validate_profile_fields_for(&st.constraints, &ck, &st.profiles, NodeType::Constraint, &mut issues);
    validate_profiles_self_consistency(&st.profiles, &pk, &mut issues);
    let ghost e = issues_view(issues@);
    assert(e =~= d + profile_issues(*st));
    check_dag_bindings(&st.shapes, &sk, NodeType::Shape, existing_paths, &mut issues);
    check_dag_bindings(&st.constraints, &ck, NodeType::Constraint, existing_paths, &mut issues);
    check_amendment_bindings(&st.amendments, &ak, existing_paths, &mut issues);
    assert(issues_view(issues@) =~= e + binding_issues(*st, existing_view(*existing_paths)));
    assert(issues_view(issues@) =~= validation_issues(*st, existing_view(*existing_paths), es_s@, es_c@));
    issues
}

/// Every issue of `s` carries the invariant code `code`.
pub open spec fn all_code(s: Seq<IssueSpec>, code: Seq<char>) -> bool {
    forall|k: int| 0 <= k < s.len() ==> (#[trigger] s[k]).invariant == code
}

/// `flat` keeps a code that every part carries.
proof fn lemma_flat_all_code<A>(s: Seq<A>, f: spec_fn(int, A) -> Seq<IssueSpec>, code: Seq<char>)
    requires
        forall|i: int, x: A| all_code(#[trigger] f(i, x), code),
    ensures
        all_code(flat(s, f), code),
    decreases s.len(),
{
    if s.len() > 0 {
        lemma_flat_all_code(s.drop_last(), f, code);
        let a = flat(s.drop_last(), f);
        let b = f(s.len() - 1, s.last());
        assert(all_code(b, code));
        assert forall|k: int| 0 <= k < (a + b).len() implies (#[trigger] (a + b)[k]).invariant == code by {
            if k < a.len() {
                assert((a + b)[k] == a[k]);
            } else {
                assert((a + b)[k] == b[k - a.len()]);
            }
        }
    }
}

/// The binding issues of one node, when no path is checked, are URL
/// issues only.
proof fn lemma_node_bindings_url_only(
    tn: Seq<char>,
    id: u64,
    reals: Seq<Realization>,
    ev: Seq<Evidence>,
    prov: Seq<Provenance>,
)
    ensures
        all_code(node_binding_issues(tn, id, reals, ev, prov, None), "INV-018"@),
{
    assert forall|idx: int, h: Realization| all_code(#[trigger] holder_bind_fn(tn, id, "realization"@, None)(idx, h), "INV-018"@) by {
        lemma_holder_url_only(tn, id, "realization"@, idx, h);
    }
    assert forall|idx: int, h: Evidence| all_code(#[trigger] holder_bind_fn(tn, id, "evidence"@, None)(idx, h), "INV-018"@) by {
        lemma_holder_url_only(tn, id, "evidence"@, idx, h);
    }
    assert forall|idx: int, h: Provenance| all_code(#[trigger] holder_bind_fn(tn, id, "provenance"@, None)(idx, h), "INV-018"@) by {
        lemma_holder_url_only(tn, id, "provenance"@, idx, h);
    }
    let a = flat(reals, holder_bind_fn(tn, id, "realization"@, None));
    let b = flat(ev, holder_bind_fn(tn, id, "evidence"@, None));
    let c = flat(prov, holder_bind_fn(tn, id, "provenance"@, None));
    lemma_flat_all_code(reals, holder_bind_fn(tn, id, "realization"@, None), "INV-018"@);
    lemma_flat_all_code(ev, holder_bind_fn(tn, id, "evidence"@, None), "INV-018"@);
    lemma_flat_all_code(prov, holder_bind_fn(tn, id, "provenance"@, None), "INV-018"@);
    assert forall|k: int| 0 <= k < (a + b + c).len() implies (#[trigger] (a + b + c)[k]).invariant == "INV-018"@ by {
        if k < a.len() {
            assert((a + b + c)[k] == a[k]);
        } else if k < a.len() + b.len() {
            assert((a + b + c)[k] == b[k - a.len()]);
        } else {
            assert((a + b + c)[k] == c[k - a.len() - b.len()]);
        }
    }
}

/// One holder's binding issues, when no path is checked, are URL issues
/// only.
proof fn lemma_holder_url_only<H: crate::dag_node::HoldsBindings>(tn: Seq<char>, id: u64, holder: Seq<char>, idx: int, h: H)
    ensures
        all_code(holder_bind_fn(tn, id, holder, None)(idx, h), "INV-018"@),
{
    let loc = crate::binding_checks::holder_loc(holder, idx);
    assert forall|b: int, bind: Binding| all_code(#[trigger] url_fn(tn, id, loc)(b, bind), "INV-018"@) by {
    }
    lemma_flat_all_code(h.bindings_spec(), url_fn(tn, id, loc), "INV-018"@);
    assert(holder_bind_fn(tn, id, holder, None)(idx, h) =~= flat(h.bindings_spec(), url_fn(tn, id, loc)));
}

/// Without a list of existing paths (no workspace root), the binding
/// checks of `validate` report URL problems (INV-018) only: no path
/// binding is checked, so no INV-017 issue arises from them.
pub proof fn law_no_path_checks_without_root(st: Store)
    ensures
        all_code(binding_issues(st, None), "INV-018"@),
{
    assert forall|i: int, id: u64| all_code(#[trigger] dag_binding_fn(st.shapes@, NodeType::Shape, None)(i, id), "INV-018"@) by {
        match crate::store::loaded(st.shapes@, id) {
            Some(n) => lemma_node_bindings_url_only(type_name_of(NodeType::Shape), id, crate::dag_node::DagNode::realization_spec(&n), crate::dag_node::DagNode::evidence_spec(&n), crate::dag_node::DagNode::provenance_spec(&n)),
            None => {},
        }
    }
    assert forall|i: int, id: u64| all_code(#[trigger] dag_binding_fn(st.constraints@, NodeType::Constraint, None)(i, id), "INV-018"@) by {
        match crate::store::loaded(st.constraints@, id) {
            Some(n) => lemma_node_bindings_url_only(type_name_of(NodeType::Constraint), id, crate::dag_node::DagNode::realization_spec(&n), crate::dag_node::DagNode::evidence_spec(&n), crate::dag_node::DagNode::provenance_spec(&n)),
            None => {},
        }
    }
    assert forall|i: int, id: u64| all_code(#[trigger] amendment_binding_fn(st.amendments@, None)(i, id), "INV-018"@) by {
        match crate::store::loaded(st.amendments@, id) {
            Some(a) => lemma_node_bindings_url_only("amendment"@, id, a.realization@, a.evidence@, a.provenance@),
            None => {},
        }
    }
    let sk = node_keys(st.shapes@);
    let ck = node_keys(st.constraints@);
    let ak = node_keys(st.amendments@);
    lemma_flat_all_code(sk, dag_binding_fn(st.shapes@, NodeType::Shape, None), "INV-018"@);
    lemma_flat_all_code(ck, dag_binding_fn(st.constraints@, NodeType::Constraint, None), "INV-018"@);
    lemma_flat_all_code(ak, amendment_binding_fn(st.amendments@, None), "INV-018"@);
    let a = flat(sk, dag_binding_fn(st.shapes@, NodeType::Shape, None));
    let b = flat(ck, dag_binding_fn(st.constraints@, NodeType::Constraint, None));
    let c = flat(ak, amendment_binding_fn(st.amendments@, None));
    assert forall|k: int| 0 <= k < (a + b + c).len() implies (#[trigger] (a + b + c)[k]).invariant == "INV-018"@ by {
        if k < a.len() {
            assert((a + b + c)[k] == a[k]);
        } else if k < a.len() + b.len() {
            assert((a + b + c)[k] == b[k - a.len()]);
        } else {
            assert((a + b + c)[k] == c[k - a.len() - b.len()]);
        }
    }
}

/// An issue in either part of a concatenation is in the whole.
proof fn lemma_in_concat(a: Seq<IssueSpec>, b: Seq<IssueSpec>, x: IssueSpec)
    requires
        a.contains(x) || b.contains(x),
    ensures
        (a + b).contains(x),
{
    if a.contains(x) {
        let k = choose|k: int| 0 <= k < a.len() && a[k] == x;
        assert((a + b)[k] == x);
    } else {
        let k = choose|k: int| 0 <= k < b.len() && b[k] == x;
        assert((a + b)[a.len() + k] == x);
    }
}

/// `x` is among the issues when it is among the link issues.
proof fn lemma_link_issue_reported(
    st: Store,
    existing: Option<Seq<Seq<char>>>,
    es_s: Seq<(u64, u64)>,
    es_c: Seq<(u64, u64)>,
    x: IssueSpec,
)
    requires
        link_issues(st).contains(x),
    ensures
        validation_issues(st, existing, es_s, es_c).contains(x),
{
    let a = load_issues(st) + cycle_issues("INV-001"@, "shape"@, es_s) + cycle_issues("INV-002"@, "constraint"@, es_c);
    lemma_in_concat(a, link_issues(st), x);
    lemma_in_concat(a + link_issues(st), log_issues(st), x);
    lemma_in_concat(a + link_issues(st) + log_issues(st), profile_issues(st), x);
    lemma_in_concat(a + link_issues(st) + log_issues(st) + profile_issues(st), binding_issues(st, existing), x);
}

/// A shape that lists a child whose parents do not name it is reported:
/// the issues hold an INV-009 error on that shape, naming the child.
pub proof fn law_one_sided_shape_child_is_reported(
    st: Store,
    existing: Option<Seq<Seq<char>>>,
    es_s: Seq<(u64, u64)>,
    es_c: Seq<(u64, u64)>,
    id: u64,
    c: u64,
)
    requires
        crate::store::loaded(st.shapes@, id) matches Some(n) && crate::dag_node::DagNode::children_spec(&n).contains(c),
        crate::store::loaded(st.shapes@, c) matches Some(cn) && !crate::dag_node::DagNode::parents_spec(&cn).contains(id),
    ensures
        exists|k: int|
            0 <= k < validation_issues(st, existing, es_s, es_c).len() && {
                let i = #[trigger] validation_issues(st, existing, es_s, es_c)[k];
                &&& i.invariant == "INV-009"@
                &&& i.severity == Severity::Error
                &&& i.node_type == "shape"@
                &&& i.node_id == crate::text::dec(id as nat)
                &&& i.message == "lists shape "@ + crate::text::dec(c as nat)
                    + " as child, but child does not list "@ + crate::text::dec(id as nat) + " as parent"@
            },
{
    lemma_one_sided_child_reported(st.shapes@, "shape"@, id, c);
    let x = crate::issues::err(
        "INV-009"@,
        "shape"@,
        id,
        "lists "@ + "shape"@ + " "@ + crate::text::dec(c as nat) + " as child, but child does not list "@
            + crate::text::dec(id as nat) + " as parent"@,
    );
    let ck = node_keys(st.constraints@);
    let pk = node_keys(st.profiles@);
    let r1 = flat(node_keys(st.shapes@), ref_fn(st.shapes@, ck, pk, "shape"@));
    let r2 = flat(node_keys(st.constraints@), ref_fn(st.constraints@, ck, pk, "constraint"@));
    let am = flat(node_keys(st.amendments@), amendment_fn(st.amendments@, node_keys(st.shapes@), ck, pk));
    let rs = flat(node_keys(st.shapes@), recip_fn(st.shapes@, "shape"@));
    let rc = flat(node_keys(st.constraints@), recip_fn(st.constraints@, "constraint"@));
    lemma_in_concat(r1 + r2 + am, rs, x);
    lemma_in_concat(r1 + r2 + am + rs, rc, x);
    assert(link_issues(st) == r1 + r2 + am + rs + rc);
    lemma_link_issue_reported(st, existing, es_s, es_c, x);
    let v = validation_issues(st, existing, es_s, es_c);
    let k = choose|k: int| 0 <= k < v.len() && v[k] == x;
    reveal_strlit("lists ");
    reveal_strlit("shape");
    reveal_strlit(" ");
    reveal_strlit("lists shape ");
    assert("lists "@ + "shape"@ + " "@ =~= "lists shape "@);
    assert(v[k] == x);
}

/// A constraint that lists a child whose parents do not name it is
/// reported: the issues hold an INV-009 error on that constraint, naming
/// the child.
pub proof fn law_one_sided_constraint_child_is_reported(
    st: Store,
    existing: Option<Seq<Seq<char>>>,
    es_s: Seq<(u64, u64)>,
    es_c: Seq<(u64, u64)>,
    id: u64,
    c: u64,
)
    requires
        crate::store::loaded(st.constraints@, id) matches Some(n) && crate::dag_node::DagNode::children_spec(&n).contains(c),
        crate::store::loaded(st.constraints@, c) matches Some(cn) && !crate::dag_node::DagNode::parents_spec(&cn).contains(id),
    ensures
        exists|k: int|
            0 <= k < validation_issues(st, existing, es_s, es_c).len() && {
                let i = #[trigger] validation_issues(st, existing, es_s, es_c)[k];
                &&& i.invariant == "INV-009"@
                &&& i.severity == Severity::Error
                &&& i.node_type == "constraint"@
                &&& i.node_id == crate::text::dec(id as nat)
                &&& i.message == "lists constraint "@ + crate::text::dec(c as nat)
                    + " as child, but child does not list "@ + crate::text::dec(id as nat) + " as parent"@
            },
{
    lemma_one_sided_child_reported(st.constraints@, "constraint"@, id, c);
    let x = crate::issues::err(
        "INV-009"@,
        "constraint"@,
        id,
        "lists "@ + "constraint"@ + " "@ + crate::text::dec(c as nat) + " as child, but child does not list "@
            + crate::text::dec(id as nat) + " as parent"@,
    );
    let ck = node_keys(st.constraints@);
    let pk = node_keys(st.profiles@);
    let r1 = flat(node_keys(st.shapes@), ref_fn(st.shapes@, ck, pk, "shape"@));
    let r2 = flat(node_keys(st.constraints@), ref_fn(st.constraints@, ck, pk, "constraint"@));
    let am = flat(node_keys(st.amendments@), amendment_fn(st.amendments@, node_keys(st.shapes@), ck, pk));
    let rs = flat(node_keys(st.shapes@), recip_fn(st.shapes@, "shape"@));
    let rc = flat(node_keys(st.constraints@), recip_fn(st.constraints@, "constraint"@));
    lemma_in_concat(r1 + r2 + am + rs, rc, x);
    assert(link_issues(st) == r1 + r2 + am + rs + rc);
    lemma_link_issue_reported(st, existing, es_s, es_c, x);
    let v = validation_issues(st, existing, es_s, es_c);
    let k = choose|k: int| 0 <= k < v.len() && v[k] == x;
    reveal_strlit("lists ");
    reveal_strlit("constraint");
    reveal_strlit(" ");
    reveal_strlit("lists constraint ");
    assert("lists "@ + "constraint"@ + " "@ =~= "lists constraint "@);
    assert(v[k] == x);
}

/// A shape whose parents name a shape that does not list it as a child
/// is reported: the issues hold an INV-009 error on that shape, naming
/// the parent.
pub proof fn law_one_sided_shape_parent_is_reported(
    st: Store,
    existing: Option<Seq<Seq<char>>>,
    es_s: Seq<(u64, u64)>,
    es_c: Seq<(u64, u64)>,
    id: u64,
    p: u64,
)
    requires
        crate::store::loaded(st.shapes@, id) matches Some(n) && crate::dag_node::DagNode::parents_spec(&n).contains(p),
        crate::store::loaded(st.shapes@, p) matches Some(pn) && !crate::dag_node::DagNode::children_spec(&pn).contains(id),
    ensures
        exists|k: int|
            0 <= k < validation_issues(st, existing, es_s, es_c).len() && {
                let i = #[trigger] validation_issues(st, existing, es_s, es_c)[k];
                &&& i.invariant == "INV-009"@
                &&& i.severity == Severity::Error
                &&& i.node_type == "shape"@
                &&& i.node_id == crate::text::dec(id as nat)
                &&& i.message == "lists shape "@ + crate::text::dec(p as nat)
                    + " as parent, but parent does not list "@ + crate::text::dec(id as nat) + " as child"@
            },
{
    lemma_one_sided_parent_reported(st.shapes@, "shape"@, id, p);
    let x = crate::issues::err(
        "INV-009"@,
        "shape"@,
        id,
        "lists "@ + "shape"@ + " "@ + crate::text::dec(p as nat) + " as parent, but parent does not list "@
            + crate::text::dec(id as nat) + " as child"@,
    );
    let ck = node_keys(st.constraints@);
    let pk = node_keys(st.profiles@);
    let r1 = flat(node_keys(st.shapes@), ref_fn(st.shapes@, ck, pk, "shape"@));
    let r2 = flat(node_keys(st.constraints@), ref_fn(st.constraints@, ck, pk, "constraint"@));
    let am = flat(node_keys(st.amendments@), amendment_fn(st.amendments@, node_keys(st.shapes@), ck, pk));
    let rs = flat(node_keys(st.shapes@), recip_fn(st.shapes@, "shape"@));
    let rc = flat(node_keys(st.constraints@), recip_fn(st.constraints@, "constraint"@));
    lemma_in_concat(r1 + r2 + am, rs, x);
    lemma_in_concat(r1 + r2 + am + rs, rc, x);
    assert(link_issues(st) == r1 + r2 + am + rs + rc);
    lemma_link_issue_reported(st, existing, es_s, es_c, x);
    let v = validation_issues(st, existing, es_s, es_c);
    let k = choose|k: int| 0 <= k < v.len() && v[k] == x;
    reveal_strlit("lists ");
    reveal_strlit("shape");
    reveal_strlit(" ");
    reveal_strlit("lists shape ");
    assert("lists "@ + "shape"@ + " "@ =~= "lists shape "@);
    assert(v[k] == x);
}

/// A constraint whose parents name a constraint that does not list it
/// as a child is reported: the issues hold an INV-009 error on that
/// constraint, naming the parent.
pub proof fn law_one_sided_constraint_parent_is_reported(
    st: Store,
    existing: Option<Seq<Seq<char>>>,
    es_s: Seq<(u64, u64)>,
    es_c: Seq<(u64, u64)>,
    id: u64,
    p: u64,
)
    requires
        crate::store::loaded(st.constraints@, id) matches Some(n) && crate::dag_node::DagNode::parents_spec(&n).contains(p),
        crate::store::loaded(st.constraints@, p) matches Some(pn) && !crate::dag_node::DagNode::children_spec(&pn).contains(id),
    ensures
        exists|k: int|
            0 <= k < validation_issues(st, existing, es_s, es_c).len() && {
                let i = #[trigger] validation_issues(st, existing, es_s, es_c)[k];
                &&& i.invariant == "INV-009"@
                &&& i.severity == Severity::Error
                &&& i.node_type == "constraint"@
                &&& i.node_id == crate::text::dec(id as nat)
                &&& i.message == "lists constraint "@ + crate::text::dec(p as nat)
                    + " as parent, but parent does not list "@ + crate::text::dec(id as nat) + " as child"@
            },
{
    lemma_one_sided_parent_reported(st.constraints@, "constraint"@, id, p);
    let x = crate::issues::err(
        "INV-009"@,
        "constraint"@,
        id,
        "lists "@ + "constraint"@ + " "@ + crate::text::dec(p as nat) + " as parent, but parent does not list "@
            + crate::text::dec(id as nat) + " as child"@,
    );
    let ck = node_keys(st.constraints@);
    let pk = node_keys(st.profiles@);
    let r1 = flat(node_keys(st.shapes@), ref_fn(st.shapes@, ck, pk, "shape"@));
    let r2 = flat(node_keys(st.constraints@), ref_fn(st.constraints@, ck, pk, "constraint"@));
    let am = flat(node_keys(st.amendments@), amendment_fn(st.amendments@, node_keys(st.shapes@), ck, pk));
    let rs = flat(node_keys(st.shapes@), recip_fn(st.shapes@, "shape"@));
    let rc = flat(node_keys(st.constraints@), recip_fn(st.constraints@, "constraint"@));
    lemma_in_concat(r1 + r2 + am + rs, rc, x);
    assert(link_issues(st) == r1 + r2 + am + rs + rc);
    lemma_link_issue_reported(st, existing, es_s, es_c, x);
    let v = validation_issues(st, existing, es_s, es_c);
    let k = choose|k: int| 0 <= k < v.len() && v[k] == x;
    reveal_strlit("lists ");
    reveal_strlit("constraint");
    reveal_strlit(" ");
    reveal_strlit("lists constraint ");
    assert("lists "@ + "constraint"@ + " "@ =~= "lists constraint "@);
    assert(v[k] == x);
}

/// A shape that lists a child shape that does not exist (no file with
/// that id loads) is reported: the issues hold an INV-005 error on that
/// shape, naming the child.
pub proof fn law_dangling_shape_child_is_reported(
    st: Store,
    existing: Option<Seq<Seq<char>>>,
    es_s: Seq<(u64, u64)>,
    es_c: Seq<(u64, u64)>,
    id: u64,
    c: u64,
)
    requires
        crate::store::loaded(st.shapes@, id) matches Some(n) && crate::dag_node::DagNode::children_spec(&n).contains(c),
        crate::store::loaded(st.shapes@, c) is None,
    ensures
        exists|k: int|
            0 <= k < validation_issues(st, existing, es_s, es_c).len() && {
                let i = #[trigger] validation_issues(st, existing, es_s, es_c)[k];
                &&& i.invariant == "INV-005"@
                &&& i.severity == Severity::Error
                &&& i.node_type == "shape"@
                &&& i.node_id == crate::text::dec(id as nat)
                &&& i.message == "references non-existent child shape "@ + crate::text::dec(c as nat)
            },
{
    let ck = node_keys(st.constraints@);
    let pk = node_keys(st.profiles@);
    lemma_dangling_child_reported(st.shapes@, ck, pk, "shape"@, id, c);
    let x = crate::issues::err(
        "INV-005"@,
        "shape"@,
        id,
        "references non-existent child "@ + "shape"@ + " "@ + crate::text::dec(c as nat),
    );
    let r1 = flat(node_keys(st.shapes@), ref_fn(st.shapes@, ck, pk, "shape"@));
    let r2 = flat(node_keys(st.constraints@), ref_fn(st.constraints@, ck, pk, "constraint"@));
    let am = flat(node_keys(st.amendments@), amendment_fn(st.amendments@, node_keys(st.shapes@), ck, pk));
    let rs = flat(node_keys(st.shapes@), recip_fn(st.shapes@, "shape"@));
    let rc = flat(node_keys(st.constraints@), recip_fn(st.constraints@, "constraint"@));
    lemma_in_concat(r1, r2, x);
    lemma_in_concat(r1 + r2, am, x);
    lemma_in_concat(r1 + r2 + am, rs, x);
    lemma_in_concat(r1 + r2 + am + rs, rc, x);
    assert(link_issues(st) == r1 + r2 + am + rs + rc);
    lemma_link_issue_reported(st, existing, es_s, es_c, x);
    let v = validation_issues(st, existing, es_s, es_c);
    let k = choose|k: int| 0 <= k < v.len() && v[k] == x;
    reveal_strlit("references non-existent child ");
    reveal_strlit("shape");
    reveal_strlit(" ");
    reveal_strlit("references non-existent child shape ");
    assert("references non-existent child "@ + "shape"@ + " "@ =~= "references non-existent child shape "@);
    assert(v[k] == x);
}

/// A shape that lists a constraint that does not exist (no constraint
/// file with that id loads) is reported: the issues hold an INV-003
/// error on that shape, naming the constraint.
pub proof fn law_dangling_shape_constraint_is_reported(
    st: Store,
    existing: Option<Seq<Seq<char>>>,
    es_s: Seq<(u64, u64)>,
    es_c: Seq<(u64, u64)>,
    id: u64,
    c: u64,
)
    requires
        crate::store::loaded(st.shapes@, id) matches Some(n) && crate::dag_node::DagNode::constraints_spec(&n).contains(c),
        crate::store::loaded(st.constraints@, c) is None,
    ensures
        exists|k: int|
            0 <= k < validation_issues(st, existing, es_s, es_c).len() && {
                let i = #[trigger] validation_issues(st, existing, es_s, es_c)[k];
                &&& i.invariant == "INV-003"@
                &&& i.severity == Severity::Error
                &&& i.node_type == "shape"@
                &&& i.node_id == crate::text::dec(id as nat)
                &&& i.message == "references non-existent constraint "@ + crate::text::dec(c as nat)
            },
{
    let ck = node_keys(st.constraints@);
    let pk = node_keys(st.profiles@);
    crate::store::lemma_node_keys(st.constraints@);
    lemma_dangling_constraint_reported(st.shapes@, ck, pk, "shape"@, id, c);
    let x = crate::issues::err("INV-003"@, "shape"@, id, "references non-existent constraint "@ + crate::text::dec(c as nat));
    let r1 = flat(node_keys(st.shapes@), ref_fn(st.shapes@, ck, pk, "shape"@));
    let r2 = flat(node_keys(st.constraints@), ref_fn(st.constraints@, ck, pk, "constraint"@));
    let am = flat(node_keys(st.amendments@), amendment_fn(st.amendments@, node_keys(st.shapes@), ck, pk));
    let rs = flat(node_keys(st.shapes@), recip_fn(st.shapes@, "shape"@));
    let rc = flat(node_keys(st.constraints@), recip_fn(st.constraints@, "constraint"@));
    lemma_in_concat(r1, r2, x);
    lemma_in_concat(r1 + r2, am, x);
    lemma_in_concat(r1 + r2 + am, rs, x);
    lemma_in_concat(r1 + r2 + am + rs, rc, x);
    assert(link_issues(st) == r1 + r2 + am + rs + rc);
    lemma_link_issue_reported(st, existing, es_s, es_c, x);
}

} // verus!
