//! Structural checks of `validate`: unparsable files (PARSE), repeated
//! ids (INV-011), dangling references (INV-003..006), amendment targets
//! (INV-007/008), reciprocal links (INV-009) and amendment-log
//! reciprocity (INV-019).

use vstd::prelude::*;
use crate::dag_node::{DagNode, HasLog, raw_constraint_ids, raw_shape_ids};
use crate::ids::{ConstraintId, NodeType, ProfileId, ShapeId, type_name_of};
use crate::issues::{
    IssueSpec, Severity, ValidationIssue, append_num, append_str, err, flat, issues_view,
    lemma_flat_contains, lemma_flat_step, lemma_flat_whole, push_err, push_issue,
};
use crate::model::{Amendment, Constraint, Profile};
use crate::store::{NodeFile, find_first, first_with, get_node, list_file_ids, listed_ids, loaded, node_keys};
use crate::text::{dec, owned};
use crate::walk::contains_id;

verus! {

/// The parse error of the file that holds `id`, if it does not parse.
pub open spec fn parse_error<T>(f: Seq<NodeFile<T>>, id: u64) -> Option<Seq<char>> {
    let i = first_with(f, id);
    if i >= 0 {
        match f[i].node {
            Err(m) => Some(m@),
            Ok(_) => None,
        }
    } else {
        None
    }
}

/// The PARSE warning for listed id `id`, if its file does not parse.
pub open spec fn parse_fn<T>(f: Seq<NodeFile<T>>, nt: NodeType) -> spec_fn(int, u64) -> Seq<IssueSpec> {
    |i: int, id: u64|
        match parse_error(f, id) {
            Some(m) => seq![
                IssueSpec {
                    invariant: "PARSE"@,
                    severity: Severity::Warning,
                    node_type: type_name_of(nt),
                    node_id: dec(id as nat),
                    message: "failed to parse: "@ + m,
                },
            ],
            None => Seq::empty(),
        }
}

/// PARSE warnings for the files of one kind, one per listed id whose
/// file does not parse.
pub open spec fn parse_issues<T>(f: Seq<NodeFile<T>>, nt: NodeType) -> Seq<IssueSpec> {
    flat(listed_ids(f), parse_fn(f, nt))
}

/// Emits the PARSE warnings for one kind.
pub fn check_parse<T>(files: &Vec<NodeFile<T>>, nt: NodeType, issues: &mut Vec<ValidationIssue>)
    ensures
        issues_view(final(issues)@) == issues_view(old(issues)@) + parse_issues(files@, nt),
{
    let ids = list_file_ids(files);
    let tn = nt.name();
    let ghost base = issues_view(issues@);
    let ghost f = parse_fn(files@, nt);
    let mut i: usize = 0;
    while i < ids.len()
        invariant
            i <= ids.len(),
            ids@ == listed_ids(files@),
            tn@ == type_name_of(nt),
            f == parse_fn(files@, nt),
            issues_view(issues@) == base + flat(ids@.take(i as int), f),
        decreases ids.len() - i,
    {
        proof {
            lemma_flat_step(ids@, i as int, f);
        }
        let id = ids[i];
        let ghost before = issues_view(issues@);
        match find_first(files, id) {
            Some(k) => match &files[k].node {
                Err(m) => {
                    let mut msg = owned("failed to parse: ");
                    append_str(&mut msg, m.as_str());
                    push_issue(issues, "PARSE", Severity::Warning, tn, id, msg);
                },
                Ok(_) => {},
            },
            None => {},
        }
        assert(issues_view(issues@) =~= base + flat(ids@.take(i + 1), f));
        i = i + 1;
    }
    proof {
        lemma_flat_whole(ids@, f);
    }
}

/// The INV-011 error for the `i`-th listed id, when it repeats an earlier one.
pub open spec fn dup_fn(l: Seq<u64>, tn: Seq<char>) -> spec_fn(int, u64) -> Seq<IssueSpec> {
    |i: int, id: u64|
        if l.take(i).contains(id) {
            seq![err("INV-011"@, tn, id, "duplicate id "@ + dec(id as nat))]
        } else {
            Seq::empty()
        }
}

/// INV-011 errors for one kind: one per repeat of an id.
pub open spec fn dup_issues<T>(f: Seq<NodeFile<T>>, nt: NodeType) -> Seq<IssueSpec> {
    flat(listed_ids(f), dup_fn(listed_ids(f), type_name_of(nt)))
}

/// Emits the INV-011 errors for one kind.
pub fn check_duplicate_ids<T>(files: &Vec<NodeFile<T>>, nt: NodeType, issues: &mut Vec<ValidationIssue>)
    ensures
        issues_view(final(issues)@) == issues_view(old(issues)@) + dup_issues(files@, nt),
{
    let ids = list_file_ids(files);
    let tn = nt.name();
    let ghost base = issues_view(issues@);
    let ghost f = dup_fn(ids@, type_name_of(nt));
    let mut seen: Vec<u64> = Vec::new();
    let mut i: usize = 0;
    while i < ids.len()
        invariant
            i <= ids.len(),
            ids@ == listed_ids(files@),
            tn@ == type_name_of(nt),
            f == dup_fn(ids@, type_name_of(nt)),
            seen@ == ids@.take(i as int),
            issues_view(issues@) == base + flat(ids@.take(i as int), f),
        decreases ids.len() - i,
    {
        proof {
            lemma_flat_step(ids@, i as int, f);
        }
        let id = ids[i];
        if contains_id(&seen, id) {
            let msg = crate::issues::with_num("duplicate id ", id);
            push_err(issues, "INV-011", tn, id, msg);
        }
        assert(issues_view(issues@) =~= base + flat(ids@.take(i + 1), f));
        seen.push(id);
        assert(seen@ =~= ids@.take(i + 1));
        i = i + 1;
    }
    proof {
        lemma_flat_whole(ids@, f);
    }
}

/// One error per id of the list that is not among `keys`, each naming
/// the missing id after `prefix`.
pub open spec fn missing_fn(keys: Seq<u64>, inv: Seq<char>, tn: Seq<char>, id: u64, prefix: Seq<char>) -> spec_fn(int, u64) -> Seq<IssueSpec> {
    |j: int, x: u64|
        if keys.contains(x) {
            Seq::empty()
        } else {
            seq![err(inv, tn, id, prefix + dec(x as nat))]
        }
}

/// Emits one error per id of `ids` not among `keys`.
pub fn report_missing(
    ids: &Vec<u64>,
    keys: &Vec<u64>,
    inv: &str,
    tn: &str,
    id: u64,
    prefix: &str,
    issues: &mut Vec<ValidationIssue>,
)
    ensures
        issues_view(final(issues)@) == issues_view(old(issues)@) + flat(
            ids@,
            missing_fn(keys@, inv@, tn@, id, prefix@),
        ),
{
    let ghost base = issues_view(issues@);
    let ghost f = missing_fn(keys@, inv@, tn@, id, prefix@);
    let mut i: usize = 0;
    while i < ids.len()
        invariant
            i <= ids.len(),
            f == missing_fn(keys@, inv@, tn@, id, prefix@),
            issues_view(issues@) == base + flat(ids@.take(i as int), f),
        decreases ids.len() - i,
    {
        proof {
            lemma_flat_step(ids@, i as int, f);
        }
        let x = ids[i];
        if !contains_id(keys, x) {
            let mut msg = owned(prefix);
            append_num(&mut msg, x);
            push_err(issues, inv, tn, id, msg);
        }
        assert(issues_view(issues@) =~= base + flat(ids@.take(i + 1), f));
        i = i + 1;
    }
    proof {
        lemma_flat_whole(ids@, f);
    }
}

/// Dangling-reference errors of one node: constraints (INV-003),
/// parents (INV-004), children (INV-005), profile (INV-006).
pub open spec fn node_ref_issues<N: DagNode>(
    n: N,
    id: u64,
    keys: Seq<u64>,
    ckeys: Seq<u64>,
    pkeys: Seq<u64>,
    tn: Seq<char>,
) -> Seq<IssueSpec> {
    flat(
        n.constraints_spec(),
        missing_fn(ckeys, "INV-003"@, tn, id, "references non-existent constraint "@),
    ) + flat(
        n.parents_spec(),
        missing_fn(keys, "INV-004"@, tn, id, "references non-existent parent "@ + tn + " "@),
    ) + flat(
        n.children_spec(),
        missing_fn(keys, "INV-005"@, tn, id, "references non-existent child "@ + tn + " "@),
    ) + match n.profile_spec() {
        Some(p) => if pkeys.contains(p) {
            Seq::empty()
        } else {
            seq![err("INV-006"@, tn, id, "references non-existent profile "@ + dec(p as nat))]
        },
        None => Seq::empty(),
    }
}

/// The dangling-reference errors of the node with key `id`.
pub open spec fn ref_fn<N: DagNode>(
    f: Seq<NodeFile<N>>,
    ckeys: Seq<u64>,
    pkeys: Seq<u64>,
    tn: Seq<char>,
) -> spec_fn(int, u64) -> Seq<IssueSpec> {
    |i: int, id: u64|
        match loaded(f, id) {
            Some(n) => node_ref_issues(n, id, node_keys(f), ckeys, pkeys, tn),
            None => Seq::empty(),
        }
}

/// Emits the dangling-reference errors of one DAG.
pub fn check_dag_refs<N: DagNode>(
    files: &Vec<NodeFile<N>>,
    keys: &Vec<u64>,
    ckeys: &Vec<u64>,
    pkeys: &Vec<u64>,
    nt: NodeType,
    issues: &mut Vec<ValidationIssue>,
)
    requires
        keys@ == node_keys(files@),
    ensures
        issues_view(final(issues)@) == issues_view(old(issues)@) + flat(
            node_keys(files@),
            ref_fn(files@, ckeys@, pkeys@, type_name_of(nt)),
        ),
{
    let tn = nt.name();
    let ghost base = issues_view(issues@);
    let ghost f = ref_fn(files@, ckeys@, pkeys@, type_name_of(nt));
    let mut parent_prefix = owned("references non-existent parent ");
    append_str(&mut parent_prefix, tn);
    append_str(&mut parent_prefix, " ");
    let mut child_prefix = owned("references non-existent child ");
    append_str(&mut child_prefix, tn);
    append_str(&mut child_prefix, " ");
    let mut i: usize = 0;
    while i < keys.len()
        invariant
            i <= keys.len(),
            keys@ == node_keys(files@),
            tn@ == type_name_of(nt),
            parent_prefix@ == "references non-existent parent "@ + tn@ + " "@,
            child_prefix@ == "references non-existent child "@ + tn@ + " "@,
            f == ref_fn(files@, ckeys@, pkeys@, type_name_of(nt)),
            issues_view(issues@) == base + flat(keys@.take(i as int), f),
        decreases keys.len() - i,
    {
        proof {
            lemma_flat_step(keys@, i as int, f);
        }
        let id = keys[i];
        let ghost before = issues_view(issues@);
        if let Some(n) = get_node(files, id) {
            let cs = n.constraint_list();
            report_missing(&cs, ckeys, "INV-003", tn, id, "references non-existent constraint ", issues);
            let ps = n.parent_list();
            report_missing(&ps, keys, "INV-004", tn, id, parent_prefix.as_str(), issues);
            let chs = n.child_list();
            report_missing(&chs, keys, "INV-005", tn, id, child_prefix.as_str(), issues);
            let ghost mid = issues_view(issues@);
            match n.profile_ref() {
                Some(p) => {
                    if !contains_id(pkeys, p) {
                        let msg = crate::issues::with_num("references non-existent profile ", p);
                        push_err(issues, "INV-006", tn, id, msg);
                    }
                },
                None => {},
            }
            assert(issues_view(issues@) =~= before + node_ref_issues(*n, id, keys@, ckeys@, pkeys@, tn@));
        }
        assert(issues_view(issues@) =~= base + flat(keys@.take(i + 1), f));
        i = i + 1;
    }
    proof {
        lemma_flat_whole(keys@, f);
    }
}

/// Shape targets of an amendment.
pub open spec fn target_shapes(a: Amendment) -> Seq<u64> {
    a.targets.shape_ids@.map_values(|x: ShapeId| x.0)
}

/// Constraint targets of an amendment.
pub open spec fn target_constraints(a: Amendment) -> Seq<u64> {
    a.targets.constraint_ids@.map_values(|x: ConstraintId| x.0)
}

/// Profile targets of an amendment.
pub open spec fn target_profiles(a: Amendment) -> Seq<u64> {
    a.targets.profile_ids@.map_values(|x: ProfileId| x.0)
}

/// Targets of an amendment of the given kind (none for amendments).
pub open spec fn targets_of(a: Amendment, nt: NodeType) -> Seq<u64> {
    match nt {
        NodeType::Shape => target_shapes(a),
        NodeType::Constraint => target_constraints(a),
        NodeType::Profile => target_profiles(a),
        NodeType::Amendment => Seq::empty(),
    }
}

/// Raw profile ids.
pub fn raw_profile_ids(v: &Vec<ProfileId>) -> (r: Vec<u64>)
    ensures
        r@ == v@.map_values(|x: ProfileId| x.0),
{
    let mut r: Vec<u64> = Vec::new();
    let mut i: usize = 0;
    while i < v.len()
        invariant
            i <= v.len(),
            r@ =~= v@.map_values(|x: ProfileId| x.0).take(i as int),
        decreases v.len() - i,
    {
        r.push(v[i].0);
        i = i + 1;
    }
    r
}

/// Targets of an amendment of the given kind.
pub fn target_list(a: &Amendment, nt: NodeType) -> (r: Vec<u64>)
    ensures
        r@ == targets_of(*a, nt),
{
    match nt {
        NodeType::Shape => raw_shape_ids(&a.targets.shape_ids),
        NodeType::Constraint => raw_constraint_ids(&a.targets.constraint_ids),
        NodeType::Profile => raw_profile_ids(&a.targets.profile_ids),
        NodeType::Amendment => Vec::new(),
    }
}

/// Target errors of one amendment: no targets at all (INV-007), and one
/// per target that does not exist (INV-008).
pub open spec fn amendment_target_issues(a: Amendment, aid: u64, skeys: Seq<u64>, ckeys: Seq<u64>, pkeys: Seq<u64>) -> Seq<IssueSpec> {
    (if target_shapes(a).len() == 0 && target_constraints(a).len() == 0 && target_profiles(a).len()
        == 0 {
        seq![err("INV-007"@, "amendment"@, aid, "amendment has no targets"@)]
    } else {
        Seq::empty()
    }) + flat(
        target_shapes(a),
        missing_fn(skeys, "INV-008"@, "amendment"@, aid, "targets non-existent shape "@),
    ) + flat(
        target_constraints(a),
        missing_fn(ckeys, "INV-008"@, "amendment"@, aid, "targets non-existent constraint "@),
    ) + flat(
        target_profiles(a),
        missing_fn(pkeys, "INV-008"@, "amendment"@, aid, "targets non-existent profile "@),
    )
}

/// The target errors of the amendment with key `aid`.
pub open spec fn amendment_fn(af: Seq<NodeFile<Amendment>>, skeys: Seq<u64>, ckeys: Seq<u64>, pkeys: Seq<u64>) -> spec_fn(int, u64) -> Seq<IssueSpec> {
    |i: int, aid: u64|
        match loaded(af, aid) {
            Some(a) => amendment_target_issues(a, aid, skeys, ckeys, pkeys),
            None => Seq::empty(),
        }
}

/// Emits the INV-007/INV-008 errors, amendment by amendment in id order.
pub fn check_amendment_targets(
    files: &Vec<NodeFile<Amendment>>,
    akeys: &Vec<u64>,
    skeys: &Vec<u64>,
    ckeys: &Vec<u64>,
    pkeys: &Vec<u64>,
    issues: &mut Vec<ValidationIssue>,
)
    requires
        akeys@ == node_keys(files@),
    ensures
        issues_view(final(issues)@) == issues_view(old(issues)@) + flat(
            node_keys(files@),
            amendment_fn(files@, skeys@, ckeys@, pkeys@),
        ),
{
    let ghost base = issues_view(issues@);
    let ghost f = amendment_fn(files@, skeys@, ckeys@, pkeys@);
    let mut i: usize = 0;
    while i < akeys.len()
        invariant
            i <= akeys.len(),
            akeys@ == node_keys(files@),
            f == amendment_fn(files@, skeys@, ckeys@, pkeys@),
            issues_view(issues@) == base + flat(akeys@.take(i as int), f),
        decreases akeys.len() - i,
    {
        proof {
            lemma_flat_step(akeys@, i as int, f);
        }
        let aid = akeys[i];
        let ghost before = issues_view(issues@);
        if let Some(a) = get_node(files, aid) {
            if a.targets.is_empty() {
                push_err(issues, "INV-007", "amendment", aid, owned("amendment has no targets"));
            }
            let ss = raw_shape_ids(&a.targets.shape_ids);
            report_missing(&ss, skeys, "INV-008", "amendment", aid, "targets non-existent shape ", issues);
            let cs = raw_constraint_ids(&a.targets.constraint_ids);
            report_missing(&cs, ckeys, "INV-008", "amendment", aid, "targets non-existent constraint ", issues);
            let ps = raw_profile_ids(&a.targets.profile_ids);
            report_missing(&ps, pkeys, "INV-008", "amendment", aid, "targets non-existent profile ", issues);
            assert(issues_view(issues@) =~= before + amendment_target_issues(*a, aid, skeys@, ckeys@, pkeys@));
        }
        assert(issues_view(issues@) =~= base + flat(akeys@.take(i + 1), f));
        i = i + 1;
    }
    proof {
        lemma_flat_whole(akeys@, f);
    }
}

/// INV-009 for a child link `id -> c`: the child, when it loads, must
/// list `id` as a parent.
pub open spec fn recip_child_fn<N: DagNode>(f: Seq<NodeFile<N>>, id: u64, tn: Seq<char>) -> spec_fn(int, u64) -> Seq<IssueSpec> {
    |j: int, c: u64|
        match loaded(f, c) {
            Some(cn) => if cn.parents_spec().contains(id) {
                Seq::empty()
            } else {
                seq![
                    err(
                        "INV-009"@,
                        tn,
                        id,
                        "lists "@ + tn + " "@ + dec(c as nat) + " as child, but child does not list "@
                            + dec(id as nat) + " as parent"@,
                    ),
                ]
            },
            None => Seq::empty(),
        }
}

/// INV-009 for a parent link `id -> p`: the parent, when it loads, must
/// list `id` as a child.
pub open spec fn recip_parent_fn<N: DagNode>(f: Seq<NodeFile<N>>, id: u64, tn: Seq<char>) -> spec_fn(int, u64) -> Seq<IssueSpec> {
    |j: int, p: u64|
        match loaded(f, p) {
            Some(pn) => if pn.children_spec().contains(id) {
                Seq::empty()
            } else {
                seq![
                    err(
                        "INV-009"@,
                        tn,
                        id,
                        "lists "@ + tn + " "@ + dec(p as nat) + " as parent, but parent does not list "@
                            + dec(id as nat) + " as child"@,
                    ),
                ]
            },
            None => Seq::empty(),
        }
}

/// The INV-009 errors of the node with key `id`: child links first.
pub open spec fn recip_fn<N: DagNode>(f: Seq<NodeFile<N>>, tn: Seq<char>) -> spec_fn(int, u64) -> Seq<IssueSpec> {
    |i: int, id: u64|
        match loaded(f, id) {
            Some(n) => flat(n.children_spec(), recip_child_fn(f, id, tn)) + flat(
                n.parents_spec(),
                recip_parent_fn(f, id, tn),
            ),
            None => Seq::empty(),
        }
}

/// A child link that the child does not return gives its INV-009 error
/// among the reciprocity issues of the DAG.
pub proof fn lemma_one_sided_child_reported<N: DagNode>(f: Seq<NodeFile<N>>, tn: Seq<char>, id: u64, c: u64)
    requires
        loaded(f, id) matches Some(n) && n.children_spec().contains(c),
        loaded(f, c) matches Some(cn) && !cn.parents_spec().contains(id),
    ensures
        flat(node_keys(f), recip_fn(f, tn)).contains(
            err(
                "INV-009"@,
                tn,
                id,
                "lists "@ + tn + " "@ + dec(c as nat) + " as child, but child does not list "@ + dec(
                    id as nat,
                ) + " as parent"@,
            ),
        ),
{
    let x = err(
        "INV-009"@,
        tn,
        id,
        "lists "@ + tn + " "@ + dec(c as nat) + " as child, but child does not list "@ + dec(id as nat)
            + " as parent"@,
    );
    let n = loaded(f, id)->Some_0;
    crate::store::lemma_node_keys(f);
    assert(node_keys(f).contains(id));
    let q = choose|q: int| 0 <= q < node_keys(f).len() && node_keys(f)[q] == id;
    let j = choose|j: int| 0 <= j < n.children_spec().len() && n.children_spec()[j] == c;
    assert(recip_child_fn(f, id, tn)(j, n.children_spec()[j]) =~= seq![x]);
    assert(seq![x][0] == x);
    lemma_flat_contains(n.children_spec(), recip_child_fn(f, id, tn), j, x);
    let a = flat(n.children_spec(), recip_child_fn(f, id, tn));
    let b = flat(n.parents_spec(), recip_parent_fn(f, id, tn));
    let k = choose|k: int| 0 <= k < a.len() && a[k] == x;
    assert((a + b)[k] == x);
    assert(recip_fn(f, tn)(q, node_keys(f)[q]) == a + b);
    lemma_flat_contains(node_keys(f), recip_fn(f, tn), q, x);
}

/// A parent link that the parent does not return gives its INV-009
/// error among the reciprocity issues of the DAG.
pub proof fn lemma_one_sided_parent_reported<N: DagNode>(f: Seq<NodeFile<N>>, tn: Seq<char>, id: u64, p: u64)
    requires
        loaded(f, id) matches Some(n) && n.parents_spec().contains(p),
        loaded(f, p) matches Some(pn) && !pn.children_spec().contains(id),
    ensures
        flat(node_keys(f), recip_fn(f, tn)).contains(
            err(
                "INV-009"@,
                tn,
                id,
                "lists "@ + tn + " "@ + dec(p as nat) + " as parent, but parent does not list "@ + dec(
                    id as nat,
                ) + " as child"@,
            ),
        ),
{
    let x = err(
        "INV-009"@,
        tn,
        id,
        "lists "@ + tn + " "@ + dec(p as nat) + " as parent, but parent does not list "@ + dec(id as nat)
            + " as child"@,
    );
    let n = loaded(f, id)->Some_0;
    crate::store::lemma_node_keys(f);
    assert(node_keys(f).contains(id));
    let q = choose|q: int| 0 <= q < node_keys(f).len() && node_keys(f)[q] == id;
    let j = choose|j: int| 0 <= j < n.parents_spec().len() && n.parents_spec()[j] == p;
    assert(recip_parent_fn(f, id, tn)(j, n.parents_spec()[j]) =~= seq![x]);
    assert(seq![x][0] == x);
    lemma_flat_contains(n.parents_spec(), recip_parent_fn(f, id, tn), j, x);
    let a = flat(n.children_spec(), recip_child_fn(f, id, tn));
    let b = flat(n.parents_spec(), recip_parent_fn(f, id, tn));
    let k = choose|k: int| 0 <= k < b.len() && b[k] == x;
    assert((a + b)[a.len() + k] == x);
    assert(recip_fn(f, tn)(q, node_keys(f)[q]) == a + b);
    lemma_flat_contains(node_keys(f), recip_fn(f, tn), q, x);
}

/// A child link to a node that does not load gives its INV-005 error
/// among the dangling-reference issues of the DAG.
pub proof fn lemma_dangling_child_reported<N: DagNode>(
    f: Seq<NodeFile<N>>,
    ckeys: Seq<u64>,
    pkeys: Seq<u64>,
    tn: Seq<char>,
    id: u64,
    c: u64,
)
    requires
        loaded(f, id) matches Some(n) && n.children_spec().contains(c),
        loaded(f, c) is None,
    ensures
        flat(node_keys(f), ref_fn(f, ckeys, pkeys, tn)).contains(
            err("INV-005"@, tn, id, "references non-existent child "@ + tn + " "@ + dec(c as nat)),
        ),
{
    let x = err("INV-005"@, tn, id, "references non-existent child "@ + tn + " "@ + dec(c as nat));
    let n = loaded(f, id)->Some_0;
    crate::store::lemma_node_keys(f);
    assert(node_keys(f).contains(id));
    assert(!node_keys(f).contains(c));
    let q = choose|q: int| 0 <= q < node_keys(f).len() && node_keys(f)[q] == id;
    let j = choose|j: int| 0 <= j < n.children_spec().len() && n.children_spec()[j] == c;
    let g = missing_fn(node_keys(f), "INV-005"@, tn, id, "references non-existent child "@ + tn + " "@);
    assert(g(j, n.children_spec()[j]) =~= seq![x]);
    assert(seq![x][0] == x);
    lemma_flat_contains(n.children_spec(), g, j, x);
    let a = flat(
        n.constraints_spec(),
        missing_fn(ckeys, "INV-003"@, tn, id, "references non-existent constraint "@),
    ) + flat(
        n.parents_spec(),
        missing_fn(node_keys(f), "INV-004"@, tn, id, "references non-existent parent "@ + tn + " "@),
    );
    let b = flat(n.children_spec(), g);
    let rest = match n.profile_spec() {
        Some(p) => if pkeys.contains(p) {
            Seq::empty()
        } else {
            seq![err("INV-006"@, tn, id, "references non-existent profile "@ + dec(p as nat))]
        },
        None => Seq::empty(),
    };
    let k = choose|k: int| 0 <= k < b.len() && b[k] == x;
    assert((a + b + rest)[a.len() + k] == x);
    assert(ref_fn(f, ckeys, pkeys, tn)(q, node_keys(f)[q]) == a + b + rest);
    lemma_flat_contains(node_keys(f), ref_fn(f, ckeys, pkeys, tn), q, x);
}

/// A reference to a constraint that is not among `ckeys` gives its
/// INV-003 error among the dangling-reference issues of the DAG.
pub proof fn lemma_dangling_constraint_reported<N: DagNode>(
    f: Seq<NodeFile<N>>,
    ckeys: Seq<u64>,
    pkeys: Seq<u64>,
    tn: Seq<char>,
    id: u64,
    c: u64,
)
    requires
        loaded(f, id) matches Some(n) && n.constraints_spec().contains(c),
        !ckeys.contains(c),
    ensures
        flat(node_keys(f), ref_fn(f, ckeys, pkeys, tn)).contains(
            err("INV-003"@, tn, id, "references non-existent constraint "@ + dec(c as nat)),
        ),
{
    let x = err("INV-003"@, tn, id, "references non-existent constraint "@ + dec(c as nat));
    let n = loaded(f, id)->Some_0;
    crate::store::lemma_node_keys(f);
    assert(node_keys(f).contains(id));
    let q = choose|q: int| 0 <= q < node_keys(f).len() && node_keys(f)[q] == id;
    let j = choose|j: int| 0 <= j < n.constraints_spec().len() && n.constraints_spec()[j] == c;
    let g = missing_fn(ckeys, "INV-003"@, tn, id, "references non-existent constraint "@);
    assert(g(j, n.constraints_spec()[j]) =~= seq![x]);
    assert(seq![x][0] == x);
    lemma_flat_contains(n.constraints_spec(), g, j, x);
    let a = flat(n.constraints_spec(), g);
    let b = flat(
        n.parents_spec(),
        missing_fn(node_keys(f), "INV-004"@, tn, id, "references non-existent parent "@ + tn + " "@),
    ) + flat(
        n.children_spec(),
        missing_fn(node_keys(f), "INV-005"@, tn, id, "references non-existent child "@ + tn + " "@),
    );
    let rest = match n.profile_spec() {
        Some(p) => if pkeys.contains(p) {
            Seq::empty()
        } else {
            seq![err("INV-006"@, tn, id, "references non-existent profile "@ + dec(p as nat))]
        },
        None => Seq::empty(),
    };
    let k = choose|k: int| 0 <= k < a.len() && a[k] == x;
    assert((a + b + rest)[k] == x);
    assert(a + b + rest =~= node_ref_issues(n, id, node_keys(f), ckeys, pkeys, tn));
    assert(ref_fn(f, ckeys, pkeys, tn)(q, node_keys(f)[q]) == a + b + rest);
    lemma_flat_contains(node_keys(f), ref_fn(f, ckeys, pkeys, tn), q, x);
}

/// INV-009 message for a one-sided link.
fn one_sided(tn: &str, other: u64, id: u64, as_child: bool) -> (r: String)
    ensures
        r@ == if as_child {
            "lists "@ + tn@ + " "@ + dec(other as nat) + " as child, but child does not list "@ + dec(
                id as nat,
            ) + " as parent"@
        } else {
            "lists "@ + tn@ + " "@ + dec(other as nat) + " as parent, but parent does not list "@ + dec(
                id as nat,
            ) + " as child"@
        },
{
    let mut m = owned("lists ");
    append_str(&mut m, tn);
    append_str(&mut m, " ");
    append_num(&mut m, other);
    if as_child {
        append_str(&mut m, " as child, but child does not list ");
    } else {
        append_str(&mut m, " as parent, but parent does not list ");
    }
    append_num(&mut m, id);
    if as_child {
        append_str(&mut m, " as parent");
    } else {
        append_str(&mut m, " as child");
    }
    m
}

/// Emits the INV-009 errors of one DAG, node by node in id order.
pub fn check_reciprocal_links<N: DagNode>(
    files: &Vec<NodeFile<N>>,
    keys: &Vec<u64>,
    nt: NodeType,
    issues: &mut Vec<ValidationIssue>,
)
    requires
        keys@ == node_keys(files@),
    ensures
        issues_view(final(issues)@) == issues_view(old(issues)@) + flat(
            node_keys(files@),
            recip_fn(files@, type_name_of(nt)),
        ),
{
    let tn = nt.name();
    let ghost base = issues_view(issues@);
    let ghost f = recip_fn(files@, type_name_of(nt));
    let mut i: usize = 0;
    while i < keys.len()
        invariant
            i <= keys.len(),
            keys@ == node_keys(files@),
            tn@ == type_name_of(nt),
            f == recip_fn(files@, type_name_of(nt)),
            issues_view(issues@) == base + flat(keys@.take(i as int), f),
        decreases keys.len() - i,
    {
        proof {
            lemma_flat_step(keys@, i as int, f);
        }
        let id = keys[i];
        let ghost before = issues_view(issues@);
        if let Some(n) = get_node(files, id) {
            let chs = n.child_list();
            let ghost g = recip_child_fn(files@, id, tn@);
            let mut j: usize = 0;
            while j < chs.len()
                invariant
                    j <= chs.len(),
                    chs@ == n.children_spec(),
                    g == recip_child_fn(files@, id, tn@),
                    issues_view(issues@) == before + flat(chs@.take(j as int), g),
                decreases chs.len() - j,
            {
                proof {
                    lemma_flat_step(chs@, j as int, g);
                }
                let c = chs[j];
                if let Some(cn) = get_node(files, c) {
                    let cps = cn.parent_list();
                    if !contains_id(&cps, id) {
                        let msg = one_sided(tn, c, id, true);
                        push_err(issues, "INV-009", tn, id, msg);
                    }
                }
                assert(issues_view(issues@) =~= before + flat(chs@.take(j + 1), g));
                j = j + 1;
            }
            proof {
                lemma_flat_whole(chs@, g);
            }
            let ghost mid = issues_view(issues@);
            let ps = n.parent_list();
            let ghost h = recip_parent_fn(files@, id, tn@);
            let mut j: usize = 0;
            while j < ps.len()
                invariant
                    j <= ps.len(),
                    ps@ == n.parents_spec(),
                    h == recip_parent_fn(files@, id, tn@),
                    issues_view(issues@) == mid + flat(ps@.take(j as int), h),
                decreases ps.len() - j,
            {
                proof {
                    lemma_flat_step(ps@, j as int, h);
                }
                let p = ps[j];
                if let Some(pn) = get_node(files, p) {
                    let pcs = pn.child_list();
                    if !contains_id(&pcs, id) {
                        let msg = one_sided(tn, p, id, false);
                        push_err(issues, "INV-009", tn, id, msg);
                    }
                }
                assert(issues_view(issues@) =~= mid + flat(ps@.take(j + 1), h));
                j = j + 1;
            }
            proof {
                lemma_flat_whole(ps@, h);
            }
            assert(issues_view(issues@) =~= before + (flat(n.children_spec(), g) + flat(n.parents_spec(), h)));
        }
        assert(issues_view(issues@) =~= base + flat(keys@.take(i + 1), f));
        i = i + 1;
    }
    proof {
        lemma_flat_whole(keys@, f);
    }
}

/// INV-019 forward: amendment `aid` targets node `x` of kind `nt`, which
/// loads, so the node's log must hold `aid`.
pub open spec fn fwd_fn<T: HasLog>(f: Seq<NodeFile<T>>, aid: u64, tn: Seq<char>) -> spec_fn(int, u64) -> Seq<IssueSpec> {
    |j: int, x: u64|
        match loaded(f, x) {
            Some(n) => if n.log_spec().contains(aid) {
                Seq::empty()
            } else {
                seq![
                    err(
                        "INV-019"@,
                        "amendment"@,
                        aid,
                        "targets "@ + tn + " "@ + dec(x as nat) + ", but "@ + tn + " "@ + dec(x as nat)
                            + ".amendment_log does not contain "@ + dec(aid as nat),
                    ),
                ]
            },
            None => Seq::empty(),
        }
}

/// INV-019 forward errors of the amendment with key `aid`: shape
/// targets, then constraint targets, then profile targets.
pub open spec fn fwd_log_fn(
    af: Seq<NodeFile<Amendment>>,
    sf: Seq<NodeFile<crate::model::Shape>>,
    cf: Seq<NodeFile<Constraint>>,
    pf: Seq<NodeFile<Profile>>,
) -> spec_fn(int, u64) -> Seq<IssueSpec> {
    |i: int, aid: u64|
        match loaded(af, aid) {
            Some(a) => flat(target_shapes(a), fwd_fn(sf, aid, "shape"@)) + flat(
                target_constraints(a),
                fwd_fn(cf, aid, "constraint"@),
            ) + flat(target_profiles(a), fwd_fn(pf, aid, "profile"@)),
            None => Seq::empty(),
        }
}

/// Emits the forward INV-019 errors for the targets `xs` of amendment
/// `aid` among the nodes `files` of kind `nt`.
fn check_fwd_targets<T: HasLog>(
    files: &Vec<NodeFile<T>>,
    xs: &Vec<u64>,
    aid: u64,
    nt: NodeType,
    issues: &mut Vec<ValidationIssue>,
)
    ensures
        issues_view(final(issues)@) == issues_view(old(issues)@) + flat(
            xs@,
            fwd_fn(files@, aid, type_name_of(nt)),
        ),
{
    let tn = nt.name();
    let ghost base = issues_view(issues@);
    let ghost g = fwd_fn(files@, aid, type_name_of(nt));
    let mut j: usize = 0;
    while j < xs.len()
        invariant
            j <= xs.len(),
            tn@ == type_name_of(nt),
            g == fwd_fn(files@, aid, type_name_of(nt)),
            issues_view(issues@) == base + flat(xs@.take(j as int), g),
        decreases xs.len() - j,
    {
        proof {
            lemma_flat_step(xs@, j as int, g);
        }
        let x = xs[j];
        if let Some(n) = get_node(files, x) {
            let log = n.log_list();
            if !contains_id(&log, aid) {
                let mut m = owned("targets ");
                append_str(&mut m, tn);
                append_str(&mut m, " ");
                append_num(&mut m, x);
                append_str(&mut m, ", but ");
                append_str(&mut m, tn);
                append_str(&mut m, " ");
                append_num(&mut m, x);
                append_str(&mut m, ".amendment_log does not contain ");
                append_num(&mut m, aid);
                push_err(issues, "INV-019", "amendment", aid, m);
            }
        }
        assert(issues_view(issues@) =~= base + flat(xs@.take(j + 1), g));
        j = j + 1;
    }
    proof {
        lemma_flat_whole(xs@, g);
    }
}

/// Emits the forward INV-019 errors, amendment by amendment in id order.
pub fn check_log_forward(
    af: &Vec<NodeFile<Amendment>>,
    akeys: &Vec<u64>,
    sf: &Vec<NodeFile<crate::model::Shape>>,
    cf: &Vec<NodeFile<Constraint>>,
    pf: &Vec<NodeFile<Profile>>,
    issues: &mut Vec<ValidationIssue>,
)
    requires
        akeys@ == node_keys(af@),
    ensures
        issues_view(final(issues)@) == issues_view(old(issues)@) + flat(
            node_keys(af@),
            fwd_log_fn(af@, sf@, cf@, pf@),
        ),
{
    let ghost base = issues_view(issues@);
    let ghost f = fwd_log_fn(af@, sf@, cf@, pf@);
    let mut i: usize = 0;
    while i < akeys.len()
        invariant
            i <= akeys.len(),
            akeys@ == node_keys(af@),
            f == fwd_log_fn(af@, sf@, cf@, pf@),
            issues_view(issues@) == base + flat(akeys@.take(i as int), f),
        decreases akeys.len() - i,
    {
        proof {
            lemma_flat_step(akeys@, i as int, f);
        }
        let aid = akeys[i];
        let ghost before = issues_view(issues@);
        if let Some(a) = get_node(af, aid) {
            let ss = target_list(a, NodeType::Shape);
            check_fwd_targets(sf, &ss, aid, NodeType::Shape, issues);
            let cs = target_list(a, NodeType::Constraint);
            check_fwd_targets(cf, &cs, aid, NodeType::Constraint, issues);
            let ps = target_list(a, NodeType::Profile);
            check_fwd_targets(pf, &ps, aid, NodeType::Profile, issues);
            assert(issues_view(issues@) =~= before + (flat(target_shapes(*a), fwd_fn(sf@, aid, "shape"@)) + flat(
                target_constraints(*a),
                fwd_fn(cf@, aid, "constraint"@),
            ) + flat(target_profiles(*a), fwd_fn(pf@, aid, "profile"@))));
        }
        assert(issues_view(issues@) =~= base + flat(akeys@.take(i + 1), f));
        i = i + 1;
    }
    proof {
        lemma_flat_whole(akeys@, f);
    }
}

/// INV-019 reverse: node `id` of kind `nt` logs amendment `aid`, which
/// loads, so the amendment must target the node.
pub open spec fn rev_fn(af: Seq<NodeFile<Amendment>>, id: u64, nt: NodeType) -> spec_fn(int, u64) -> Seq<IssueSpec> {
    |j: int, aid: u64|
        match loaded(af, aid) {
            Some(a) => if targets_of(a, nt).contains(id) {
                Seq::empty()
            } else {
                seq![
                    err(
                        "INV-019"@,
                        type_name_of(nt),
                        id,
                        "amendment_log contains "@ + dec(aid as nat) + ", but amendment "@ + dec(
                            aid as nat,
                        ) + " does not target "@ + type_name_of(nt) + " "@ + dec(id as nat),
                    ),
                ]
            },
            None => Seq::empty(),
        }
}

/// The reverse INV-019 errors of the node with key `id`.
pub open spec fn rev_log_fn<T: HasLog>(f: Seq<NodeFile<T>>, af: Seq<NodeFile<Amendment>>, nt: NodeType) -> spec_fn(int, u64) -> Seq<IssueSpec> {
    |i: int, id: u64|
        match loaded(f, id) {
            Some(n) => flat(n.log_spec(), rev_fn(af, id, nt)),
            None => Seq::empty(),
        }
}

/// Emits the reverse INV-019 errors of one kind, node by node in id order.
pub fn check_log_reverse<T: HasLog>(
    files: &Vec<NodeFile<T>>,
    keys: &Vec<u64>,
    af: &Vec<NodeFile<Amendment>>,
    nt: NodeType,
    issues: &mut Vec<ValidationIssue>,
)
    requires
        keys@ == node_keys(files@),
    ensures
        issues_view(final(issues)@) == issues_view(old(issues)@) + flat(
            node_keys(files@),
            rev_log_fn(files@, af@, nt),
        ),
{
    let tn = nt.name();
    let ghost base = issues_view(issues@);
    let ghost f = rev_log_fn(files@, af@, nt);
    let mut i: usize = 0;
    while i < keys.len()
        invariant
            i <= keys.len(),
            keys@ == node_keys(files@),
            tn@ == type_name_of(nt),
            f == rev_log_fn(files@, af@, nt),
            issues_view(issues@) == base + flat(keys@.take(i as int), f),
        decreases keys.len() - i,
    {
        proof {
            lemma_flat_step(keys@, i as int, f);
        }
        let id = keys[i];
        let ghost before = issues_view(issues@);
        if let Some(n) = get_node(files, id) {
            let log = n.log_list();
            let ghost g = rev_fn(af@, id, nt);
            let mut j: usize = 0;
            while j < log.len()
                invariant
                    j <= log.len(),
                    log@ == n.log_spec(),
                    tn@ == type_name_of(nt),
                    g == rev_fn(af@, id, nt),
                    issues_view(issues@) == before + flat(log@.take(j as int), g),
                decreases log.len() - j,
            {
                proof {
                    lemma_flat_step(log@, j as int, g);
                }
                let aid = log[j];
                if let Some(a) = get_node(af, aid) {
                    let ts = target_list(a, nt);
                    if !contains_id(&ts, id) {
                        let mut m = owned("amendment_log contains ");
                        append_num(&mut m, aid);
                        append_str(&mut m, ", but amendment ");
                        append_num(&mut m, aid);
                        append_str(&mut m, " does not target ");
                        append_str(&mut m, tn);
                        append_str(&mut m, " ");
                        append_num(&mut m, id);
                        push_err(issues, "INV-019", tn, id, m);
                    }
                }
                assert(issues_view(issues@) =~= before + flat(log@.take(j + 1), g));
                j = j + 1;
            }
            proof {
                lemma_flat_whole(log@, g);
            }
        }
        assert(issues_view(issues@) =~= base + flat(keys@.take(i + 1), f));
        i = i + 1;
    }
    proof {
        lemma_flat_whole(keys@, f);
    }
}

} // verus!
