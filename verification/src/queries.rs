//! Read-only commands over a store: `list` with its filters, the
//! amendment-log view of `get`, and the `query` dispatcher.

use vstd::prelude::*;
use crate::ids::{AmendmentId, DagType, NodeType, type_name_of};
use crate::model::{Amendment, Constraint, Profile, Shape, status_name};
use crate::store::{
    LoadError, NodeFile, Store, find_first, first_with, list_file_ids, listed_ids, load_error_is,
    load_from, loaded,
};
use crate::text::owned;
use crate::walk::{
    ConstraintWithSource, ShapeForConstraint, contains_id, dag_load_error, dag_loads, dag_sel,
    descendants, effective_constraints, ancestors, rows_match, shapes_for_constraint,
    shapes_for_constraint_result, source_rows, walk_result,
};

verus! {

/// One row of `list`.
#[derive(Debug)]
pub struct ListEntry {
    /// Node kind (`shape`, ...).
    pub node_type: String,
    /// Id.
    pub id: u64,
    /// Name.
    pub name: String,
    /// Status name.
    pub status: String,
    /// Kind: a constraint's own `kind`, else its intent kind.
    pub kind: String,
}

/// The content of a `list` row.
pub struct RowSpec {
    /// Node kind.
    pub node_type: Seq<char>,
    /// Id.
    pub id: u64,
    /// Name.
    pub name: Seq<char>,
    /// Status name.
    pub status: Seq<char>,
    /// Kind.
    pub kind: Seq<char>,
}

impl View for ListEntry {
    type V = RowSpec;

    open spec fn view(&self) -> RowSpec {
        RowSpec {
            node_type: self.node_type@,
            id: self.id,
            name: self.name@,
            status: self.status@,
            kind: self.kind@,
        }
    }
}

/// The row of node `id` of kind `nt`, when it loads.
pub open spec fn row_of(st: Store, nt: NodeType, id: u64) -> Option<RowSpec> {
    let tn = type_name_of(nt);
    match nt {
        NodeType::Shape => match loaded(st.shapes@, id) {
            Some(s) => Some(RowSpec { node_type: tn, id, name: s.name@, status: status_name(s.status), kind: s.intent.kind@ }),
            None => None,
        },
        NodeType::Constraint => match loaded(st.constraints@, id) {
            Some(c) => Some(RowSpec { node_type: tn, id, name: c.name@, status: status_name(c.status), kind: c.kind@ }),
            None => None,
        },
        NodeType::Amendment => match loaded(st.amendments@, id) {
            Some(a) => Some(RowSpec { node_type: tn, id, name: a.name@, status: status_name(a.status), kind: a.intent.kind@ }),
            None => None,
        },
        NodeType::Profile => match loaded(st.profiles@, id) {
            Some(p) => Some(RowSpec { node_type: tn, id, name: p.name@, status: status_name(p.status), kind: p.intent.kind@ }),
            None => None,
        },
    }
}

/// The listed ids of kind `nt`, ascending with repeats.
pub open spec fn ids_of(st: Store, nt: NodeType) -> Seq<u64> {
    match nt {
        NodeType::Shape => listed_ids(st.shapes@),
        NodeType::Constraint => listed_ids(st.constraints@),
        NodeType::Amendment => listed_ids(st.amendments@),
        NodeType::Profile => listed_ids(st.profiles@),
    }
}

/// A row passes the optional status and kind filters.
pub open spec fn passes(r: RowSpec, sf: Option<Seq<char>>, kf: Option<Seq<char>>) -> bool {
    (match sf {
        Some(x) => r.status == x,
        None => true,
    }) && (match kf {
        Some(x) => r.kind == x,
        None => true,
    })
}

/// Rows for `ids` of kind `nt` that pass the filters, after `acc`; the
/// first id that does not load stops the listing.
pub open spec fn list_rows(
    st: Store,
    nt: NodeType,
    ids: Seq<u64>,
    sf: Option<Seq<char>>,
    kf: Option<Seq<char>>,
    acc: Seq<RowSpec>,
) -> Result<Seq<RowSpec>, (NodeType, u64)>
    decreases ids.len(),
{
    if ids.len() == 0 {
        Ok(acc)
    } else {
        match list_rows(st, nt, ids.drop_last(), sf, kf, acc) {
            Err(e) => Err(e),
            Ok(rows) => match row_of(st, nt, ids.last()) {
                None => Err((nt, ids.last())),
                Some(r) => Ok(
                    if passes(r, sf, kf) {
                        rows.push(r)
                    } else {
                        rows
                    },
                ),
            },
        }
    }
}

/// Rows over the kinds `types` in order.
pub open spec fn list_types(
    st: Store,
    types: Seq<NodeType>,
    sf: Option<Seq<char>>,
    kf: Option<Seq<char>>,
) -> Result<Seq<RowSpec>, (NodeType, u64)>
    decreases types.len(),
{
    if types.len() == 0 {
        Ok(Seq::empty())
    } else {
        match list_types(st, types.drop_last(), sf, kf) {
            Err(e) => Err(e),
            Ok(rows) => list_rows(st, types.last(), ids_of(st, types.last()), sf, kf, rows),
        }
    }
}

/// The kinds `list` walks: the one asked for, else all four in order.
pub open spec fn list_order(t: Option<NodeType>) -> Seq<NodeType> {
    match t {
        Some(x) => seq![x],
        None => seq![NodeType::Shape, NodeType::Constraint, NodeType::Amendment, NodeType::Profile],
    }
}

/// `e` is the error loading node `id` of kind `nt`.
pub open spec fn kind_load_error(st: Store, nt: NodeType, id: u64, e: LoadError) -> bool {
    match nt {
        NodeType::Shape => load_error_is(st.shapes@, nt, id, e),
        NodeType::Constraint => load_error_is(st.constraints@, nt, id, e),
        NodeType::Amendment => load_error_is(st.amendments@, nt, id, e),
        NodeType::Profile => load_error_is(st.profiles@, nt, id, e),
    }
}

/// The text of an optional filter.
pub open spec fn filter_view(v: Option<String>) -> Option<Seq<char>> {
    match v {
        Some(x) => Some(x@),
        None => None,
    }
}

/// The row of node `id` of kind `nt`.
fn load_row(st: &Store, nt: NodeType, id: u64) -> (r: Result<ListEntry, LoadError>)
    ensures
        match r {
            Ok(e) => row_of(*st, nt, id) == Some(e@),
            Err(e) => row_of(*st, nt, id) is None && kind_load_error(*st, nt, id, e),
        },
{
    let tn = owned(nt.name());
    match nt {
        NodeType::Shape => match load_from(&st.shapes, nt, id) {
            Ok(s) => Ok(ListEntry { node_type: tn, id, name: s.name.clone(), status: owned(s.status.name()), kind: s.intent.kind.clone() }),
            Err(e) => Err(e),
        },
        NodeType::Constraint => match load_from(&st.constraints, nt, id) {
            Ok(c) => Ok(ListEntry { node_type: tn, id, name: c.name.clone(), status: owned(c.status.name()), kind: c.kind.clone() }),
            Err(e) => Err(e),
        },
        NodeType::Amendment => match load_from(&st.amendments, nt, id) {
            Ok(a) => Ok(ListEntry { node_type: tn, id, name: a.name.clone(), status: owned(a.status.name()), kind: a.intent.kind.clone() }),
            Err(e) => Err(e),
        },
        NodeType::Profile => match load_from(&st.profiles, nt, id) {
            Ok(p) => Ok(ListEntry { node_type: tn, id, name: p.name.clone(), status: owned(p.status.name()), kind: p.intent.kind.clone() }),
            Err(e) => Err(e),
        },
    }
}

/// The listed ids of kind `nt`.
fn ids_for(st: &Store, nt: NodeType) -> (r: Vec<u64>)
    ensures
        r@ == ids_of(*st, nt),
{
    match nt {
        NodeType::Shape => list_file_ids(&st.shapes),
        NodeType::Constraint => list_file_ids(&st.constraints),
        NodeType::Amendment => list_file_ids(&st.amendments),
        NodeType::Profile => list_file_ids(&st.profiles),
    }
}

/// Whether a row passes the filters.
fn row_passes(e: &ListEntry, sf: &Option<String>, kf: &Option<String>) -> (r: bool)
    ensures
        r == passes(e@, filter_view(*sf), filter_view(*kf)),
{
    let s_ok = match sf {
        Some(x) => e.status == *x,
        None => true,
    };
    let k_ok = match kf {
        Some(x) => e.kind == *x,
        None => true,
    };
    s_ok && k_ok
}

/// Lists the nodes of one kind, or of all four in order, keeping those
/// whose status and kind match the filters given. Fails on the first
/// listed node that does not load.
pub fn list(st: &Store, node_type: Option<NodeType>, status_filter: &Option<String>, kind_filter: &Option<String>) -> (r: Result<Vec<ListEntry>, LoadError>)
    ensures
        match r {
            Ok(v) => list_types(*st, list_order(node_type), filter_view(*status_filter), filter_view(*kind_filter))
                == Ok::<Seq<RowSpec>, (NodeType, u64)>(v@.map_values(|e: ListEntry| e@)),
            Err(e) => list_types(*st, list_order(node_type), filter_view(*status_filter), filter_view(*kind_filter)) matches Err((nt, id))
                && kind_load_error(*st, nt, id, e),
        },
{
    let mut types: Vec<NodeType> = Vec::new();
    match node_type {
        Some(t) => types.push(t),
        None => {
            types.push(NodeType::Shape);
            types.push(NodeType::Constraint);
            types.push(NodeType::Amendment);
            types.push(NodeType::Profile);
        },
    }
    assert(types@ =~= list_order(node_type));
    let ghost sf = filter_view(*status_filter);
    let ghost kf = filter_view(*kind_filter);
    let mut out: Vec<ListEntry> = Vec::new();
    let mut t: usize = 0;
    assert(types@.take(0) =~= Seq::<NodeType>::empty());
    assert(out@.map_values(|e: ListEntry| e@) =~= Seq::<RowSpec>::empty());
    while t < types.len()
        invariant
            t <= types.len(),
            types@ == list_order(node_type),
            list_types(*st, types@.take(t as int), sf, kf) == Ok::<Seq<RowSpec>, (NodeType, u64)>(out@.map_values(|e: ListEntry| e@)),
            sf == filter_view(*status_filter),
            kf == filter_view(*kind_filter),
        decreases types.len() - t,
    {
        let nt = types[t];
        assert(types@.take(t + 1).drop_last() =~= types@.take(t as int));
        let ids = ids_for(st, nt);
        let ghost acc = out@.map_values(|e: ListEntry| e@);
        let mut i: usize = 0;
        assert(ids@.take(0) =~= Seq::<u64>::empty());
        while i < ids.len()
            invariant
                i <= ids.len(),
                t < types.len(),
                nt == types@[t as int],
                types@ == list_order(node_type),
                list_types(*st, types@.take(t as int), sf, kf) == Ok::<Seq<RowSpec>, (NodeType, u64)>(acc),
                ids@ == ids_of(*st, nt),
                list_rows(*st, nt, ids@.take(i as int), sf, kf, acc) == Ok::<Seq<RowSpec>, (NodeType, u64)>(out@.map_values(|e: ListEntry| e@)),
                sf == filter_view(*status_filter),
                kf == filter_view(*kind_filter),
            decreases ids.len() - i,
        {
            let id = ids[i];
            assert(ids@.take(i + 1).drop_last() =~= ids@.take(i as int));
            match load_row(st, nt, id) {
                Err(e) => {
                    proof {
                        lemma_list_rows_err(*st, nt, ids@, sf, kf, acc, i as int);
                        lemma_list_types_err(*st, types@, sf, kf, t as int, ids@);
                    }
                    return Err(e);
                },
                Ok(row) => {
                    let ghost before = out@;
                    if row_passes(&row, status_filter, kind_filter) {
                        out.push(row);
                        assert(out@.map_values(|e: ListEntry| e@) =~= before.map_values(|e: ListEntry| e@).push(out@[out@.len() - 1]@));
                    }
                },
            }
            i = i + 1;
        }
        assert(ids@.take(i as int) =~= ids@);
        t = t + 1;
    }
    assert(types@.take(t as int) =~= types@);
    Ok(out)
}

/// Once a listing of one kind fails, later ids do not matter.
proof fn lemma_list_rows_err(
    st: Store,
    nt: NodeType,
    ids: Seq<u64>,
    sf: Option<Seq<char>>,
    kf: Option<Seq<char>>,
    acc: Seq<RowSpec>,
    i: int,
)
    requires
        0 <= i < ids.len(),
        list_rows(st, nt, ids.take(i), sf, kf, acc) is Ok,
        row_of(st, nt, ids[i]) is None,
    ensures
        list_rows(st, nt, ids, sf, kf, acc) == Err::<Seq<RowSpec>, (NodeType, u64)>((nt, ids[i])),
    decreases ids.len() - i,
{
    lemma_list_rows_err_prefix(st, nt, ids, sf, kf, acc, i, ids.len() as int);
    assert(ids.take(ids.len() as int) =~= ids);
}

proof fn lemma_list_rows_err_prefix(
    st: Store,
    nt: NodeType,
    ids: Seq<u64>,
    sf: Option<Seq<char>>,
    kf: Option<Seq<char>>,
    acc: Seq<RowSpec>,
    i: int,
    k: int,
)
    requires
        0 <= i < k <= ids.len(),
        list_rows(st, nt, ids.take(i), sf, kf, acc) is Ok,
        row_of(st, nt, ids[i]) is None,
    ensures
        list_rows(st, nt, ids.take(k), sf, kf, acc) == Err::<Seq<RowSpec>, (NodeType, u64)>((nt, ids[i])),
    decreases k,
{
    assert(ids.take(k).drop_last() =~= ids.take(k - 1));
    if k == i + 1 {
        assert(ids.take(k).last() == ids[i]);
    } else {
        lemma_list_rows_err_prefix(st, nt, ids, sf, kf, acc, i, k - 1);
    }
}

/// Once a listing fails at some kind, later kinds do not matter.
proof fn lemma_list_types_err(
    st: Store,
    types: Seq<NodeType>,
    sf: Option<Seq<char>>,
    kf: Option<Seq<char>>,
    t: int,
    ids: Seq<u64>,
)
    requires
        0 <= t < types.len(),
        ids == ids_of(st, types[t]),
        list_types(st, types.take(t), sf, kf) is Ok,
        list_rows(st, types[t], ids, sf, kf, list_types(st, types.take(t), sf, kf)->Ok_0) is Err,
    ensures
        list_types(st, types, sf, kf) == list_rows(st, types[t], ids, sf, kf, list_types(st, types.take(t), sf, kf)->Ok_0),
{
    lemma_list_types_err_prefix(st, types, sf, kf, t, types.len() as int, ids);
    assert(types.take(types.len() as int) =~= types);
}

proof fn lemma_list_types_err_prefix(
    st: Store,
    types: Seq<NodeType>,
    sf: Option<Seq<char>>,
    kf: Option<Seq<char>>,
    t: int,
    k: int,
    ids: Seq<u64>,
)
    requires
        0 <= t < k <= types.len(),
        ids == ids_of(st, types[t]),
        list_types(st, types.take(t), sf, kf) is Ok,
        list_rows(st, types[t], ids, sf, kf, list_types(st, types.take(t), sf, kf)->Ok_0) is Err,
    ensures
        list_types(st, types.take(k), sf, kf) == list_rows(st, types[t], ids, sf, kf, list_types(st, types.take(t), sf, kf)->Ok_0),
    decreases k,
{
    assert(types.take(k).drop_last() =~= types.take(k - 1));
    if k == t + 1 {
        assert(types.take(k).last() == types[t]);
    } else {
        lemma_list_types_err_prefix(st, types, sf, kf, t, k - 1, ids);
    }
}

/// Whether amendment `id` loads and is archived.
pub open spec fn is_archived_amendment(st: Store, id: u64) -> bool {
    match loaded(st.amendments@, id) {
        Some(a) => a.archived is Yes,
        None => false,
    }
}

/// The ids in `log` whose amendment loads and is archived, ascending,
/// each once. Amendments that do not load count as not archived.
pub fn collect_archived_ids(st: &Store, log: &Vec<AmendmentId>) -> (r: Vec<u64>)
    ensures
        crate::sorting::ascending(r@),
        r@.no_duplicates(),
        forall|x: u64|
            #![trigger r@.contains(x)]
            #![trigger log_ids(log@).contains(x)]
            r@.contains(x) <==> (log_ids(log@).contains(x) && is_archived_amendment(*st, x)),
{
    let ghost ids = log_ids(log@);
    let mut found: Vec<u64> = Vec::new();
    let mut i: usize = 0;
    assert(ids.take(0) =~= Seq::<u64>::empty());
    while i < log.len()
        invariant
            i <= log.len(),
            ids == log_ids(log@),
            found@.no_duplicates(),
            forall|x: u64|
                #![trigger found@.contains(x)]
                #![trigger is_archived_amendment(*st, x)]
                found@.contains(x) <==> (ids.take(i as int).contains(x) && is_archived_amendment(*st, x)),
        decreases log.len() - i,
    {
        let id = log[i].0;
        assert(ids[i as int] == id);
        assert(ids.take(i + 1) =~= ids.take(i as int).push(id));
        let archived = match crate::store::get_node(&st.amendments, id) {
            Some(a) => a.is_archived(),
            None => false,
        };
        let ghost before = found@;
        let ghost old_take = ids.take(i as int);
        let fresh = !contains_id(&found, id);
        if archived && fresh {
            found.push(id);
        }
        proof {
            assert(is_archived_amendment(*st, id) == archived);
            let new_take = ids.take(i + 1);
            assert(new_take =~= old_take.push(id));
            assert forall|x: u64| found@.contains(x) <==> (new_take.contains(x) && is_archived_amendment(*st, x)) by {
                if new_take.contains(x) {
                    let k = choose|k: int| 0 <= k < new_take.len() && new_take[k] == x;
                    if k < old_take.len() {
                        assert(old_take[k] == x);
                        assert(old_take.contains(x));
                    }
                }
                if old_take.contains(x) {
                    let k = choose|k: int| 0 <= k < old_take.len() && old_take[k] == x;
                    assert(new_take[k] == x);
                }
                assert(new_take[i as int] == id);
                if found@.contains(x) {
                    let k = choose|k: int| 0 <= k < found@.len() && found@[k] == x;
                    if k < before.len() {
                        assert(before[k] == x);
                        assert(before.contains(x));
                    }
                }
                if before.contains(x) {
                    let k = choose|k: int| 0 <= k < before.len() && before[k] == x;
                    assert(found@[k] == x);
                }
                if archived && fresh && x == id {
                    assert(found@[before.len() as int] == x);
                }
            }
            if archived && fresh {
                assert forall|a: int, b: int| 0 <= a < b < found@.len() implies found@[a] != found@[b] by {
                    if b == before.len() {
                        assert(found@[a] == before[a]);
                        assert(before.contains(found@[a]));
                    }
                }
            }
        }
        i = i + 1;
    }
    assert(ids.take(i as int) =~= ids);
    assert(forall|x: u64| found@.contains(x) <==> (ids.contains(x) && is_archived_amendment(*st, x)));
    let r = crate::sorting::sort_ids(&found);
    proof {
        crate::sorting::lemma_sorted_u64_props(found@);
        found@.lemma_multiset_has_no_duplicates();
        r@.lemma_multiset_has_no_duplicates_conv();
        assert forall|x: u64| r@.contains(x) <==> (ids.contains(x) && is_archived_amendment(*st, x)) by {
            assert(r@.contains(x) <==> found@.contains(x));
        }
    }
    r
}

/// How `get` rewrites a node's amendment log.
#[derive(Debug)]
pub enum PatchedLog {
    /// Every entry as `{id}`, with `archived: true` on archived ones.
    Annotated(Vec<(u64, bool)>),
    /// The entries that are not archived.
    Filtered(Vec<u64>),
    /// No entry remains: the field is dropped.
    Removed,
}

/// The log entries that are not archived.
pub open spec fn unarchived(log: Seq<u64>, archived: Seq<u64>) -> Seq<u64>
    decreases log.len(),
{
    if log.len() == 0 {
        Seq::empty()
    } else {
        let p = unarchived(log.drop_last(), archived);
        if archived.contains(log.last()) {
            p
        } else {
            p.push(log.last())
        }
    }
}

/// Rewrites an amendment log: shown in full with archived entries
/// flagged, or with archived entries dropped (and the field removed when
/// none remain).
pub fn patch_amendment_log(log: &Vec<u64>, archived: &Vec<u64>, show_archived: bool) -> (r: PatchedLog)
    ensures
        show_archived ==> (r matches PatchedLog::Annotated(v) && v@ == log@.map_values(
            |x: u64| (x, archived@.contains(x)),
        )),
        !show_archived && unarchived(log@, archived@).len() == 0 ==> r is Removed,
        !show_archived && unarchived(log@, archived@).len() > 0 ==> (r matches PatchedLog::Filtered(v)
            && v@ == unarchived(log@, archived@)),
{
    if show_archived {
        let mut v: Vec<(u64, bool)> = Vec::new();
        let mut i: usize = 0;
        while i < log.len()
            invariant
                i <= log.len(),
                v@ =~= log@.take(i as int).map_values(|x: u64| (x, archived@.contains(x))),
            decreases log.len() - i,
        {
            let x = log[i];
            let a = contains_id(archived, x);
            v.push((x, a));
            assert(log@.take(i + 1) =~= log@.take(i as int).push(x));
            i = i + 1;
        }
        assert(log@.take(i as int) =~= log@);
        PatchedLog::Annotated(v)
    } else {
        let mut v: Vec<u64> = Vec::new();
        let mut i: usize = 0;
        while i < log.len()
            invariant
                i <= log.len(),
                v@ == unarchived(log@.take(i as int), archived@),
            decreases log.len() - i,
        {
            let x = log[i];
            assert(log@.take(i + 1).drop_last() =~= log@.take(i as int));
            if !contains_id(archived, x) {
                v.push(x);
            }
            i = i + 1;
        }
        assert(log@.take(i as int) =~= log@);
        if v.len() == 0 {
            PatchedLog::Removed
        } else {
            PatchedLog::Filtered(v)
        }
    }
}

/// `r` is the rewrite of `log` given the archived ids `archived`.
pub open spec fn patch_of(r: PatchedLog, log: Seq<u64>, archived: Seq<u64>, show_archived: bool) -> bool {
    if show_archived {
        r matches PatchedLog::Annotated(v) && v@ == log.map_values(|x: u64| (x, archived.contains(x)))
    } else if unarchived(log, archived).len() == 0 {
        r is Removed
    } else {
        r matches PatchedLog::Filtered(v) && v@ == unarchived(log, archived)
    }
}

/// The amendment log of node `id` of kind `nt` (amendments have none).
pub open spec fn log_of(st: Store, nt: NodeType, id: u64) -> Seq<u64> {
    match nt {
        NodeType::Shape => match loaded(st.shapes@, id) {
            Some(n) => crate::dag_node::HasLog::log_spec(&n),
            None => Seq::empty(),
        },
        NodeType::Constraint => match loaded(st.constraints@, id) {
            Some(n) => crate::dag_node::HasLog::log_spec(&n),
            None => Seq::empty(),
        },
        NodeType::Profile => match loaded(st.profiles@, id) {
            Some(n) => crate::dag_node::HasLog::log_spec(&n),
            None => Seq::empty(),
        },
        NodeType::Amendment => Seq::empty(),
    }
}

/// Whether node `id` of kind `nt` loads.
pub open spec fn kind_loads(st: Store, nt: NodeType, id: u64) -> bool {
    row_of(st, nt, id) is Some
}

/// `get`: checks that node `id` of kind `nt` loads and, for shapes,
/// constraints and profiles, rewrites its amendment log to hide archived
/// amendments (or flag them, with `show_archived`). Amendments are shown
/// whole, so they get no rewrite.
pub fn get(st: &Store, node_type: NodeType, id: u64, show_archived: bool) -> (r: Result<Option<PatchedLog>, LoadError>)
    ensures
        match r {
            Ok(None) => node_type == NodeType::Amendment && kind_loads(*st, node_type, id),
            Ok(Some(p)) => node_type != NodeType::Amendment && kind_loads(*st, node_type, id) && exists|archived: Seq<u64>|
                (forall|x: u64| #[trigger] archived.contains(x) <==> (log_of(*st, node_type, id).contains(x)
                    && is_archived_amendment(*st, x))) && #[trigger] patch_of(p, log_of(*st, node_type, id), archived, show_archived),
            Err(e) => !kind_loads(*st, node_type, id) && kind_load_error(*st, node_type, id, e),
        },
{
    match node_type {
        NodeType::Shape => match load_from(&st.shapes, node_type, id) {
            Ok(n) => {
                assert(log_ids(n.amendment_log@) =~= log_of(*st, node_type, id));
                Ok(Some(log_patch(st, &n.amendment_log, show_archived)))
            },
            Err(e) => Err(e),
        },
        NodeType::Constraint => match load_from(&st.constraints, node_type, id) {
            Ok(n) => {
                assert(log_ids(n.amendment_log@) =~= log_of(*st, node_type, id));
                Ok(Some(log_patch(st, &n.amendment_log, show_archived)))
            },
            Err(e) => Err(e),
        },
        NodeType::Profile => match load_from(&st.profiles, node_type, id) {
            Ok(n) => {
                assert(log_ids(n.amendment_log@) =~= log_of(*st, node_type, id));
                Ok(Some(log_patch(st, &n.amendment_log, show_archived)))
            },
            Err(e) => Err(e),
        },
        NodeType::Amendment => match load_from(&st.amendments, node_type, id) {
            Ok(_) => Ok(None),
            Err(e) => Err(e),
        },
    }
}

/// The raw ids of an amendment log.
pub open spec fn log_ids(log: Seq<AmendmentId>) -> Seq<u64> {
    log.map_values(|a: AmendmentId| a.0)
}

/// The rewrite of an amendment log for `get`.
fn log_patch(st: &Store, log: &Vec<AmendmentId>, show_archived: bool) -> (p: PatchedLog)
    ensures
        exists|archived: Seq<u64>|
            (forall|x: u64| #[trigger] archived.contains(x) <==> (log_ids(log@).contains(x)
                && is_archived_amendment(*st, x))) && #[trigger] patch_of(p, log_ids(log@), archived, show_archived),
{
    let ids = crate::dag_node::raw_amendment_ids(log);
    assert(ids@ =~= log_ids(log@));
    let archived = collect_archived_ids(st, log);
    let p = patch_amendment_log(&ids, &archived, show_archived);
    assert(patch_of(p, log_ids(log@), archived@, show_archived));
    assert(forall|x: u64| #[trigger] archived@.contains(x) <==> (log_ids(log@).contains(x)
        && is_archived_amendment(*st, x)));
    p
}

/// A DAG query.
#[derive(Debug)]
pub enum QueryCommand {
    /// All ancestors of a node.
    Ancestors {
        /// Which DAG.
        node_type: DagType,
        /// The node.
        id: u64,
    },
    /// All descendants of a node.
    Descendants {
        /// Which DAG.
        node_type: DagType,
        /// The node.
        id: u64,
    },
    /// The constraints that apply to a shape.
    Constraints {
        /// The shape.
        shape_id: u64,
    },
    /// The shapes a constraint reaches.
    ShapesForConstraint {
        /// The constraint.
        constraint_id: u64,
    },
}

/// The answer to a [`QueryCommand`].
#[derive(Debug)]
pub enum QueryOutput {
    /// Node ids.
    Ids(Vec<u64>),
    /// Constraint rows.
    Constraints(Vec<ConstraintWithSource>),
    /// Shape rows.
    Shapes(Vec<ShapeForConstraint>),
}

/// Answers a DAG query.
pub fn query(st: &Store, op: QueryCommand) -> (r: Result<QueryOutput, LoadError>)
    ensures
        match op {
            QueryCommand::Ancestors { node_type, id } => match r {
                Ok(QueryOutput::Ids(v)) => dag_loads(*st, node_type, id) && walk_result(
                    *st,
                    dag_sel(node_type, true),
                    crate::store::nbrs(*st, dag_sel(node_type, true), id),
                    v@,
                ),
                Ok(_) => false,
                Err(e) => !dag_loads(*st, node_type, id) && dag_load_error(*st, node_type, id, e),
            },
            QueryCommand::Descendants { node_type, id } => match r {
                Ok(QueryOutput::Ids(v)) => dag_loads(*st, node_type, id) && walk_result(
                    *st,
                    dag_sel(node_type, false),
                    crate::store::nbrs(*st, dag_sel(node_type, false), id),
                    v@,
                ),
                Ok(_) => false,
                Err(e) => !dag_loads(*st, node_type, id) && dag_load_error(*st, node_type, id, e),
            },
            QueryCommand::Constraints { shape_id } => match r {
                Ok(QueryOutput::Constraints(v)) => exists|vs: Seq<u64>|
                    walk_result(*st, crate::store::WalkSel::ShapeParents, seq![shape_id], vs) && rows_match(
                        *st,
                        shape_id,
                        v@,
                        #[trigger] source_rows(*st, vs),
                    ),
                _ => false,
            },
            QueryCommand::ShapesForConstraint { constraint_id } => match r {
                Ok(QueryOutput::Shapes(v)) => loaded(st.constraints@, constraint_id) is Some
                    && shapes_for_constraint_result(*st, constraint_id, v@),
                Ok(_) => false,
                Err(e) => loaded(st.constraints@, constraint_id) is None && load_error_is(
                    st.constraints@,
                    NodeType::Constraint,
                    constraint_id,
                    e,
                ),
            },
        },
{
    match op {
        QueryCommand::Ancestors { node_type, id } => match ancestors(st, node_type, id) {
            Ok(v) => Ok(QueryOutput::Ids(v)),
            Err(e) => Err(e),
        },
        QueryCommand::Descendants { node_type, id } => match descendants(st, node_type, id) {
            Ok(v) => Ok(QueryOutput::Ids(v)),
            Err(e) => Err(e),
        },
        QueryCommand::Constraints { shape_id } => Ok(QueryOutput::Constraints(effective_constraints(st, shape_id))),
        QueryCommand::ShapesForConstraint { constraint_id } => match shapes_for_constraint(st, constraint_id) {
            Ok(v) => Ok(QueryOutput::Shapes(v)),
            Err(e) => Err(e),
        },
    }
}

} // verus!
