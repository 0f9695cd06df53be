//! Breadth-first walks over the shape and constraint DAGs: ancestors,
//! descendants, the constraints a shape inherits, and the shapes a
//! constraint reaches.

use vstd::prelude::*;
use crate::ids::{ConstraintId, DagType, NodeType, ShapeId};
use crate::model::shape_constraint_ids;
use crate::sorting::{ascending, lemma_sorted_u64_props, sort_ids, sorted_u64};
use crate::store::{
    LoadError, Store, WalkSel, all_edges, lemma_nbrs_in_all_edges, list_file_ids, load_error_is,
    loaded, nbrs,
};
use crate::text::owned;

verus! {

broadcast use {vstd::seq_lib::seq_to_set_is_finite, vstd::seq_lib::group_seq_properties};

/// `r` followed by each item of `xs` that is not already present, in
/// the order the items first occur.
pub open spec fn add_new(r: Seq<u64>, xs: Seq<u64>) -> Seq<u64>
    decreases xs.len(),
{
    if xs.len() == 0 {
        r
    } else {
        let p = add_new(r, xs.drop_last());
        if p.contains(xs.last()) {
            p
        } else {
            p.push(xs.last())
        }
    }
}

/// Visit order of a breadth-first walk from `seeds` once the first `k`
/// visited nodes have been expanded.
pub open spec fn bfs_after(st: Store, sel: WalkSel, seeds: Seq<u64>, k: nat) -> Seq<u64>
    decreases k,
{
    if k == 0 {
        add_new(Seq::empty(), seeds)
    } else {
        let r = bfs_after(st, sel, seeds, (k - 1) as nat);
        if k - 1 < r.len() {
            add_new(r, nbrs(st, sel, r[k - 1]))
        } else {
            r
        }
    }
}

/// `p` is a path that starts at a seed, follows links of the selected
/// kind, and ends at `x`.
pub open spec fn is_path(st: Store, sel: WalkSel, seeds: Seq<u64>, p: Seq<u64>, x: u64) -> bool {
    &&& p.len() >= 1
    &&& seeds.contains(p[0])
    &&& p.last() == x
    &&& forall|i: int| 0 <= i < p.len() - 1 ==> #[trigger] nbrs(st, sel, p[i]).contains(p[i + 1])
}

/// `x` is reachable from `seeds` by following links of the selected
/// kind; seeds reach themselves.
pub open spec fn reachable(st: Store, sel: WalkSel, seeds: Seq<u64>, x: u64) -> bool {
    exists|p: Seq<u64>| #[trigger] is_path(st, sel, seeds, p, x)
}

/// A path extended by one link is a path.
proof fn lemma_path_step(st: Store, sel: WalkSel, seeds: Seq<u64>, p: Seq<u64>, y: u64, x: u64)
    requires
        is_path(st, sel, seeds, p, y),
        nbrs(st, sel, y).contains(x),
    ensures
        is_path(st, sel, seeds, p.push(x), x),
{
    let q = p.push(x);
    assert forall|i: int| 0 <= i < q.len() - 1 implies #[trigger] nbrs(st, sel, q[i]).contains(q[i + 1]) by {
        if i < p.len() - 1 {
            assert(q[i] == p[i] && q[i + 1] == p[i + 1]);
        } else {
            assert(q[i] == y);
        }
    }
}

/// Facts about `add_new`.
pub proof fn lemma_add_new(r: Seq<u64>, xs: Seq<u64>)
    ensures
        add_new(r, xs).len() >= r.len(),
        forall|i: int| 0 <= i < r.len() ==> add_new(r, xs)[i] == r[i],
        r.no_duplicates() ==> add_new(r, xs).no_duplicates(),
        forall|x: u64| add_new(r, xs).contains(x) <==> (r.contains(x) || xs.contains(x)),
    decreases xs.len(),
{
    if xs.len() > 0 {
        let p = add_new(r, xs.drop_last());
        lemma_add_new(r, xs.drop_last());
        assert forall|x: u64| add_new(r, xs).contains(x) <==> (r.contains(x) || xs.contains(x)) by {
            if xs.contains(x) && !xs.drop_last().contains(x) {
                let k = choose|k: int| 0 <= k < xs.len() && xs[k] == x;
                if k < xs.len() - 1 {
                    assert(xs.drop_last()[k] == x);
                }
                assert(x == xs.last());
            }
            if xs.drop_last().contains(x) {
                let k = choose|k: int| 0 <= k < xs.drop_last().len() && xs.drop_last()[k] == x;
                assert(xs[k] == x);
            }
            if !p.contains(xs.last()) {
                assert(p.push(xs.last())[p.len() as int] == xs.last());
                if p.contains(x) {
                    let k = choose|k: int| 0 <= k < p.len() && p[k] == x;
                    assert(p.push(xs.last())[k] == x);
                }
                if p.push(xs.last()).contains(x) && x != xs.last() {
                    let k = choose|k: int| 0 <= k < p.len() + 1 && p.push(xs.last())[k] == x;
                    assert(p[k] == x);
                }
            }
        }
    }
}

/// Whether `v` holds `x`.
pub fn contains_id(v: &Vec<u64>, x: u64) -> (b: bool)
    ensures
        b == v@.contains(x),
{
    let mut i: usize = 0;
    while i < v.len()
        invariant
            i <= v.len(),
            forall|j: int| 0 <= j < i ==> v@[j] != x,
        decreases v.len() - i,
    {
        if v[i] == x {
            assert(v@[i as int] == x);
            return true;
        }
        i = i + 1;
    }
    false
}

/// Appends to `r` each item of `xs` that it does not hold yet.
pub fn push_new(r: &mut Vec<u64>, xs: &Vec<u64>)
    ensures
        final(r)@ == add_new(old(r)@, xs@),
{
    let ghost r0 = r@;
    let mut i: usize = 0;
    while i < xs.len()
        invariant
            i <= xs.len(),
            r@ == add_new(r0, xs@.take(i as int)),
        decreases xs.len() - i,
    {
        assert(xs@.take(i + 1).drop_last() =~= xs@.take(i as int));
        assert(xs@.take(i + 1).last() == xs@[i as int]);
        if !contains_id(r, xs[i]) {
            r.push(xs[i]);
        }
        i = i + 1;
    }
    assert(xs@.take(i as int) =~= xs@);
}

/// Every node on a path lies in a set that holds the seeds and is closed
/// under the neighbour relation.
proof fn lemma_path_closed(st: Store, sel: WalkSel, seeds: Seq<u64>, r: Seq<u64>, p: Seq<u64>, x: u64)
    requires
        forall|y: u64| seeds.contains(y) ==> r.contains(y),
        forall|j: int, y: u64|
            0 <= j < r.len() && #[trigger] nbrs(st, sel, r[j]).contains(y) ==> r.contains(y),
        is_path(st, sel, seeds, p, x),
    ensures
        r.contains(x),
    decreases p.len(),
{
    if p.len() > 1 {
        let q = p.drop_last();
        let y = q.last();
        let i0: int = p.len() - 2;
        assert(nbrs(st, sel, p[i0]).contains(p[i0 + 1]));
        assert(p[i0] == y && p[i0 + 1] == x);
        assert forall|i: int| 0 <= i < q.len() - 1 implies #[trigger] nbrs(st, sel, q[i]).contains(q[i + 1]) by {
            assert(nbrs(st, sel, p[i]).contains(p[i + 1]));
        }
        lemma_path_closed(st, sel, seeds, r, q, y);
        let j = choose|j: int| 0 <= j < r.len() && r[j] == y;
        assert(nbrs(st, sel, r[j]).contains(x));
    }
}

/// Breadth-first walk from `seeds`: every node reachable from them, in
/// visit order, each once.
pub fn walk(st: &Store, sel: WalkSel, seeds: &Vec<u64>) -> (r: Vec<u64>)
    ensures
        r@ == bfs_after(*st, sel, seeds@, r@.len() as nat),
        r@.no_duplicates(),
        forall|x: u64| r@.contains(x) <==> reachable(*st, sel, seeds@, x),
{
    let ghost u = (seeds@ + all_edges(*st, sel)).to_set();
    let mut r: Vec<u64> = Vec::new();
    push_new(&mut r, seeds);
    proof {
        lemma_add_new(Seq::empty(), seeds@);
        assert forall|k: int| 0 <= k < r@.len() implies reachable(*st, sel, seeds@, r@[k]) by {
            assert(r@.contains(r@[k]));
            assert(is_path(*st, sel, seeds@, seq![r@[k]], r@[k]));
        }
        assert forall|x: u64| r@.contains(x) implies u.contains(x) by {
            assert(!Seq::<u64>::empty().contains(x));
            assert(seeds@.contains(x));
            let k = choose|k: int| 0 <= k < seeds@.len() && seeds@[k] == x;
            assert((seeds@ + all_edges(*st, sel))[k] == x);
            assert((seeds@ + all_edges(*st, sel)).contains(x));
        }
    }
    let mut head: usize = 0;
    while head < r.len()
        invariant
            head <= r.len(),
            r@ == bfs_after(*st, sel, seeds@, head as nat),
            r@.no_duplicates(),
            u == (seeds@ + all_edges(*st, sel)).to_set(),
            forall|x: u64| r@.contains(x) ==> u.contains(x),
            forall|x: u64| seeds@.contains(x) ==> r@.contains(x),
            forall|j: int, y: u64|
                0 <= j < head && #[trigger] nbrs(*st, sel, r@[j]).contains(y) ==> r@.contains(y),
            forall|k: int| 0 <= k < r@.len() ==> reachable(*st, sel, seeds@, #[trigger] r@[k]),
        decreases u.len() - head,
    {
        proof {
            r@.unique_seq_to_set();
            vstd::set_lib::lemma_len_subset(r@.to_set(), u);
        }
        let x = r[head];
        let ns = st.neighbors(sel, x);
        let ghost before = r@;
        push_new(&mut r, &ns);
        proof {
            lemma_add_new(before, ns@);
            assert(reachable(*st, sel, seeds@, before[head as int]));
            let p0 = choose|p: Seq<u64>| #[trigger] is_path(*st, sel, seeds@, p, x);
            assert forall|k: int| 0 <= k < r@.len() implies reachable(*st, sel, seeds@, #[trigger] r@[k]) by {
                if k < before.len() {
                    assert(r@[k] == before[k]);
                } else {
                    let y = r@[k];
                    assert(r@.contains(y));
                    if !before.contains(y) {
                        assert(ns@.contains(y));
                        lemma_path_step(*st, sel, seeds@, p0, x, y);
                    } else {
                        let k2 = choose|k2: int| 0 <= k2 < before.len() && before[k2] == y;
                        assert(reachable(*st, sel, seeds@, before[k2]));
                    }
                }
            }
            assert forall|y: u64| r@.contains(y) implies u.contains(y) by {
                if !before.contains(y) {
                    lemma_nbrs_in_all_edges(*st, sel, x, y);
                    let k = choose|k: int|
                        0 <= k < all_edges(*st, sel).len() && all_edges(*st, sel)[k] == y;
                    assert((seeds@ + all_edges(*st, sel))[seeds@.len() + k] == y);
                }
            }
            assert forall|j: int, y: u64|
                0 <= j < head + 1 && #[trigger] nbrs(*st, sel, r@[j]).contains(y) implies r@.contains(
                y,
            ) by {
                assert(r@[j] == before[j]);
                if j < head {
                    assert(nbrs(*st, sel, before[j]).contains(y));
                }
            }
        }
        head = head + 1;
    }
    proof {
        assert forall|x: u64| reachable(*st, sel, seeds@, x) implies r@.contains(x) by {
            let p = choose|p: Seq<u64>| #[trigger] is_path(*st, sel, seeds@, p, x);
            lemma_path_closed(*st, sel, seeds@, r@, p, x);
        }
        assert forall|x: u64| r@.contains(x) implies reachable(*st, sel, seeds@, x) by {
            let k = choose|k: int| 0 <= k < r@.len() && r@[k] == x;
        }
    }
    r
}

/// `v` is the complete result of a walk from `seeds`: the breadth-first
/// visit order, each node once, exactly the reachable nodes.
pub open spec fn walk_result(st: Store, sel: WalkSel, seeds: Seq<u64>, v: Seq<u64>) -> bool {
    &&& v == bfs_after(st, sel, seeds, v.len() as nat)
    &&& v.no_duplicates()
    &&& forall|x: u64| v.contains(x) <==> reachable(st, sel, seeds, x)
}

proof fn lemma_bfs_grows(st: Store, sel: WalkSel, seeds: Seq<u64>, k: nat)
    ensures
        bfs_after(st, sel, seeds, k + 1).len() >= bfs_after(st, sel, seeds, k).len(),
        k >= bfs_after(st, sel, seeds, k).len() ==> bfs_after(st, sel, seeds, k + 1)
            == bfs_after(st, sel, seeds, k),
{
    let r = bfs_after(st, sel, seeds, k);
    if k < r.len() {
        lemma_add_new(r, nbrs(st, sel, r[k as int]));
    }
}

proof fn lemma_bfs_fixed(st: Store, sel: WalkSel, seeds: Seq<u64>, a: nat, m: nat)
    requires
        a == bfs_after(st, sel, seeds, a).len(),
        a <= m,
    ensures
        bfs_after(st, sel, seeds, m) == bfs_after(st, sel, seeds, a),
    decreases m - a,
{
    if a < m {
        lemma_bfs_fixed(st, sel, seeds, a, (m - 1) as nat);
        lemma_bfs_grows(st, sel, seeds, (m - 1) as nat);
    }
}

/// A walk has exactly one complete result: the breadth-first order the
/// walks promise fixes the sequence they return.
pub proof fn law_walk_result_is_unique(st: Store, sel: WalkSel, seeds: Seq<u64>, v1: Seq<u64>, v2: Seq<u64>)
    requires
        walk_result(st, sel, seeds, v1),
        walk_result(st, sel, seeds, v2),
    ensures
        v1 == v2,
{
    if v1.len() <= v2.len() {
        lemma_bfs_fixed(st, sel, seeds, v1.len() as nat, v2.len() as nat);
    } else {
        lemma_bfs_fixed(st, sel, seeds, v2.len() as nat, v1.len() as nat);
    }
}

/// The walk selection for a DAG, towards parents (`up`) or children.
pub open spec fn dag_sel(dag: DagType, up: bool) -> WalkSel {
    match dag {
        DagType::Shape => if up {
            WalkSel::ShapeParents
        } else {
            WalkSel::ShapeChildren
        },
        DagType::Constraint => if up {
            WalkSel::ConstraintParents
        } else {
            WalkSel::ConstraintChildren
        },
    }
}

/// Whether node `id` of the DAG loads.
pub open spec fn dag_loads(st: Store, dag: DagType, id: u64) -> bool {
    match dag {
        DagType::Shape => loaded(st.shapes@, id) is Some,
        DagType::Constraint => loaded(st.constraints@, id) is Some,
    }
}

/// `e` is the error loading node `id` of the DAG reports.
pub open spec fn dag_load_error(st: Store, dag: DagType, id: u64, e: LoadError) -> bool {
    match dag {
        DagType::Shape => load_error_is(st.shapes@, NodeType::Shape, id, e),
        DagType::Constraint => load_error_is(st.constraints@, NodeType::Constraint, id, e),
    }
}

/// Walks from the direct neighbours of `id`, after loading `id` itself.
fn walk_from(st: &Store, dag: DagType, up: bool, id: u64) -> (r: Result<Vec<u64>, LoadError>)
    ensures
        match r {
            Ok(v) => dag_loads(*st, dag, id) && walk_result(
                *st,
                dag_sel(dag, up),
                nbrs(*st, dag_sel(dag, up), id),
                v@,
            ),
            Err(e) => !dag_loads(*st, dag, id) && dag_load_error(*st, dag, id, e),
        },
{
    let sel = match dag {
        DagType::Shape => {
            if let Err(e) = st.load_shape(id) {
                return Err(e);
            }
            if up {
                WalkSel::ShapeParents
            } else {
                WalkSel::ShapeChildren
            }
        },
        DagType::Constraint => {
            if let Err(e) = st.load_constraint(id) {
                return Err(e);
            }
            if up {
                WalkSel::ConstraintParents
            } else {
                WalkSel::ConstraintChildren
            }
        },
    };
    let seeds = st.neighbors(sel, id);
    Ok(walk(st, sel, &seeds))
}

/// All ancestors of `id` in the chosen DAG, breadth-first from its
/// parents, each once. Fails when `id` itself does not load.
pub fn ancestors(st: &Store, dag_type: DagType, id: u64) -> (r: Result<Vec<u64>, LoadError>)
    ensures
        match r {
            Ok(v) => dag_loads(*st, dag_type, id) && walk_result(
                *st,
                dag_sel(dag_type, true),
                nbrs(*st, dag_sel(dag_type, true), id),
                v@,
            ),
            Err(e) => !dag_loads(*st, dag_type, id) && dag_load_error(*st, dag_type, id, e),
        },
{
    walk_from(st, dag_type, true, id)
}

/// All descendants of `id` in the chosen DAG, breadth-first from its
/// children, each once. Fails when `id` itself does not load.
pub fn descendants(st: &Store, dag_type: DagType, id: u64) -> (r: Result<Vec<u64>, LoadError>)
    ensures
        match r {
            Ok(v) => dag_loads(*st, dag_type, id) && walk_result(
                *st,
                dag_sel(dag_type, false),
                nbrs(*st, dag_sel(dag_type, false), id),
                v@,
            ),
            Err(e) => !dag_loads(*st, dag_type, id) && dag_load_error(*st, dag_type, id, e),
        },
{
    walk_from(st, dag_type, false, id)
}

/// A row of [`effective_constraints`].
#[derive(Debug)]
pub struct ConstraintWithSource {
    /// The constraint.
    pub constraint_id: ConstraintId,
    /// Its name, or `???` when it does not load.
    pub constraint_name: String,
    /// The shape that declares it.
    pub source_shape_id: ShapeId,
    /// Whether it comes from an ancestor rather than the shape itself.
    pub inherited: bool,
}

/// Name shown for a constraint: its name, or `???` when it does not load.
pub open spec fn constraint_label(st: Store, cid: u64) -> Seq<char> {
    match loaded(st.constraints@, cid) {
        Some(c) => c.name@,
        None => "???"@,
    }
}

/// Name shown for a shape: its name, or `???` when it does not load.
pub open spec fn shape_label(st: Store, sid: u64) -> Seq<char> {
    match loaded(st.shapes@, sid) {
        Some(s) => s.name@,
        None => "???"@,
    }
}

/// The constraint ids of `p`.
pub open spec fn row_ids(p: Seq<(u64, u64)>) -> Seq<u64> {
    p.map_values(|e: (u64, u64)| e.0)
}

/// `p` extended with a `(constraint, source)` pair for each of `cs` not
/// yet listed.
pub open spec fn add_sources(p: Seq<(u64, u64)>, cs: Seq<u64>, src: u64) -> Seq<(u64, u64)>
    decreases cs.len(),
{
    if cs.len() == 0 {
        p
    } else {
        let q = add_sources(p, cs.drop_last(), src);
        if row_ids(q).contains(cs.last()) {
            q
        } else {
            q.push((cs.last(), src))
        }
    }
}

/// `(constraint, source shape)` pairs collected over the visited shapes
/// `vs`: each constraint once, from the first shape that declares it.
pub open spec fn source_rows(st: Store, vs: Seq<u64>) -> Seq<(u64, u64)>
    decreases vs.len(),
{
    if vs.len() == 0 {
        Seq::empty()
    } else {
        let p = source_rows(st, vs.drop_last());
        match loaded(st.shapes@, vs.last()) {
            Some(s) => add_sources(p, shape_constraint_ids(s), vs.last()),
            None => p,
        }
    }
}

/// The rows of `effective_constraints(st, shape_id)` match the pairs.
pub open spec fn rows_match(st: Store, shape_id: u64, r: Seq<ConstraintWithSource>, p: Seq<(u64, u64)>) -> bool {
    &&& r.len() == p.len()
    &&& forall|i: int|
        0 <= i < r.len() ==> {
            &&& (#[trigger] r[i]).constraint_id.0 == p[i].0
            &&& r[i].source_shape_id.0 == p[i].1
            &&& r[i].inherited == (p[i].1 != shape_id)
            &&& r[i].constraint_name@ == constraint_label(st, p[i].0)
        }
}

/// Every constraint that applies to `shape_id`: its own, then those of its
/// ancestors in breadth-first order, each once, with the shape it comes
/// from. A shape that does not load contributes nothing.
pub fn effective_constraints(st: &Store, shape_id: u64) -> (r: Vec<ConstraintWithSource>)
    ensures
        exists|vs: Seq<u64>|
            walk_result(*st, WalkSel::ShapeParents, seq![shape_id], vs) && rows_match(
                *st,
                shape_id,
                r@,
                #[trigger] source_rows(*st, vs),
            ),
        forall|a: int, b: int|
            0 <= a < b < r@.len() ==> (#[trigger] r@[a]).constraint_id != (#[trigger] r@[b]).constraint_id,
{
    let mut start: Vec<u64> = Vec::new();
    start.push(shape_id);
    let visited = walk(st, WalkSel::ShapeParents, &start);
    let mut rows: Vec<ConstraintWithSource> = Vec::new();
    let mut seen: Vec<u64> = Vec::new();
    let mut k: usize = 0;
    while k < visited.len()
        invariant
            k <= visited.len(),
            rows_match(*st, shape_id, rows@, source_rows(*st, visited@.take(k as int))),
            seen@ == row_ids(source_rows(*st, visited@.take(k as int))),
        decreases visited.len() - k,
    {
        let v = visited[k];
        assert(visited@.take(k + 1).drop_last() =~= visited@.take(k as int));
        let ghost p0 = source_rows(*st, visited@.take(k as int));
        if let Some(s) = st.shape(v) {
            let mut j: usize = 0;
            while j < s.constraints.len()
                invariant
                    j <= s.constraints.len(),
                    loaded(st.shapes@, v) == Some(*s),
                    rows_match(*st, shape_id, rows@, add_sources(p0, shape_constraint_ids(*s).take(j as int), v)),
                    seen@ == row_ids(add_sources(p0, shape_constraint_ids(*s).take(j as int), v)),
                decreases s.constraints.len() - j,
            {
                let cid = s.constraints[j];
                let ghost cs = shape_constraint_ids(*s);
                assert(cs.take(j + 1).drop_last() =~= cs.take(j as int));
                assert(cs.take(j + 1).last() == cid.0);
                let ghost q = add_sources(p0, cs.take(j as int), v);
                if !contains_id(&seen, cid.0) {
                    let name = match st.constraint(cid.0) {
                        Some(c) => c.name.clone(),
                        None => owned("???"),
                    };
                    rows.push(ConstraintWithSource {
                        constraint_id: cid,
                        constraint_name: name,
                        source_shape_id: ShapeId(v),
                        inherited: v != shape_id,
                    });
                    seen.push(cid.0);
                    assert(row_ids(q.push((cid.0, v))) =~= row_ids(q).push(cid.0));
                }
                j = j + 1;
            }
            assert(shape_constraint_ids(*s).take(j as int) =~= shape_constraint_ids(*s));
        }
        k = k + 1;
    }
    assert(visited@.take(k as int) =~= visited@);
    proof {
        law_effective_constraints_first_source(*st, visited@);
        let p = source_rows(*st, visited@);
        assert forall|a: int, b: int| 0 <= a < b < rows@.len() implies (#[trigger] rows@[a]).constraint_id
            != (#[trigger] rows@[b]).constraint_id by {
            assert(rows@[a].constraint_id.0 == p[a].0);
            assert(rows@[b].constraint_id.0 == p[b].0);
            assert(p[a].0 != p[b].0);
        }
    }
    rows
}

/// Facts about `add_sources`: it keeps `p` as a prefix; each added pair
/// names one of `cs` not listed before, with source `src`; no
/// constraint is added twice; and afterwards the listed constraints are
/// those of `p` and `cs`.
proof fn lemma_add_sources(p: Seq<(u64, u64)>, cs: Seq<u64>, src: u64)
    ensures
        add_sources(p, cs, src).len() >= p.len(),
        forall|i: int| 0 <= i < p.len() ==> add_sources(p, cs, src)[i] == p[i],
        forall|i: int|
            p.len() <= i < add_sources(p, cs, src).len() ==> (#[trigger] add_sources(p, cs, src)[i]).1
                == src && cs.contains(add_sources(p, cs, src)[i].0) && !row_ids(p).contains(
                add_sources(p, cs, src)[i].0,
            ),
        row_ids(p).no_duplicates() ==> row_ids(add_sources(p, cs, src)).no_duplicates(),
        forall|c: u64|
            #![trigger row_ids(add_sources(p, cs, src)).contains(c)]
            #![trigger row_ids(p).contains(c)]
            #![trigger cs.contains(c)]
            row_ids(add_sources(p, cs, src)).contains(c) <==> (row_ids(p).contains(c) || cs.contains(c)),
    decreases cs.len(),
{
    if cs.len() > 0 {
        let q = add_sources(p, cs.drop_last(), src);
        lemma_add_sources(p, cs.drop_last(), src);
        let x = cs.last();
        assert(cs.drop_last().contains(x) ==> cs.contains(x));
        assert forall|c: u64| cs.drop_last().contains(c) implies cs.contains(c) by {
            let k = choose|k: int| 0 <= k < cs.drop_last().len() && cs.drop_last()[k] == c;
            assert(cs[k] == c);
        }
        assert(cs[cs.len() - 1] == x);
        assert forall|c: u64| cs.contains(c) implies cs.drop_last().contains(c) || c == x by {
            let k = choose|k: int| 0 <= k < cs.len() && cs[k] == c;
            if k < cs.len() - 1 {
                assert(cs.drop_last()[k] == c);
            }
        }
        if !row_ids(q).contains(x) {
            let r = q.push((x, src));
            assert(row_ids(r) =~= row_ids(q).push(x));
            assert(r[q.len() as int] == (x, src));
            assert(!row_ids(p).contains(x));
            assert forall|i: int| p.len() <= i < r.len() implies (#[trigger] r[i]).1 == src && cs.contains(r[i].0)
                && !row_ids(p).contains(r[i].0) by {
                if i < q.len() {
                    assert(r[i] == q[i]);
                }
            }
            assert forall|c: u64| row_ids(r).contains(c) <==> (row_ids(p).contains(c) || cs.contains(c)) by {
                if row_ids(r).contains(c) && c != x {
                    let k = choose|k: int| 0 <= k < row_ids(r).len() && row_ids(r)[k] == c;
                    assert(row_ids(q)[k] == c);
                }
                if row_ids(q).contains(c) {
                    let k = choose|k: int| 0 <= k < row_ids(q).len() && row_ids(q)[k] == c;
                    assert(row_ids(r)[k] == c);
                }
                if c == x {
                    assert(row_ids(r)[q.len() as int] == x);
                }
            }
            if row_ids(p).no_duplicates() {
                assert(row_ids(q).no_duplicates());
                assert forall|a: int, b: int| 0 <= a < b < row_ids(r).len() implies row_ids(r)[a] != row_ids(r)[b] by {
                    if b == q.len() {
                        assert(row_ids(q)[a] == row_ids(r)[a]);
                    } else {
                        assert(row_ids(q)[a] == row_ids(r)[a]);
                        assert(row_ids(q)[b] == row_ids(r)[b]);
                    }
                }
            }
        } else {
            assert forall|c: u64| row_ids(q).contains(c) <==> (row_ids(p).contains(c) || cs.contains(c)) by {
            }
        }
    }
}

/// Facts about `source_rows` over the visited shapes `vs`: no
/// constraint twice; a constraint is listed exactly when some visited
/// shape lists it; and each pair's source is the first visited shape
/// that lists its constraint.
proof fn lemma_source_rows(st: Store, vs: Seq<u64>)
    ensures
        row_ids(source_rows(st, vs)).no_duplicates(),
        forall|c: u64|
            row_ids(source_rows(st, vs)).contains(c) <==> exists|j: int|
                0 <= j < vs.len() && #[trigger] lists_constraint(st, c, vs[j]),
        forall|k: int|
            0 <= k < source_rows(st, vs).len() ==> exists|j: int|
                0 <= j < vs.len() && vs[j] == (#[trigger] source_rows(st, vs)[k]).1 && lists_constraint(
                    st,
                    source_rows(st, vs)[k].0,
                    vs[j],
                ) && forall|j2: int| 0 <= j2 < j ==> !lists_constraint(st, source_rows(st, vs)[k].0, vs[j2]),
    decreases vs.len(),
{
    if vs.len() > 0 {
        let w = vs.drop_last();
        let v = vs.last();
        let p = source_rows(st, w);
        lemma_source_rows(st, w);
        assert forall|j: int| 0 <= j < w.len() implies vs[j] == w[j] by {}
        match loaded(st.shapes@, v) {
            Some(s) => {
                let cs = shape_constraint_ids(s);
                lemma_add_sources(p, cs, v);
                let r = add_sources(p, cs, v);
                assert forall|c: u64|
                    row_ids(r).contains(c) <==> exists|j: int| 0 <= j < vs.len() && #[trigger] lists_constraint(st, c, vs[j]) by {
                    if row_ids(r).contains(c) {
                        if row_ids(p).contains(c) {
                            let j = choose|j: int| 0 <= j < w.len() && #[trigger] lists_constraint(st, c, w[j]);
                            assert(lists_constraint(st, c, vs[j]));
                        } else {
                            assert(cs.contains(c));
                            assert(lists_constraint(st, c, vs[vs.len() - 1]));
                        }
                    }
                    if exists|j: int| 0 <= j < vs.len() && #[trigger] lists_constraint(st, c, vs[j]) {
                        let j = choose|j: int| 0 <= j < vs.len() && #[trigger] lists_constraint(st, c, vs[j]);
                        if j < w.len() {
                            assert(lists_constraint(st, c, w[j]));
                        } else {
                            assert(cs.contains(c));
                        }
                    }
                }
                assert forall|k: int| 0 <= k < r.len() implies exists|j: int|
                    0 <= j < vs.len() && vs[j] == (#[trigger] r[k]).1 && lists_constraint(st, r[k].0, vs[j])
                        && forall|j2: int| 0 <= j2 < j ==> !lists_constraint(st, r[k].0, vs[j2]) by {
                    if k < p.len() {
                        assert(r[k] == p[k]);
                        let j = choose|j: int|
                            0 <= j < w.len() && w[j] == (#[trigger] p[k]).1 && lists_constraint(st, p[k].0, w[j])
                                && forall|j2: int| 0 <= j2 < j ==> !lists_constraint(st, p[k].0, w[j2]);
                        assert(vs[j] == w[j]);
                        assert forall|j2: int| 0 <= j2 < j implies !lists_constraint(st, r[k].0, vs[j2]) by {
                            assert(vs[j2] == w[j2]);
                        }
                    } else {
                        let c = r[k].0;
                        assert(cs.contains(c) && !row_ids(p).contains(c));
                        let j = vs.len() - 1;
                        assert(lists_constraint(st, c, vs[j]));
                        assert forall|j2: int| 0 <= j2 < j implies !lists_constraint(st, c, vs[j2]) by {
                            if lists_constraint(st, c, vs[j2]) {
                                assert(lists_constraint(st, c, w[j2]));
                            }
                        }
                    }
                }
            },
            None => {
                assert forall|c: u64|
                    row_ids(p).contains(c) <==> exists|j: int| 0 <= j < vs.len() && #[trigger] lists_constraint(st, c, vs[j]) by {
                    if exists|j: int| 0 <= j < vs.len() && #[trigger] lists_constraint(st, c, vs[j]) {
                        let j = choose|j: int| 0 <= j < vs.len() && #[trigger] lists_constraint(st, c, vs[j]);
                        if j < w.len() {
                            assert(lists_constraint(st, c, w[j]));
                        } else {
                            assert(!lists_constraint(st, c, v));
                        }
                    }
                    if row_ids(p).contains(c) {
                        let j = choose|j: int| 0 <= j < w.len() && #[trigger] lists_constraint(st, c, w[j]);
                        assert(lists_constraint(st, c, vs[j]));
                    }
                }
                assert forall|k: int| 0 <= k < p.len() implies exists|j: int|
                    0 <= j < vs.len() && vs[j] == (#[trigger] p[k]).1 && lists_constraint(st, p[k].0, vs[j])
                        && forall|j2: int| 0 <= j2 < j ==> !lists_constraint(st, p[k].0, vs[j2]) by {
                    let j = choose|j: int|
                        0 <= j < w.len() && w[j] == (#[trigger] p[k]).1 && lists_constraint(st, p[k].0, w[j])
                            && forall|j2: int| 0 <= j2 < j ==> !lists_constraint(st, p[k].0, w[j2]);
                    assert(vs[j] == w[j]);
                    assert forall|j2: int| 0 <= j2 < j implies !lists_constraint(st, p[k].0, vs[j2]) by {
                        assert(vs[j2] == w[j2]);
                    }
                }
            },
        }
    }
}

/// The constraints reported for the shapes `vs` a walk visits: each
/// constraint at most once; a constraint is reported exactly when a
/// visited shape lists it; and it is reported with the first visited
/// shape, in visit order, that lists it.
pub proof fn law_effective_constraints_first_source(st: Store, vs: Seq<u64>)
    ensures
        forall|a: int, b: int|
            0 <= a < b < source_rows(st, vs).len() ==> (#[trigger] source_rows(st, vs)[a]).0
                != (#[trigger] source_rows(st, vs)[b]).0,
        forall|c: u64, j: int|
            0 <= j < vs.len() && #[trigger] lists_constraint(st, c, vs[j]) ==> exists|k: int|
                0 <= k < source_rows(st, vs).len() && source_rows(st, vs)[k].0 == c,
        forall|k: int|
            0 <= k < source_rows(st, vs).len() ==> exists|j: int|
                0 <= j < vs.len() && vs[j] == (#[trigger] source_rows(st, vs)[k]).1 && lists_constraint(
                    st,
                    source_rows(st, vs)[k].0,
                    vs[j],
                ) && forall|j2: int| 0 <= j2 < j ==> !lists_constraint(st, source_rows(st, vs)[k].0, vs[j2]),
{
    lemma_source_rows(st, vs);
    let r = source_rows(st, vs);
    assert forall|a: int, b: int| 0 <= a < b < r.len() implies (#[trigger] r[a]).0 != (#[trigger] r[b]).0 by {
        assert(row_ids(r)[a] == r[a].0);
        assert(row_ids(r)[b] == r[b].0);
    }
    assert forall|c: u64, j: int| 0 <= j < vs.len() && #[trigger] lists_constraint(st, c, vs[j]) implies exists|k: int|
        0 <= k < r.len() && r[k].0 == c by {
        assert(row_ids(r).contains(c));
        let k = choose|k: int| 0 <= k < row_ids(r).len() && row_ids(r)[k] == c;
        assert(r[k].0 == c);
    }
}

/// A row of [`shapes_for_constraint`].
#[derive(Debug)]
pub struct ShapeForConstraint {
    /// The shape.
    pub shape_id: ShapeId,
    /// Its name, or `???` when it does not load.
    pub shape_name: String,
    /// Whether it matches only through descent from a shape that lists
    /// the constraint.
    pub inherited: bool,
}

/// Shape `sid` loads and lists constraint `cid` itself.
pub open spec fn lists_constraint(st: Store, cid: u64, sid: u64) -> bool {
    match loaded(st.shapes@, sid) {
        Some(s) => shape_constraint_ids(s).contains(cid),
        None => false,
    }
}

/// Shape `sid` descends, through child links, from a shape that lists
/// constraint `cid`.
pub open spec fn inherits_constraint(st: Store, cid: u64, sid: u64) -> bool {
    exists|d: u64|
        #[trigger] lists_constraint(st, cid, d) && reachable(
            st,
            WalkSel::ShapeChildren,
            nbrs(st, WalkSel::ShapeChildren, d),
            sid,
        )
}

/// Reachability from a concatenation of child lists is reachability from
/// one of them.
proof fn lemma_reach_from_union(st: Store, cid: u64, seeds: Seq<u64>, x: u64)
    requires
        forall|y: u64|
            seeds.contains(y) <==> exists|d: u64|
                #[trigger] lists_constraint(st, cid, d) && nbrs(st, WalkSel::ShapeChildren, d).contains(y),
    ensures
        reachable(st, WalkSel::ShapeChildren, seeds, x) <==> inherits_constraint(st, cid, x),
{
    let sel = WalkSel::ShapeChildren;
    if reachable(st, sel, seeds, x) {
        let p = choose|p: Seq<u64>| #[trigger] is_path(st, sel, seeds, p, x);
        let d = choose|d: u64| #[trigger] lists_constraint(st, cid, d) && nbrs(st, sel, d).contains(p[0]);
        assert(is_path(st, sel, nbrs(st, sel, d), p, x));
    }
    if inherits_constraint(st, cid, x) {
        let d = choose|d: u64|
            #[trigger] lists_constraint(st, cid, d) && reachable(st, sel, nbrs(st, sel, d), x);
        let p = choose|p: Seq<u64>| #[trigger] is_path(st, sel, nbrs(st, sel, d), p, x);
        assert(seeds.contains(p[0]));
        assert(is_path(st, sel, seeds, p, x));
    }
}

/// The shapes that list constraint `constraint_id` themselves.
fn direct_shapes(st: &Store, constraint_id: u64) -> (direct: Vec<u64>)
    ensures
        direct@.no_duplicates(),
        forall|x: u64| direct@.contains(x) <==> lists_constraint(*st, constraint_id, x),
{
    let ids = list_file_ids(&st.shapes);
    let mut direct: Vec<u64> = Vec::new();
    let mut i: usize = 0;
    while i < ids.len()
        invariant
            i <= ids.len(),
            direct@.no_duplicates(),
            forall|x: u64| direct@.contains(x) ==> lists_constraint(*st, constraint_id, x),
            forall|k: int| 0 <= k < i ==> (lists_constraint(*st, constraint_id, #[trigger] ids@[k]) ==> direct@.contains(ids@[k])),
        decreases ids.len() - i,
    {
        let sid = ids[i];
        if let Some(s) = st.shape(sid) {
            let mut listed = false;
            let mut j: usize = 0;
            while j < s.constraints.len()
                invariant
                    j <= s.constraints.len(),
                    listed == shape_constraint_ids(*s).take(j as int).contains(constraint_id),
                decreases s.constraints.len() - j,
            {
                let ghost cs = shape_constraint_ids(*s);
                assert(cs.take(j + 1) =~= cs.take(j as int).push(s.constraints@[j as int].0));
                if s.constraints[j].0 == constraint_id {
                    listed = true;
                }
                j = j + 1;
            }
            assert(shape_constraint_ids(*s).take(j as int) =~= shape_constraint_ids(*s));
            if listed && !contains_id(&direct, sid) {
                direct.push(sid);
            }
            assert(lists_constraint(*st, constraint_id, sid) ==> direct@.contains(sid));
        }
        i = i + 1;
    }
    proof {
        // every shape that lists the constraint has a file, hence is listed
        assert forall|x: u64| lists_constraint(*st, constraint_id, x) implies direct@.contains(x) by {
            crate::store::lemma_first_with(st.shapes@, x);
            let f = crate::store::first_with(st.shapes@, x);
            assert(crate::store::file_ids(st.shapes@)[f] == x);
            lemma_sorted_u64_props(crate::store::file_ids(st.shapes@));
            assert(crate::store::file_ids(st.shapes@).contains(x));
            let k = choose|k: int| 0 <= k < ids@.len() && ids@[k] == x;
            assert(lists_constraint(*st, constraint_id, ids@[k]));
        }
    }
    direct
}

/// The children of the shapes `direct`, concatenated.
fn child_seeds(st: &Store, direct: &Vec<u64>) -> (seeds: Vec<u64>)
    ensures
        forall|y: u64|
            seeds@.contains(y) <==> exists|q: int|
                0 <= q < direct@.len() && #[trigger] nbrs(*st, WalkSel::ShapeChildren, direct@[q]).contains(y),
{
    let sel = WalkSel::ShapeChildren;
    let mut seeds: Vec<u64> = Vec::new();
    let mut k: usize = 0;
    while k < direct.len()
        invariant
            k <= direct.len(),
            forall|y: u64|
                seeds@.contains(y) <==> exists|q: int|
                    0 <= q < k && #[trigger] nbrs(*st, sel, direct@[q]).contains(y),
        decreases direct.len() - k,
    {
        let ns = st.neighbors(sel, direct[k]);
        let ghost before = seeds@;
        let mut m: usize = 0;
        while m < ns.len()
            invariant
                m <= ns.len(),
                ns@ == nbrs(*st, sel, direct@[k as int]),
                seeds@ == before + ns@.take(m as int),
            decreases ns.len() - m,
        {
            assert(before + ns@.take(m + 1) =~= (before + ns@.take(m as int)).push(ns@[m as int]));
            seeds.push(ns[m]);
            m = m + 1;
        }
        assert(ns@.take(m as int) =~= ns@);
        proof {
            assert forall|y: u64|
                seeds@.contains(y) <==> exists|q: int|
                    0 <= q < k + 1 && #[trigger] nbrs(*st, sel, direct@[q]).contains(y) by {
                if seeds@.contains(y) {
                    let t = choose|t: int| 0 <= t < seeds@.len() && seeds@[t] == y;
                    if t >= before.len() {
                        assert(ns@[t - before.len()] == y);
                        assert(nbrs(*st, sel, direct@[k as int]).contains(y));
                    } else {
                        assert(before[t] == y);
                        assert(before.contains(y));
                    }
                }
                if exists|q: int| 0 <= q < k + 1 && #[trigger] nbrs(*st, sel, direct@[q]).contains(y) {
                    let q = choose|q: int| 0 <= q < k + 1 && #[trigger] nbrs(*st, sel, direct@[q]).contains(y);
                    if q == k {
                        let t = choose|t: int| 0 <= t < ns@.len() && ns@[t] == y;
                        assert(seeds@[before.len() + t] == y);
                    } else {
                        assert(before.contains(y));
                        let t = choose|t: int| 0 <= t < before.len() && before[t] == y;
                        assert(seeds@[t] == y);
                    }
                }
            }
        }
        k = k + 1;
    }
    seeds
}

/// Labels the shapes `sorted` with their names and whether they list
/// the constraint themselves.
fn label_shapes(st: &Store, constraint_id: u64, sorted: &Vec<u64>, direct: &Vec<u64>) -> (out: Vec<ShapeForConstraint>)
    requires
        forall|x: u64| direct@.contains(x) <==> lists_constraint(*st, constraint_id, x),
    ensures
        out@.len() == sorted@.len(),
        forall|q: int| 0 <= q < sorted@.len() ==> {
            &&& (#[trigger] out@[q]).shape_id.0 == sorted@[q]
            &&& out@[q].inherited == !lists_constraint(*st, constraint_id, sorted@[q])
            &&& out@[q].shape_name@ == shape_label(*st, sorted@[q])
        },
{
    let mut out: Vec<ShapeForConstraint> = Vec::new();
    let mut t: usize = 0;
    while t < sorted.len()
        invariant
            t <= sorted.len(),
            out@.len() == t,
            forall|q: int| 0 <= q < t ==> {
                &&& (#[trigger] out@[q]).shape_id.0 == sorted@[q]
                &&& out@[q].inherited == !lists_constraint(*st, constraint_id, sorted@[q])
                &&& out@[q].shape_name@ == shape_label(*st, sorted@[q])
            },
            forall|x: u64| direct@.contains(x) <==> lists_constraint(*st, constraint_id, x),
        decreases sorted.len() - t,
    {
        let sid = sorted[t];
        let name = match st.shape(sid) {
            Some(s) => s.name.clone(),
            None => owned("???"),
        };
        let inherited = !contains_id(&direct, sid);
        out.push(ShapeForConstraint { shape_id: ShapeId(sid), shape_name: name, inherited });
        t = t + 1;
    }
    out
}

/// `v` is what [`shapes_for_constraint`] returns for `constraint_id`:
/// the shapes that list it or descend from one that does, in strictly
/// ascending id order, labelled.
pub open spec fn shapes_for_constraint_result(st: Store, constraint_id: u64, v: Seq<ShapeForConstraint>) -> bool {
    &&& forall|i: int, j: int| 0 <= i < j < v.len() ==> v[i].shape_id.0 < v[j].shape_id.0
    &&& forall|x: u64|
        (exists|i: int| 0 <= i < v.len() && v[i].shape_id.0 == x) <==> (lists_constraint(
            st,
            constraint_id,
            x,
        ) || inherits_constraint(st, constraint_id, x))
    &&& forall|i: int|
        0 <= i < v.len() ==> {
            &&& (#[trigger] v[i]).inherited == !lists_constraint(st, constraint_id, v[i].shape_id.0)
            &&& v[i].shape_name@ == shape_label(st, v[i].shape_id.0)
        }
}

/// Every shape that lists constraint `constraint_id`, or descends from one
/// that does, in ascending id order, each once; `inherited` marks those
/// that do not list it themselves. Fails when the constraint does not
/// load.
pub fn shapes_for_constraint(st: &Store, constraint_id: u64) -> (r: Result<Vec<ShapeForConstraint>, LoadError>)
    ensures
        match r {
            Ok(v) => loaded(st.constraints@, constraint_id) is Some
                && shapes_for_constraint_result(*st, constraint_id, v@),
            Err(e) => loaded(st.constraints@, constraint_id) is None && load_error_is(
                st.constraints@,
                NodeType::Constraint,
                constraint_id,
                e,
            ),
        },
{
    match st.load_constraint(constraint_id) {
        Err(e) => {
            return Err(e);
        },
        Ok(_) => {},
    }
    assert(loaded(st.constraints@, constraint_id) is Some);
    let sel = WalkSel::ShapeChildren;
    let direct = direct_shapes(st, constraint_id);
    let seeds = child_seeds(st, &direct);
    proof {
        assert forall|y: u64|
            seeds@.contains(y) <==> exists|d: u64|
                #[trigger] lists_constraint(*st, constraint_id, d) && nbrs(*st, sel, d).contains(y) by {
            if seeds@.contains(y) {
                let q = choose|q: int| 0 <= q < direct@.len() && #[trigger] nbrs(*st, sel, direct@[q]).contains(y);
                assert(direct@.contains(direct@[q]));
                assert(lists_constraint(*st, constraint_id, direct@[q]));
            }
            if exists|d: u64| #[trigger] lists_constraint(*st, constraint_id, d) && nbrs(*st, sel, d).contains(y) {
                let d = choose|d: u64| #[trigger] lists_constraint(*st, constraint_id, d) && nbrs(*st, sel, d).contains(y);
                let q = choose|q: int| 0 <= q < direct@.len() && direct@[q] == d;
                assert(nbrs(*st, sel, direct@[q]).contains(y));
            }
        }
    }
    let walked = walk(st, sel, &seeds);
    let mut all: Vec<u64> = direct.clone();
    assert(all@ == direct@);
    let mut w: usize = 0;
    while w < walked.len()
        invariant
            w <= walked.len(),
            all@.no_duplicates(),
            forall|x: u64|
                all@.contains(x) <==> (direct@.contains(x) || walked@.take(w as int).contains(x)),
        decreases walked.len() - w,
    {
        let x = walked[w];
        assert(walked@.take(w + 1) =~= walked@.take(w as int).push(x));
        if !contains_id(&all, x) {
            all.push(x);
        }
        w = w + 1;
    }
    assert(walked@.take(w as int) =~= walked@);
    let sorted = sort_ids(&all);
    proof {
        lemma_sorted_u64_props(all@);
        all@.lemma_multiset_has_no_duplicates();
        sorted@.lemma_multiset_has_no_duplicates_conv();
        lemma_reach_from_union(*st, constraint_id, seeds@, 0);
        assert forall|x: u64| sorted@.contains(x) <==> (lists_constraint(*st, constraint_id, x) || inherits_constraint(*st, constraint_id, x)) by {
            lemma_reach_from_union(*st, constraint_id, seeds@, x);
        }
    }
    let out = label_shapes(st, constraint_id, &sorted, &direct);
    proof {
        assert forall|i: int, j: int| 0 <= i < j < out@.len() implies out@[i].shape_id.0 < out@[j].shape_id.0 by {
            assert(out@[i].shape_id.0 == sorted@[i] && out@[j].shape_id.0 == sorted@[j]);
            assert(sorted@[i] != sorted@[j]);
        }
        assert forall|x: u64|
            (exists|i: int| 0 <= i < out@.len() && out@[i].shape_id.0 == x) <==> (lists_constraint(
                *st,
                constraint_id,
                x,
            ) || inherits_constraint(*st, constraint_id, x)) by {
            assert(sorted@.contains(x) <==> (lists_constraint(*st, constraint_id, x) || inherits_constraint(*st, constraint_id, x)));
            if sorted@.contains(x) {
                let i = choose|i: int| 0 <= i < sorted@.len() && sorted@[i] == x;
                assert(out@[i].shape_id.0 == x);
            }
            if exists|i: int| 0 <= i < out@.len() && out@[i].shape_id.0 == x {
                let i = choose|i: int| 0 <= i < out@.len() && out@[i].shape_id.0 == x;
                assert(sorted@[i] == x);
            }
        }
        assert forall|i: int| 0 <= i < out@.len() implies {
            &&& (#[trigger] out@[i]).inherited == !lists_constraint(*st, constraint_id, out@[i].shape_id.0)
            &&& out@[i].shape_name@ == shape_label(*st, out@[i].shape_id.0)
        } by {
            assert(out@[i].shape_id.0 == sorted@[i]);
        }
        assert(shapes_for_constraint_result(*st, constraint_id, out@));
    }
    Ok(out)
}

} // verus!
