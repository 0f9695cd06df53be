//! Text tree of the shape or constraint DAG, drawn with box-drawing
//! connectors, down to a maximum depth.

use vstd::prelude::*;
use crate::dag_node::DagNode;
use crate::ids::{DagType, NodeType};
use crate::issues::{append_num, append_str};
use crate::model::{Constraint, Shape};
use crate::store::{LoadError, NodeFile, Store, get_node, list_file_ids, listed_ids, load_error_is, load_from, loaded};
use crate::text::{dec, owned};
use crate::walk::constraint_label;

verus! {

/// What a rendering produced: the lines written, and the id whose node
/// failed to load, if one stopped it.
pub struct TreeOut {
    /// Lines, in order.
    pub lines: Seq<Seq<char>>,
    /// The node that failed to load.
    pub failed: Option<u64>,
}

/// The connector in front of an item.
pub open spec fn connector(is_last: bool) -> Seq<char> {
    if is_last {
        "└── "@
    } else {
        "├── "@
    }
}

/// The prefix of the items below an item.
pub open spec fn child_prefix(prefix: Seq<char>, is_last: bool) -> Seq<char> {
    if is_last {
        prefix + "    "@
    } else {
        prefix + "│   "@
    }
}

/// The lines listing constraints `cs` under `prefix`, the `k`-th marked
/// last when `k + 1 == total`.
pub open spec fn constraint_lines(st: Store, cs: Seq<u64>, prefix: Seq<char>, total: int) -> Seq<Seq<char>>
    decreases cs.len(),
{
    if cs.len() == 0 {
        Seq::empty()
    } else {
        constraint_lines(st, cs.drop_last(), prefix, total).push(
            prefix + connector(cs.len() == total) + "constraint:"@ + dec(cs.last() as nat) + " "@
                + constraint_label(st, cs.last()),
        )
    }
}

/// The lines of the subtree at node `id`, after `acc`.
pub open spec fn subtree_out<N: DagNode>(
    st: Store,
    f: Seq<NodeFile<N>>,
    id: u64,
    depth: nat,
    prefix: Seq<char>,
    is_last: bool,
    acc: TreeOut,
) -> TreeOut
    decreases depth, 0nat,
{
    if acc.failed is Some {
        acc
    } else {
        match loaded(f, id) {
            None => TreeOut { lines: acc.lines, failed: Some(id) },
            Some(n) => {
                let lines = acc.lines.push(prefix + connector(is_last) + n.label_spec());
                let cp = child_prefix(prefix, is_last);
                let kids = n.children_spec();
                let cs = n.constraints_spec();
                if depth == 0 {
                    TreeOut {
                        lines: if kids.len() > 0 {
                            lines.push(cp + "... ("@ + dec(kids.len()) + " children)"@)
                        } else {
                            lines
                        },
                        failed: None,
                    }
                } else {
                    children_out(
                        st,
                        f,
                        kids,
                        cs.len() as int,
                        (cs.len() + kids.len()) as int,
                        (depth - 1) as nat,
                        cp,
                        TreeOut { lines: lines + constraint_lines(st, cs, cp, (cs.len() + kids.len()) as int), failed: None },
                    )
                }
            },
        }
    }
}

/// The subtrees of `kids` (the `i`-th marked last when
/// `offset + i + 1 == total`), after `acc`.
pub open spec fn children_out<N: DagNode>(
    st: Store,
    f: Seq<NodeFile<N>>,
    kids: Seq<u64>,
    offset: int,
    total: int,
    depth: nat,
    prefix: Seq<char>,
    acc: TreeOut,
) -> TreeOut
    decreases depth, kids.len(),
{
    if kids.len() == 0 {
        acc
    } else {
        let before = children_out(st, f, kids.drop_last(), offset, total, depth, prefix, acc);
        subtree_out(st, f, kids.last(), depth, prefix, offset + kids.len() == total, before)
    }
}

/// The text of a list of lines.
pub open spec fn lines_view(v: Seq<String>) -> Seq<Seq<char>> {
    v.map_values(|l: String| l@)
}

/// Once a rendering stopped, later subtrees add nothing.
proof fn lemma_children_stopped<N: DagNode>(
    st: Store,
    f: Seq<NodeFile<N>>,
    kids: Seq<u64>,
    k: int,
    offset: int,
    total: int,
    depth: nat,
    prefix: Seq<char>,
    acc: TreeOut,
)
    requires
        0 <= k <= kids.len(),
        children_out(st, f, kids.take(k), offset, total, depth, prefix, acc).failed is Some,
    ensures
        children_out(st, f, kids, offset, total, depth, prefix, acc) == children_out(
            st,
            f,
            kids.take(k),
            offset,
            total,
            depth,
            prefix,
            acc,
        ),
    decreases kids.len() - k,
{
    if k < kids.len() {
        let t = kids.take(k + 1);
        assert(t.drop_last() =~= kids.take(k));
        let prev = children_out(st, f, kids.take(k), offset, total, depth, prefix, acc);
        assert(subtree_out(st, f, t.last(), depth, prefix, offset + t.len() == total, prev) == prev);
        lemma_children_stopped(st, f, kids, k + 1, offset, total, depth, prefix, acc);
    } else {
        assert(kids.take(k) =~= kids);
    }
}

/// Appends `line` to `lines`.
fn push_line(lines: &mut Vec<String>, line: String)
    ensures
        lines_view(final(lines)@) == lines_view(old(lines)@).push(line@),
{
    let ghost before = lines@;
    lines.push(line);
    assert(lines_view(lines@) =~= lines_view(before).push(line@));
}

/// The name shown for a constraint, or `???`.
fn constraint_name(st: &Store, cid: u64) -> (r: String)
    ensures
        r@ == constraint_label(*st, cid),
{
    match st.constraint(cid) {
        Some(c) => c.name.clone(),
        None => owned("???"),
    }
}

/// Appends the constraint lines of `cs` under `prefix`.
fn write_constraint_lines(st: &Store, cs: &Vec<u64>, prefix: &str, kids_len: usize, lines: &mut Vec<String>)
    ensures
        lines_view(final(lines)@) == lines_view(old(lines)@) + constraint_lines(*st, cs@, prefix@, cs@.len() + kids_len),
{
    let ghost total = cs@.len() + kids_len;
    let ghost base = lines_view(lines@);
    let mut k: usize = 0;
    while k < cs.len()
        invariant
            k <= cs.len(),
            total == cs@.len() + kids_len,
            lines_view(lines@) == base + constraint_lines(*st, cs@.take(k as int), prefix@, total),
        decreases cs.len() - k,
    {
        assert(cs@.take(k + 1).drop_last() =~= cs@.take(k as int));
        let mut line = owned(prefix);
        append_str(&mut line, if k + 1 == cs.len() && kids_len == 0 { "└── " } else { "├── " });
        append_str(&mut line, "constraint:");
        append_num(&mut line, cs[k]);
        append_str(&mut line, " ");
        append_str(&mut line, constraint_name(st, cs[k]).as_str());
        push_line(lines, line);
        assert(lines_view(lines@) =~= base + constraint_lines(*st, cs@.take(k + 1), prefix@, total));
        k = k + 1;
    }
    assert(cs@.take(k as int) =~= cs@);
}

/// Renders the subtree at node `id`; returns the id that failed to
/// load, if one stopped the rendering.
fn render_subtree<N: DagNode>(
    st: &Store,
    files: &Vec<NodeFile<N>>,
    id: u64,
    depth: usize,
    prefix: &str,
    is_last: bool,
    lines: &mut Vec<String>,
) -> (failed: Option<u64>)
    ensures
        subtree_out(*st, files@, id, depth as nat, prefix@, is_last, TreeOut { lines: lines_view(old(lines)@), failed: None })
            == (TreeOut { lines: lines_view(final(lines)@), failed }),
        failed matches Some(x) ==> loaded(files@, x) is None,
    decreases depth,
{
    let n = match get_node(files, id) {
        Some(n) => n,
        None => return Some(id),
    };
    let mut head = owned(prefix);
    append_str(&mut head, if is_last { "└── " } else { "├── " });
    append_str(&mut head, n.tree_label().as_str());
    push_line(lines, head);
    let mut cp = owned(prefix);
    append_str(&mut cp, if is_last { "    " } else { "│   " });
    let kids = n.child_list();
    let cs = n.constraint_list();
    if depth == 0 {
        if kids.len() > 0 {
            let mut more = cp.clone();
            append_str(&mut more, "... (");
            append_num(&mut more, kids.len() as u64);
            append_str(&mut more, " children)");
            push_line(lines, more);
        }
        return None;
    }
    let ghost total: int = (cs@.len() + kids@.len()) as int;
    write_constraint_lines(st, &cs, cp.as_str(), kids.len(), lines);
    let ghost acc0 = TreeOut { lines: lines_view(lines@), failed: None };
    assert(subtree_out(*st, files@, id, depth as nat, prefix@, is_last, TreeOut { lines: lines_view(old(lines)@), failed: None })
        == children_out(*st, files@, kids@, cs@.len() as int, total, (depth - 1) as nat, cp@, acc0));
    let mut j: usize = 0;
    while j < kids.len()
        invariant
            j <= kids.len(),
            subtree_out(*st, files@, id, depth as nat, prefix@, is_last, TreeOut { lines: lines_view(old(lines)@), failed: None })
                == children_out(*st, files@, kids@, cs@.len() as int, total, (depth - 1) as nat, cp@, acc0),
            depth > 0,
            total == cs@.len() + kids@.len(),
            children_out(*st, files@, kids@.take(j as int), cs@.len() as int, total, (depth - 1) as nat, cp@, acc0)
                == (TreeOut { lines: lines_view(lines@), failed: None }),
        decreases kids.len() - j,
    {
        assert(kids@.take(j + 1).drop_last() =~= kids@.take(j as int));
        let last = j + 1 == kids.len();
        let ghost before = lines_view(lines@);
        let r = render_subtree(st, files, kids[j], depth - 1, cp.as_str(), last, lines);
        assert(kids@.take(j + 1).last() == kids@[j as int]);
        assert(children_out(*st, files@, kids@.take(j + 1), cs@.len() as int, total, (depth - 1) as nat, cp@, acc0)
            == (TreeOut { lines: lines_view(lines@), failed: r }));
        if r.is_some() {
            proof {
                lemma_children_stopped(
                    *st,
                    files@,
                    kids@,
                    j + 1,
                    cs@.len() as int,
                    total,
                    (depth - 1) as nat,
                    cp@,
                    acc0,
                );
            }
            return r;
        }
        j = j + 1;
    }
    assert(kids@.take(j as int) =~= kids@);
    None
}

/// The root ids among listed `ids`: those whose node has no parents;
/// the first id that does not load stops the search.
pub open spec fn roots_out<N: DagNode>(f: Seq<NodeFile<N>>, ids: Seq<u64>) -> Result<Seq<u64>, u64>
    decreases ids.len(),
{
    if ids.len() == 0 {
        Ok(Seq::empty())
    } else {
        match roots_out(f, ids.drop_last()) {
            Err(e) => Err(e),
            Ok(rs) => match loaded(f, ids.last()) {
                None => Err(ids.last()),
                Some(n) => Ok(
                    if n.parents_spec().len() == 0 {
                        rs.push(ids.last())
                    } else {
                        rs
                    },
                ),
            },
        }
    }
}

/// Whether `x` names a node of `f` that loads and has no parents.
pub open spec fn parentless<N: DagNode>(f: Seq<NodeFile<N>>) -> spec_fn(u64) -> bool {
    |x: u64|
        match loaded(f, x) {
            Some(n) => n.parents_spec().len() == 0,
            None => false,
        }
}

/// When every listed id loads, the roots are exactly the listed ids
/// whose node has no parents, in listing order; with the store's
/// listed ids these are the roots `tree` draws when no root is given
/// (see [`tree_out`]).
pub proof fn law_roots_are_the_parentless_nodes<N: DagNode>(f: Seq<NodeFile<N>>, ids: Seq<u64>)
    requires
        forall|i: int| 0 <= i < ids.len() ==> #[trigger] loaded(f, ids[i]) is Some,
    ensures
        roots_out(f, ids) == Ok::<Seq<u64>, u64>(ids.filter(parentless(f))),
    decreases ids.len(),
{
    reveal(Seq::filter);
    if ids.len() > 0 {
        assert forall|i: int| 0 <= i < ids.drop_last().len() implies #[trigger] loaded(f, ids.drop_last()[i]) is Some by {
            assert(ids.drop_last()[i] == ids[i]);
        }
        law_roots_are_the_parentless_nodes(f, ids.drop_last());
        let l = ids.last();
        assert(loaded(f, ids[ids.len() - 1]) is Some);
        let pred = parentless(f);
        let sub = ids.drop_last().filter(pred);
        assert(ids.filter(pred) == if pred(l) { sub.push(l) } else { sub });
        let n = loaded(f, l)->Some_0;
        assert(pred(l) == (n.parents_spec().len() == 0));
    } else {
        assert(ids.filter(parentless(f)) == ids);
        assert(ids =~= Seq::<u64>::empty());
    }
}

/// The lines of one root's tree, after `acc` (and a blank line first
/// when `sep`).
pub open spec fn root_out<N: DagNode>(st: Store, f: Seq<NodeFile<N>>, r: u64, sep: bool, max_depth: nat, acc: TreeOut) -> TreeOut {
    if acc.failed is Some {
        acc
    } else {
        let lines = if sep {
            acc.lines.push(Seq::empty())
        } else {
            acc.lines
        };
        match loaded(f, r) {
            None => TreeOut { lines, failed: Some(r) },
            Some(n) => {
                let lines2 = lines.push(n.label_spec());
                if max_depth == 0 {
                    TreeOut { lines: lines2, failed: None }
                } else {
                    let cs = n.constraints_spec();
                    let kids = n.children_spec();
                    let total = (cs.len() + kids.len()) as int;
                    children_out(
                        st,
                        f,
                        kids,
                        cs.len() as int,
                        total,
                        (max_depth - 1) as nat,
                        Seq::empty(),
                        TreeOut { lines: lines2 + constraint_lines(st, cs, Seq::empty(), total), failed: None },
                    )
                }
            },
        }
    }
}

/// The lines of the trees of roots `rs`, separated by blank lines.
pub open spec fn roots_tree_out<N: DagNode>(st: Store, f: Seq<NodeFile<N>>, rs: Seq<u64>, max_depth: nat) -> TreeOut
    decreases rs.len(),
{
    if rs.len() == 0 {
        TreeOut { lines: Seq::empty(), failed: None }
    } else {
        root_out(st, f, rs.last(), rs.len() > 1, max_depth, roots_tree_out(st, f, rs.drop_last(), max_depth))
    }
}

/// What `tree` prints for a DAG: the root (or every root), with the
/// rendering stopped by the first node that does not load.
pub open spec fn tree_out<N: DagNode>(st: Store, f: Seq<NodeFile<N>>, root: Option<u64>, max_depth: nat) -> TreeOut {
    match root {
        Some(r) => roots_tree_out(st, f, seq![r], max_depth),
        None => match roots_out(f, listed_ids(f)) {
            Err(id) => TreeOut { lines: Seq::empty(), failed: Some(id) },
            Ok(rs) => roots_tree_out(st, f, rs, max_depth),
        },
    }
}

proof fn lemma_roots_stopped<N: DagNode>(st: Store, f: Seq<NodeFile<N>>, rs: Seq<u64>, k: int, max_depth: nat)
    requires
        0 <= k <= rs.len(),
        roots_tree_out(st, f, rs.take(k), max_depth).failed is Some,
    ensures
        roots_tree_out(st, f, rs, max_depth) == roots_tree_out(st, f, rs.take(k), max_depth),
    decreases rs.len() - k,
{
    if k < rs.len() {
        assert(rs.take(k + 1).drop_last() =~= rs.take(k));
        lemma_roots_stopped(st, f, rs, k + 1, max_depth);
    } else {
        assert(rs.take(k) =~= rs);
    }
}

/// The root ids of the DAG held in `files`.
fn find_roots<N: DagNode>(files: &Vec<NodeFile<N>>) -> (r: Result<Vec<u64>, u64>)
    ensures
        match r {
            Ok(v) => roots_out(files@, listed_ids(files@)) == Ok::<Seq<u64>, u64>(v@),
            Err(id) => roots_out(files@, listed_ids(files@)) == Err::<Seq<u64>, u64>(id) && loaded(files@, id) is None,
        },
{
    let ids = list_file_ids(files);
    let mut roots: Vec<u64> = Vec::new();
    let mut i: usize = 0;
    assert(ids@.take(0) =~= Seq::<u64>::empty());
    while i < ids.len()
        invariant
            i <= ids.len(),
            ids@ == listed_ids(files@),
            roots_out(files@, ids@.take(i as int)) == Ok::<Seq<u64>, u64>(roots@),
        decreases ids.len() - i,
    {
        let id = ids[i];
        assert(ids@.take(i + 1).drop_last() =~= ids@.take(i as int));
        match get_node(files, id) {
            None => {
                proof {
                    lemma_roots_err(files@, ids@, i as int);
                }
                return Err(id);
            },
            Some(n) => {
                if n.parent_list().len() == 0 {
                    roots.push(id);
                }
            },
        }
        i = i + 1;
    }
    assert(ids@.take(i as int) =~= ids@);
    Ok(roots)
}

proof fn lemma_roots_err<N: DagNode>(f: Seq<NodeFile<N>>, ids: Seq<u64>, i: int)
    requires
        0 <= i < ids.len(),
        roots_out(f, ids.take(i)) is Ok,
        loaded(f, ids[i]) is None,
    ensures
        roots_out(f, ids) == Err::<Seq<u64>, u64>(ids[i]),
{
    lemma_roots_err_prefix(f, ids, i, ids.len() as int);
    assert(ids.take(ids.len() as int) =~= ids);
}

proof fn lemma_roots_err_prefix<N: DagNode>(f: Seq<NodeFile<N>>, ids: Seq<u64>, i: int, k: int)
    requires
        0 <= i < k <= ids.len(),
        roots_out(f, ids.take(i)) is Ok,
        loaded(f, ids[i]) is None,
    ensures
        roots_out(f, ids.take(k)) == Err::<Seq<u64>, u64>(ids[i]),
    decreases k,
{
    assert(ids.take(k).drop_last() =~= ids.take(k - 1));
    if k > i + 1 {
        lemma_roots_err_prefix(f, ids, i, k - 1);
    }
}

/// Renders the trees of `roots`; returns the id that stopped it.
fn render_roots<N: DagNode>(st: &Store, files: &Vec<NodeFile<N>>, roots: &Vec<u64>, max_depth: usize, lines: &mut Vec<String>) -> (failed: Option<u64>)
    requires
        old(lines)@.len() == 0,
    ensures
        roots_tree_out(*st, files@, roots@, max_depth as nat) == (TreeOut { lines: lines_view(final(lines)@), failed }),
        failed matches Some(x) ==> loaded(files@, x) is None,
{
    let mut i: usize = 0;
    assert(roots@.take(0) =~= Seq::<u64>::empty());
    assert(lines_view(lines@) =~= Seq::<Seq<char>>::empty());
    while i < roots.len()
        invariant
            i <= roots.len(),
            roots_tree_out(*st, files@, roots@.take(i as int), max_depth as nat) == (TreeOut { lines: lines_view(lines@), failed: None }),
        decreases roots.len() - i,
    {
        let r = roots[i];
        let ghost t = roots@.take(i + 1);
        assert(t.drop_last() =~= roots@.take(i as int));
        assert(t.last() == r);
        if i > 0 {
            push_line(lines, String::new());
        }
        let ghost after_sep = lines_view(lines@);
        match get_node(files, r) {
            None => {
                proof {
                    lemma_roots_stopped(*st, files@, roots@, i + 1, max_depth as nat);
                }
                return Some(r);
            },
            Some(n) => {
                push_line(lines, n.tree_label());
                if max_depth > 0 {
                    let cs = n.constraint_list();
                    let kids = n.child_list();
                    let ghost total: int = (cs@.len() + kids@.len()) as int;
                    write_constraint_lines(st, &cs, "", kids.len(), lines);
                    let ghost acc0 = TreeOut { lines: lines_view(lines@), failed: None };
                    proof {
                        reveal_strlit("");
                        assert(""@ =~= Seq::<char>::empty());
                    }
                    let mut j: usize = 0;
                    assert(kids@.take(0) =~= Seq::<u64>::empty());
                    while j < kids.len()
                        invariant
                            j <= kids.len(),
                            max_depth > 0,
                            total == cs@.len() + kids@.len(),
                            ""@ == Seq::<char>::empty(),
                            i < roots@.len(),
                            roots@[i as int] == r,
                            roots_tree_out(*st, files@, roots@.take(i + 1), max_depth as nat)
                                == root_out(*st, files@, r, i > 0, max_depth as nat, roots_tree_out(*st, files@, roots@.take(i as int), max_depth as nat)),
                            children_out(*st, files@, kids@.take(j as int), cs@.len() as int, total, (max_depth - 1) as nat, Seq::empty(), acc0)
                                == (TreeOut { lines: lines_view(lines@), failed: None }),
                            root_out(*st, files@, r, i > 0, max_depth as nat, roots_tree_out(*st, files@, roots@.take(i as int), max_depth as nat))
                                == children_out(*st, files@, kids@, cs@.len() as int, total, (max_depth - 1) as nat, Seq::empty(), acc0),
                        decreases kids.len() - j,
                    {
                        assert(kids@.take(j + 1).drop_last() =~= kids@.take(j as int));
                        assert(kids@.take(j + 1).last() == kids@[j as int]);
                        let last = j + 1 == kids.len();
                        let res = render_subtree(st, files, kids[j], max_depth - 1, "", last, lines);
                        if res.is_some() {
                            proof {
                                lemma_children_stopped(*st, files@, kids@, j + 1, cs@.len() as int, total, (max_depth - 1) as nat, Seq::empty(), acc0);
                                lemma_roots_stopped(*st, files@, roots@, i + 1, max_depth as nat);
                            }
                            return res;
                        }
                        j = j + 1;
                    }
                    assert(kids@.take(j as int) =~= kids@);
                }
            },
        }
        i = i + 1;
    }
    assert(roots@.take(i as int) =~= roots@);
    None
}

/// The message printed when a DAG has no nodes to show.
pub fn no_nodes_message(dag_type: DagType) -> (r: String)
    ensures
        r@ == "No "@ + (match dag_type {
            DagType::Shape => "shape"@,
            DagType::Constraint => "constraint"@,
        }) + " nodes found."@,
{
    let mut m = owned("No ");
    append_str(&mut m, match dag_type { DagType::Shape => "shape", DagType::Constraint => "constraint" });
    append_str(&mut m, " nodes found.");
    m
}

/// `tree`: the lines of the DAG's tree below `root` (or below every
/// root), to `max_depth` levels, and the load error that stopped it, if
/// any. No lines and no error mean the DAG has no nodes to show.
pub fn tree(st: &Store, dag_type: DagType, root: Option<u64>, max_depth: usize) -> (r: (Vec<String>, Option<LoadError>))
    ensures
        ({
            let out = match dag_type {
                DagType::Shape => tree_out(*st, st.shapes@, root, max_depth as nat),
                DagType::Constraint => tree_out(*st, st.constraints@, root, max_depth as nat),
            };
            &&& lines_view(r.0@) == out.lines
            &&& (r.1 is None <==> out.failed is None)
            &&& forall|id: u64| out.failed == Some(id) ==> match dag_type {
                DagType::Shape => load_error_is(st.shapes@, NodeType::Shape, id, r.1->Some_0),
                DagType::Constraint => load_error_is(st.constraints@, NodeType::Constraint, id, r.1->Some_0),
            }
        }),
{
    let mut lines: Vec<String> = Vec::new();
    match dag_type {
        DagType::Shape => {
            let roots = match root {
                Some(r) => {
                    let mut v = Vec::new();
                    v.push(r);
                    assert(v@ =~= seq![r]);
                    v
                },
                None => match find_roots(&st.shapes) {
                    Ok(v) => v,
                    Err(id) => {
                        let e = match load_from(&st.shapes, NodeType::Shape, id) {
                            Err(e) => e,
                            Ok(_) => {
                                assert(false);
                                LoadError::NotFound { node_type: NodeType::Shape, id }
                            },
                        };
                        assert(lines_view(lines@) =~= Seq::<Seq<char>>::empty());
                        return (lines, Some(e));
                    },
                },
            };
            let failed = render_roots(st, &st.shapes, &roots, max_depth, &mut lines);
            match failed {
                Some(id) => {
                    let e = match load_from(&st.shapes, NodeType::Shape, id) {
                        Err(e) => e,
                        Ok(_) => {
                            assert(false);
                            LoadError::NotFound { node_type: NodeType::Shape, id }
                        },
                    };
                    (lines, Some(e))
                },
                None => (lines, None),
            }
        },
        DagType::Constraint => {
            let roots = match root {
                Some(r) => {
                    let mut v = Vec::new();
                    v.push(r);
                    assert(v@ =~= seq![r]);
                    v
                },
                None => match find_roots(&st.constraints) {
                    Ok(v) => v,
                    Err(id) => {
                        let e = match load_from(&st.constraints, NodeType::Constraint, id) {
                            Err(e) => e,
                            Ok(_) => {
                                assert(false);
                                LoadError::NotFound { node_type: NodeType::Constraint, id }
                            },
                        };
                        assert(lines_view(lines@) =~= Seq::<Seq<char>>::empty());
                        return (lines, Some(e));
                    },
                },
            };
            let failed = render_roots(st, &st.constraints, &roots, max_depth, &mut lines);
            match failed {
                Some(id) => {
                    let e = match load_from(&st.constraints, NodeType::Constraint, id) {
                        Err(e) => e,
                        Ok(_) => {
                            assert(false);
                            LoadError::NotFound { node_type: NodeType::Constraint, id }
                        },
                    };
                    (lines, Some(e))
                },
                None => (lines, None),
            }
        },
    }
}

/// Without a given root, when every listed node loads, `tree` draws the
/// trees of exactly the listed nodes that have no parents, in listing
/// order.
pub proof fn law_tree_draws_every_parentless_node<N: DagNode>(st: Store, f: Seq<NodeFile<N>>, max_depth: nat)
    requires
        forall|i: int| 0 <= i < listed_ids(f).len() ==> #[trigger] loaded(f, listed_ids(f)[i]) is Some,
    ensures
        tree_out(st, f, None, max_depth) == roots_tree_out(st, f, listed_ids(f).filter(parentless(f)), max_depth),
{
    law_roots_are_the_parentless_nodes(f, listed_ids(f));
}

} // verus!
