//! Cycle detection over the child links of one DAG (INV-001 for shapes,
//! INV-002 for constraints): a depth-first search that colours nodes
//! white, grey and black and reports each link into a grey node.

use vstd::prelude::*;
use crate::dag_node::DagNode;
use crate::ids::{NodeType, type_name_of};
use crate::issues::{IssueSpec, ValidationIssue, append_num, err, issues_view, push_err};
use crate::store::{NodeFile, get_node, lemma_node_keys, loaded, node_keys};
use crate::text::{dec, owned};

verus! {

/// Search state of one node.
#[derive(Debug, Clone, Copy, PartialEq, Eq, Structural)]
pub enum Color {
    /// Not reached yet.
    White,
    /// On the current search path.
    Gray,
    /// Finished.
    Black,
}

/// A child link `u -> v` between two nodes that load.
pub open spec fn edge<N: DagNode>(f: Seq<NodeFile<N>>, u: u64, v: u64) -> bool {
    match loaded(f, u) {
        Some(n) => n.children_spec().contains(v) && loaded(f, v) is Some,
        None => false,
    }
}

/// `p` follows child links from node to node.
pub open spec fn is_walk<N: DagNode>(f: Seq<NodeFile<N>>, p: Seq<u64>) -> bool {
    forall|i: int| 0 <= i < p.len() - 1 ==> #[trigger] edge(f, p[i], p[i + 1])
}

/// Node `b` can be reached from node `a` by child links (in zero or more
/// steps).
pub open spec fn reaches<N: DagNode>(f: Seq<NodeFile<N>>, a: u64, b: u64) -> bool {
    exists|p: Seq<u64>| p.len() >= 1 && p[0] == a && p.last() == b && #[trigger] is_walk(f, p)
}

/// Some child link closes a cycle.
pub open spec fn has_cycle<N: DagNode>(f: Seq<NodeFile<N>>) -> bool {
    exists|u: u64, v: u64| #[trigger] edge(f, u, v) && reaches(f, v, u)
}

/// The issue reporting the link `e.0 -> e.1` into a node on the search
/// path.
pub open spec fn cycle_issue(inv: Seq<char>, tn: Seq<char>, e: (u64, u64)) -> IssueSpec {
    err(inv, tn, e.0, "cycle detected: "@ + dec(e.0 as nat) + " -> "@ + dec(e.1 as nat))
}

/// The issues for the reported links `es`.
pub open spec fn cycle_issues(inv: Seq<char>, tn: Seq<char>, es: Seq<(u64, u64)>) -> Seq<IssueSpec> {
    es.map_values(|e: (u64, u64)| cycle_issue(inv, tn, e))
}

/// The position of id `v` among `keys`, if it is there.
pub open spec fn key_pos(keys: Seq<u64>, v: u64) -> Option<int> {
    if keys.contains(v) {
        Some(choose|i: int| 0 <= i < keys.len() && keys[i] == v)
    } else {
        None
    }
}

/// The child ids of node `u` (none when it does not load).
pub open spec fn kids_of<N: DagNode>(f: Seq<NodeFile<N>>, u: u64) -> Seq<u64> {
    match loaded(f, u) {
        Some(n) => n.children_spec(),
        None => Seq::empty(),
    }
}

/// The search from the white node `keys[k]` over colours `c`: it turns
/// the node grey, visits its children in order, and turns it black.
/// Returns the final colours and the links it reports; `fuel` bounds
/// the depth (the number of white nodes suffices).
pub open spec fn dfs_spec<N: DagNode>(
    f: Seq<NodeFile<N>>,
    keys: Seq<u64>,
    c: Seq<Color>,
    k: int,
    fuel: nat,
) -> (Seq<Color>, Seq<(u64, u64)>)
    decreases fuel, 1nat, 0int,
{
    let u = keys[k];
    let kids = kids_of(f, u);
    let r = kids_spec(f, keys, c.update(k, Color::Gray), u, kids, kids.len() as int, fuel);
    (r.0.update(k, Color::Black), r.1)
}

/// The first `n` children `kids` of node `u`, visited in order from
/// colours `c`: a link into a grey node is reported, a white node is
/// searched, anything else is passed over.
pub open spec fn kids_spec<N: DagNode>(
    f: Seq<NodeFile<N>>,
    keys: Seq<u64>,
    c: Seq<Color>,
    u: u64,
    kids: Seq<u64>,
    n: int,
    fuel: nat,
) -> (Seq<Color>, Seq<(u64, u64)>)
    decreases fuel, 0nat, n,
{
    if n <= 0 || n > kids.len() {
        (c, Seq::empty())
    } else {
        let p = kids_spec(f, keys, c, u, kids, n - 1, fuel);
        let v = kids[n - 1];
        match key_pos(keys, v) {
            None => p,
            Some(w) => if 0 <= w < p.0.len() && p.0[w] == Color::Gray {
                (p.0, p.1.push((u, v)))
            } else if 0 <= w < p.0.len() && p.0[w] == Color::White && fuel > 0 {
                let q = dfs_spec(f, keys, p.0, w, (fuel - 1) as nat);
                (q.0, p.1 + q.1)
            } else {
                p
            },
        }
    }
}

/// All colours white.
pub open spec fn all_white(n: nat) -> Seq<Color> {
    Seq::new(n, |_i: int| Color::White)
}

/// The searches started from the first `n` keys in order, from colours
/// `c`, each from a key still white.
pub open spec fn search_all<N: DagNode>(f: Seq<NodeFile<N>>, keys: Seq<u64>, c: Seq<Color>, n: int) -> (Seq<Color>, Seq<(u64, u64)>)
    decreases n,
{
    if n <= 0 {
        (c, Seq::empty())
    } else {
        let p = search_all(f, keys, c, n - 1);
        if 0 <= n - 1 < p.0.len() && p.0[n - 1] == Color::White {
            let q = dfs_spec(f, keys, p.0, n - 1, white_count(p.0));
            (q.0, p.1 + q.1)
        } else {
            p
        }
    }
}

/// The links a full search of `f` reports, in order.
pub open spec fn found_links<N: DagNode>(f: Seq<NodeFile<N>>) -> Seq<(u64, u64)> {
    search_all(f, node_keys(f), all_white(node_keys(f).len()), node_keys(f).len() as int).1
}

/// Number of white entries.
pub open spec fn white_count(c: Seq<Color>) -> nat
    decreases c.len(),
{
    if c.len() == 0 {
        0
    } else {
        white_count(c.drop_last()) + if c.last() == Color::White {
            1nat
        } else {
            0nat
        }
    }
}

/// Colours only move away from white: the white count does not grow, and
/// shrinks when some entry left white.
proof fn lemma_white_count(c1: Seq<Color>, c2: Seq<Color>)
    requires
        c1.len() == c2.len(),
        forall|i: int| 0 <= i < c1.len() && c2[i] == Color::White ==> c1[i] == Color::White,
    ensures
        white_count(c2) <= white_count(c1),
        (exists|i: int| 0 <= i < c1.len() && c1[i] == Color::White && c2[i] != Color::White)
            ==> white_count(c2) < white_count(c1),
    decreases c1.len(),
{
    if c1.len() > 0 {
        let (a, b) = (c1.drop_last(), c2.drop_last());
        assert forall|i: int| 0 <= i < a.len() && b[i] == Color::White implies a[i] == Color::White by {
            assert(b[i] == c2[i] && a[i] == c1[i]);
        }
        lemma_white_count(a, b);
        if exists|i: int| 0 <= i < c1.len() && c1[i] == Color::White && c2[i] != Color::White {
            let i = choose|i: int| 0 <= i < c1.len() && c1[i] == Color::White && c2[i] != Color::White;
            if i < a.len() {
                assert(a[i] == c1[i] && b[i] == c2[i]);
            }
        }
    }
}

/// The search invariant over keys `keys` (indices into it), colours `c`,
/// search path `stack`, finished nodes `done` in finishing order, and
/// reported links `es`.
pub open spec fn dfs_inv<N: DagNode>(
    f: Seq<NodeFile<N>>,
    keys: Seq<u64>,
    c: Seq<Color>,
    stack: Seq<int>,
    done: Seq<int>,
    es: Seq<(u64, u64)>,
) -> bool {
    &&& keys == node_keys(f)
    &&& c.len() == keys.len()
    &&& stack.no_duplicates()
    &&& done.no_duplicates()
    &&& forall|t: int| 0 <= t < stack.len() ==> 0 <= #[trigger] stack[t] < keys.len()
    &&& forall|t: int| 0 <= t < done.len() ==> 0 <= #[trigger] done[t] < keys.len()
    &&& forall|i: int| 0 <= i < c.len() ==> (c[i] == Color::Gray <==> stack.contains(i))
    &&& forall|i: int| 0 <= i < c.len() ==> (c[i] == Color::Black <==> done.contains(i))
    &&& forall|t: int|
        0 <= t < stack.len() - 1 ==> #[trigger] edge(f, keys[stack[t]], keys[stack[t + 1]])
    &&& forall|a: int, v: u64|
        0 <= a < done.len() && #[trigger] edge(f, keys[done[a]], v) ==> (exists|b: int|
            0 <= b < a && keys[done[b]] == v) || es.contains((keys[done[a]], v))
    &&& forall|k: int| 0 <= k < es.len() ==> edge(f, (#[trigger] es[k]).0, es[k].1) && reaches(f, es[k].1, es[k].0)
}

/// The part of the search path from position `t` is a walk ending at its
/// top.
proof fn lemma_stack_walk<N: DagNode>(
    f: Seq<NodeFile<N>>,
    keys: Seq<u64>,
    stack: Seq<int>,
    t: int,
)
    requires
        0 <= t < stack.len(),
        forall|s: int|
            0 <= s < stack.len() - 1 ==> #[trigger] edge(f, keys[stack[s]], keys[stack[s + 1]]),
    ensures
        reaches(f, keys[stack[t]], keys[stack.last()]),
{
    let p = stack.subrange(t, stack.len() as int).map_values(|i: int| keys[i]);
    assert forall|i: int| 0 <= i < p.len() - 1 implies #[trigger] edge(f, p[i], p[i + 1]) by {
        assert(p[i] == keys[stack[t + i]] && p[i + 1] == keys[stack[t + i + 1]]);
        assert(edge(f, keys[stack[t + i]], keys[stack[t + i + 1]]));
    }
    assert(is_walk(f, p));
}

/// Position of `x` among `keys`.
fn key_index(keys: &Vec<u64>, x: u64) -> (r: Option<usize>)
    ensures
        match r {
            Some(i) => i < keys.len() && keys@[i as int] == x,
            None => !keys@.contains(x),
        },
{
    let mut i: usize = 0;
    while i < keys.len()
        invariant
            i <= keys.len(),
            forall|j: int| 0 <= j < i ==> keys@[j] != x,
        decreases keys.len() - i,
    {
        if keys[i] == x {
            return Some(i);
        }
        i = i + 1;
    }
    None
}

/// Searches from the white node `keys[k]`, reporting every link into a
/// node on the search path.
#[verifier::rlimit(60)]
fn dfs<N: DagNode>(
    files: &Vec<NodeFile<N>>,
    keys: &Vec<u64>,
    colors: &mut Vec<Color>,
    k: usize,
    inv: &str,
    tn: &str,
    issues: &mut Vec<ValidationIssue>,
    Ghost(stack): Ghost<Seq<int>>,
    Ghost(done): Ghost<Seq<int>>,
    Ghost(es): Ghost<Seq<(u64, u64)>>,
    Ghost(base): Ghost<Seq<IssueSpec>>,
    Ghost(budget): Ghost<nat>,
) -> (r: Ghost<(Seq<int>, Seq<(u64, u64)>)>)
    requires
        dfs_inv(files@, keys@, old(colors)@, stack, done, es),
        k < keys.len(),
        old(colors)@[k as int] == Color::White,
        stack.len() > 0 ==> edge(files@, keys@[stack.last()], keys@[k as int]),
        issues_view(old(issues)@) == base + cycle_issues(inv@, tn@, es),
        white_count(old(colors)@) <= budget,
    ensures
        dfs_inv(files@, keys@, final(colors)@, stack, r@.0, r@.1),
        final(colors)@[k as int] == Color::Black,
        r@.0.len() >= done.len(),
        forall|t: int| 0 <= t < done.len() ==> r@.0[t] == done[t],
        r@.1.len() >= es.len(),
        forall|t: int| 0 <= t < es.len() ==> r@.1[t] == es[t],
        forall|i: int|
            0 <= i < final(colors)@.len() && final(colors)@[i] == Color::White ==> old(colors)@[i]
                == Color::White,
        forall|i: int|
            0 <= i < final(colors)@.len() && old(colors)@[i] != Color::White ==> final(colors)@[i]
                == old(colors)@[i],
        issues_view(final(issues)@) == base + cycle_issues(inv@, tn@, r@.1),
        final(colors)@ == dfs_spec(files@, keys@, old(colors)@, k as int, budget).0,
        r@.1 == es + dfs_spec(files@, keys@, old(colors)@, k as int, budget).1,
    decreases budget,
{
    let ghost c0 = colors@;
    colors.set(k, Color::Gray);
    let ghost c1 = colors@;
    let ghost s1 = stack.push(k as int);
    proof {
        lemma_node_keys(files@);
        assert forall|i: int| 0 <= i < colors@.len() implies (colors@[i] == Color::Gray <==> s1.contains(i)) by {
            if i == k {
                assert(s1[s1.len() - 1] == i);
            } else {
                assert(colors@[i] == c0[i]);
                if stack.contains(i) {
                    let t = choose|t: int| 0 <= t < stack.len() && stack[t] == i;
                    assert(s1[t] == i);
                }
                if s1.contains(i) {
                    let t = choose|t: int| 0 <= t < s1.len() && s1[t] == i;
                    assert(stack[t] == i);
                }
            }
        }
        assert forall|t: int| 0 <= t < s1.len() - 1 implies #[trigger] edge(files@, keys@[s1[t]], keys@[s1[t + 1]]) by {
            if t < stack.len() - 1 {
                assert(s1[t] == stack[t] && s1[t + 1] == stack[t + 1]);
            } else {
                assert(s1[t] == stack.last() && s1[t + 1] == k);
            }
        }
        assert(!stack.contains(k as int));
        assert(dfs_inv(files@, keys@, colors@, s1, done, es));
        lemma_white_count(c0, colors@);
    }
    let u = keys[k];
    let children = match get_node(files, u) {
        Some(n) => n.child_list(),
        None => Vec::new(),
    };
    let ghost node = loaded(files@, u)->Some_0;
    assert(keys@[k as int] == u);
    assert(keys@.contains(u));
    assert(loaded(files@, u) is Some);
    assert(children@ == node.children_spec());
    assert(children@ == kids_of(files@, u));
    assert(c1 == c0.update(k as int, Color::Gray));
    let ghost mut d = done;
    let ghost mut e = es;
    let mut j: usize = 0;
    assert(e =~= es + kids_spec(files@, keys@, c1, u, children@, 0, budget).1);
    while j < children.len()
        invariant
            j <= children.len(),
            k < keys.len(),
            u == keys@[k as int],
            loaded(files@, u) == Some(node),
            children@ == node.children_spec(),
            dfs_inv(files@, keys@, colors@, s1, d, e),
            colors@[k as int] == Color::Gray,
            s1 == stack.push(k as int),
            white_count(colors@) < budget,
            d.len() >= done.len(),
            forall|t: int| 0 <= t < done.len() ==> d[t] == done[t],
            e.len() >= es.len(),
            forall|t: int| 0 <= t < es.len() ==> e[t] == es[t],
            forall|i: int|
                0 <= i < colors@.len() && colors@[i] == Color::White ==> c0[i] == Color::White,
            forall|i: int|
                0 <= i < colors@.len() && c0[i] != Color::White && i != k ==> colors@[i] == c0[i],
            colors@.len() == c0.len(),
            issues_view(issues@) == base + cycle_issues(inv@, tn@, e),
            forall|v: u64|
                children@.take(j as int).contains(v) && loaded(files@, v) is Some ==> (exists|b: int|
                    0 <= b < d.len() && keys@[d[b]] == v) || e.contains((u, v)),
            c1 == c0.update(k as int, Color::Gray),
            colors@ == kids_spec(files@, keys@, c1, u, children@, j as int, budget).0,
            e == es + kids_spec(files@, keys@, c1, u, children@, j as int, budget).1,
        decreases children.len() - j,
    {
        let v = children[j];
        let ghost kj = kids_spec(files@, keys@, c1, u, children@, j as int, budget);
        proof {
            lemma_node_keys(files@);
            assert(children@[j as int] == v);
            assert(node.children_spec().contains(v));
        }
        let ghost cj = colors@;
        let ghost dj = d;
        let ghost ej = e;
        match key_index(keys, v) {
            Some(w) => {
                if colors[w] == Color::Gray {
                    let mut msg = owned("cycle detected: ");
                    append_num(&mut msg, u);
                    crate::issues::append_str(&mut msg, " -> ");
                    append_num(&mut msg, v);
                    let ghost before = issues@;
                    push_err(issues, inv, tn, u, msg);
                    proof {
                        e = e.push((u, v));
                        assert(cycle_issues(inv@, tn@, e) =~= cycle_issues(inv@, tn@, ej).push(cycle_issue(inv@, tn@, (u, v))));
                        // the grey node is on the path, which ends at `u`
                        assert(s1.contains(w as int));
                        let t = choose|t: int| 0 <= t < s1.len() && s1[t] == w as int;
                        lemma_stack_walk(files@, keys@, s1, t);
                        assert(keys@[s1.last()] == u);
                        assert(node.children_spec().contains(v));
                        assert(keys@.contains(v));
                        assert(edge(files@, u, v));
                        assert forall|q: int| 0 <= q < e.len() implies edge(files@, (#[trigger] e[q]).0, e[q].1) && reaches(files@, e[q].1, e[q].0) by {
                            if q < ej.len() {
                                assert(e[q] == ej[q]);
                            }
                        }
                        assert forall|a: int, x: u64|
                            0 <= a < d.len() && #[trigger] edge(files@, keys@[d[a]], x) implies (exists|b: int|
                                0 <= b < a && keys@[d[b]] == x) || e.contains((keys@[d[a]], x)) by {
                            if ej.contains((keys@[d[a]], x)) {
                                let q = choose|q: int| 0 <= q < ej.len() && ej[q] == (keys@[d[a]], x);
                                assert(e[q] == ej[q]);
                            }
                        }
                        assert(e[e.len() - 1] == (u, v));
                    }
                } else if colors[w] == Color::White {
                    proof {
                        assert(keys@.contains(v));
                        assert(edge(files@, u, v));
                        assert(s1.last() == k);
                    }
                    let ghost bud: nat = (budget - 1) as nat;
                    let r = dfs(
                        files,
                        keys,
                        colors,
                        w,
                        inv,
                        tn,
                        issues,
                        Ghost(s1),
                        Ghost(d),
                        Ghost(e),
                        Ghost(base),
                        Ghost(bud),
                    );
                    proof {
                        d = r@.0;
                        e = r@.1;
                        lemma_white_count(cj, colors@);
                        assert(colors@[w as int] == Color::Black);
                        assert(d.contains(w as int));
                        let b = choose|b: int| 0 <= b < d.len() && d[b] == w as int;
                        assert(keys@[d[b]] == v);
                    }
                }
            },
            None => {},
        }
        proof {
            assert(children@.take(j + 1) =~= children@.take(j as int).push(v));
            assert forall|x: u64|
                children@.take(j + 1).contains(x) && loaded(files@, x) is Some implies (exists|b: int|
                    0 <= b < d.len() && keys@[d[b]] == x) || e.contains((u, x)) by {
                if x != v {
                    assert(children@.take(j as int).contains(x));
                    if exists|b: int| 0 <= b < dj.len() && keys@[dj[b]] == x {
                        let b = choose|b: int| 0 <= b < dj.len() && keys@[dj[b]] == x;
                        assert(d[b] == dj[b]);
                    } else {
                        let q = choose|q: int| 0 <= q < ej.len() && ej[q] == (u, x);
                        assert(e[q] == ej[q]);
                    }
                } else {
                    assert(keys@.contains(x));
                    let w2 = choose|w2: int| 0 <= w2 < keys@.len() && keys@[w2] == x;
                    assert(keys@.no_duplicates());
                    if cj[w2] == Color::Black {
                        assert(dj.contains(w2));
                        let b = choose|b: int| 0 <= b < dj.len() && dj[b] == w2;
                        assert(d[b] == dj[b]);
                    }
                }
            }
        }
        proof {
            let kn = kids_spec(files@, keys@, c1, u, children@, j + 1, budget);
            assert(children@[j as int] == v);
            lemma_node_keys(files@);
            if keys@.contains(v) {
                let w2 = choose|i: int| 0 <= i < keys@.len() && keys@[i] == v;
                assert(key_pos(keys@, v) == Some(w2));
            } else {
                assert(key_pos(keys@, v) is None);
            }
            assert(colors@ == kn.0);
            assert(e =~= es + kn.1);
        }
        j = j + 1;
    }
    assert(children@.take(j as int) =~= children@);
    colors.set(k, Color::Black);
    let ghost d2 = d.push(k as int);
    proof {
        let cf = colors@;
        assert forall|i: int| 0 <= i < cf.len() implies (cf[i] == Color::Gray <==> stack.contains(i)) by {
            if i != k {
                assert(s1.contains(i) ==> (i == k || stack.contains(i))) by {
                    if s1.contains(i) {
                        let t = choose|t: int| 0 <= t < s1.len() && s1[t] == i;
                        if t < stack.len() {
                            assert(stack[t] == i);
                        }
                    }
                }
                if stack.contains(i) {
                    let t = choose|t: int| 0 <= t < stack.len() && stack[t] == i;
                    assert(s1[t] == i);
                }
            }
        }
        assert forall|i: int| 0 <= i < cf.len() implies (cf[i] == Color::Black <==> d2.contains(i)) by {
            if i != k {
                if d.contains(i) {
                    let t = choose|t: int| 0 <= t < d.len() && d[t] == i;
                    assert(d2[t] == i);
                }
                if d2.contains(i) {
                    let t = choose|t: int| 0 <= t < d2.len() && d2[t] == i;
                    assert(d[t] == i);
                }
            } else {
                assert(d2[d.len() as int] == i);
            }
        }
        assert(!d.contains(k as int));
        assert forall|t: int| 0 <= t < stack.len() - 1 implies #[trigger] edge(files@, keys@[stack[t]], keys@[stack[t + 1]]) by {
            assert(s1[t] == stack[t] && s1[t + 1] == stack[t + 1]);
        }
        assert forall|a: int, x: u64|
            0 <= a < d2.len() && #[trigger] edge(files@, keys@[d2[a]], x) implies (exists|b: int|
                0 <= b < a && keys@[d2[b]] == x) || e.contains((keys@[d2[a]], x)) by {
            if a < d.len() {
                assert(d2[a] == d[a]);
                if exists|b: int| 0 <= b < a && keys@[d[b]] == x {
                    let b = choose|b: int| 0 <= b < a && keys@[d[b]] == x;
                    assert(d2[b] == d[b]);
                }
            } else {
                assert(d2[a] == k);
                assert(children@.contains(x));
                if exists|b: int| 0 <= b < d.len() && keys@[d[b]] == x {
                    let b = choose|b: int| 0 <= b < d.len() && keys@[d[b]] == x;
                    assert(d2[b] == d[b]);
                }
            }
        }
        assert(dfs_inv(files@, keys@, colors@, stack, d2, e));
    }
    Ghost((d2, e))
}

/// Runs the search from every white node in key order.
pub fn detect_cycles_in<N: DagNode>(
    files: &Vec<NodeFile<N>>,
    keys: &Vec<u64>,
    nt: NodeType,
    inv: &str,
    issues: &mut Vec<ValidationIssue>,
) -> (es: Ghost<Seq<(u64, u64)>>)
    requires
        keys@ == node_keys(files@),
    ensures
        issues_view(final(issues)@) == issues_view(old(issues)@) + cycle_issues(inv@, type_name_of(nt), es@),
        forall|k: int| 0 <= k < es@.len() ==> edge(files@, (#[trigger] es@[k]).0, es@[k].1) && reaches(files@, es@[k].1, es@[k].0),
        es@.len() == 0 <==> !has_cycle(files@),
        es@ == found_links(files@),
{
    let tn = nt.name();
    let ghost base = issues_view(issues@);
    let mut colors: Vec<Color> = Vec::new();
    let mut i: usize = 0;
    while i < keys.len()
        invariant
            i <= keys.len(),
            colors@.len() == i,
            forall|t: int| 0 <= t < i ==> colors@[t] == Color::White,
        decreases keys.len() - i,
    {
        colors.push(Color::White);
        i = i + 1;
    }
    let ghost mut done: Seq<int> = Seq::empty();
    let ghost mut es: Seq<(u64, u64)> = Seq::empty();
    proof {
        lemma_node_keys(files@);
        assert(issues_view(issues@) =~= base + cycle_issues(inv@, tn@, es));
        assert(colors@ =~= all_white(keys@.len()));
    }
    let ghost c_start = colors@;
    let mut i: usize = 0;
    while i < keys.len()
        invariant
            i <= keys.len(),
            keys@ == node_keys(files@),
            tn@ == type_name_of(nt),
            dfs_inv(files@, keys@, colors@, Seq::empty(), done, es),
            forall|t: int| 0 <= t < i ==> colors@[t] == Color::Black,
            issues_view(issues@) == base + cycle_issues(inv@, tn@, es),
            c_start == all_white(keys@.len()),
            colors@ == search_all(files@, keys@, c_start, i as int).0,
            es == search_all(files@, keys@, c_start, i as int).1,
        decreases keys.len() - i,
    {
        if colors[i] == Color::White {
            let ghost bud = white_count(colors@);
            let ghost ci = colors@;
            let r = dfs(
                files,
                keys,
                &mut colors,
                i,
                inv,
                tn,
                issues,
                Ghost(Seq::empty()),
                Ghost(done),
                Ghost(es),
                Ghost(base),
                Ghost(bud),
            );
            proof {
                done = r@.0;
                es = r@.1;
                assert forall|t: int| 0 <= t < i implies colors@[t] == Color::Black by {
                    assert(ci[t] == Color::Black);
                }
            }
        } else {
            proof {
                assert(colors@[i as int] != Color::Gray) by {
                    if colors@[i as int] == Color::Gray {
                        assert(Seq::<int>::empty().contains(i as int));
                    }
                }
            }
        }
        i = i + 1;
    }
    proof {
        lemma_cycles_found(files@, keys@, colors@, done, es);
    }
    Ghost(es)
}

/// A finished search reports a link exactly when the graph has a cycle.
proof fn lemma_cycles_found<N: DagNode>(
    f: Seq<NodeFile<N>>,
    keys: Seq<u64>,
    c: Seq<Color>,
    done: Seq<int>,
    es: Seq<(u64, u64)>,
)
    requires
        dfs_inv(f, keys, c, Seq::empty(), done, es),
        forall|t: int| 0 <= t < keys.len() ==> c[t] == Color::Black,
    ensures
        es.len() == 0 <==> !has_cycle(f),
{
    lemma_node_keys(f);
    if es.len() > 0 {
        let e0 = es[0];
        assert(edge(f, e0.0, e0.1) && reaches(f, e0.1, e0.0));
    } else {
        if has_cycle(f) {
            let (u, v) = choose|u: u64, v: u64| #[trigger] edge(f, u, v) && reaches(f, v, u);
            let p = choose|p: Seq<u64>| p.len() >= 1 && p[0] == v && p.last() == u && #[trigger] is_walk(f, p);
            // rank of a node: its position in the finishing order
            let q = p.push(v);
            assert forall|i: int| 0 <= i < q.len() - 1 implies #[trigger] edge(f, q[i], q[i + 1]) by {
                if i < p.len() - 1 {
                    assert(q[i] == p[i] && q[i + 1] == p[i + 1]);
                    assert(edge(f, p[i], p[i + 1]));
                } else {
                    assert(q[i] == u && q[i + 1] == v);
                }
            }
            lemma_rank_descends(f, keys, c, done, q);
        }
    }
}

/// Along a walk, finishing positions drop at every step, so a walk of
/// one or more links never returns to its start.
proof fn lemma_rank_descends<N: DagNode>(
    f: Seq<NodeFile<N>>,
    keys: Seq<u64>,
    c: Seq<Color>,
    done: Seq<int>,
    q: Seq<u64>,
)
    requires
        dfs_inv(f, keys, c, Seq::empty(), done, Seq::empty()),
        forall|t: int| 0 <= t < keys.len() ==> c[t] == Color::Black,
        q.len() >= 2,
        forall|i: int| 0 <= i < q.len() - 1 ==> #[trigger] edge(f, q[i], q[i + 1]),
    ensures
        q[0] != q.last(),
{
    lemma_node_keys(f);
    // every node on the walk is finished; record its finishing position
    assert forall|i: int| 0 <= i < q.len() implies exists|a: int| 0 <= a < done.len() && keys[done[a]] == #[trigger] q[i] by {
        let x = q[i];
        if i < q.len() - 1 {
            assert(edge(f, q[i], q[i + 1]));
        } else {
            let h = i - 1;
            assert(edge(f, q[h], q[h + 1]));
        }
        assert(loaded(f, x) is Some);
        assert(keys.contains(x));
        let w = choose|w: int| 0 <= w < keys.len() && keys[w] == x;
        assert(c[w] == Color::Black);
        assert(done.contains(w));
        let a = choose|a: int| 0 <= a < done.len() && done[a] == w;
    }
    let pos = |x: u64| choose|a: int| 0 <= a < done.len() && keys[done[a]] == x;
    assert forall|i: int| 0 <= i < q.len() - 1 implies pos(#[trigger] q[i + 1]) < pos(q[i]) by {
        let a = pos(q[i]);
        assert(exists|a2: int| 0 <= a2 < done.len() && keys[done[a2]] == q[i]);
        assert(exists|a2: int| 0 <= a2 < done.len() && keys[done[a2]] == q[i + 1]);
        assert(edge(f, keys[done[a]], q[i + 1]));
        assert(!Seq::<(u64, u64)>::empty().contains((keys[done[a]], q[i + 1])));
        let b = choose|b: int| 0 <= b < a && keys[done[b]] == q[i + 1];
        let b2 = pos(q[i + 1]);
        assert(keys[done[b2]] == q[i + 1]);
        // keys and done are duplicate-free, so the position is unique
        assert(keys.no_duplicates());
        assert(done[b] == done[b2]);
    }
    lemma_chain_drops(q, pos);
}

/// A function that drops at every step of a sequence ends below its
/// first value.
proof fn lemma_chain_drops(q: Seq<u64>, pos: spec_fn(u64) -> int)
    requires
        q.len() >= 2,
        forall|i: int| 0 <= i < q.len() - 1 ==> pos(#[trigger] q[i + 1]) < pos(q[i]),
    ensures
        pos(q.last()) < pos(q[0]),
{
    assert forall|k: int| 1 <= k < q.len() implies pos(#[trigger] q[k]) < pos(q[0]) by {
        lemma_chain_prefix(q, pos, k);
    }
    assert(pos(q[q.len() - 1]) < pos(q[0]));
}

proof fn lemma_chain_prefix(q: Seq<u64>, pos: spec_fn(u64) -> int, k: int)
    requires
        1 <= k < q.len(),
        forall|i: int| 0 <= i < q.len() - 1 ==> pos(#[trigger] q[i + 1]) < pos(q[i]),
    ensures
        pos(q[k]) < pos(q[0]),
    decreases k,
{
    assert(pos(q[(k - 1) + 1]) < pos(q[k - 1]));
    if k > 1 {
        lemma_chain_prefix(q, pos, k - 1);
    }
}

} // verus!
