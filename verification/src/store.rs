//! In-memory snapshot of a `.shapes/` store: for each node kind, the
//! node files in on-disk order, each with its `id` and either the parsed
//! node or the reason it failed to parse. Lookups follow the file store:
//! a node is the first file carrying its id.

use vstd::prelude::*;
use crate::ids::{NodeType, ProfileId};
use crate::model::{
    Amendment, Constraint, Profile, Shape, constraint_child_ids, constraint_parent_ids,
    shape_child_ids, shape_parent_ids,
};
use crate::sorting::{sort_ids, sorted_u64};
use crate::version::{StoreVersion, current_store_version};

verus! {

/// One node file: its `id` and the typed node, or the parse error text.
#[derive(Debug)]
pub struct NodeFile<T> {
    /// The file's top-level `id`.
    pub id: u64,
    /// The parsed node, or why the file does not parse as one.
    pub node: Result<T, String>,
}

/// All node files of a store, per kind, in on-disk (path) order.
#[derive(Debug)]
pub struct Store {
    /// Shape files.
    pub shapes: Vec<NodeFile<Shape>>,
    /// Constraint files.
    pub constraints: Vec<NodeFile<Constraint>>,
    /// Amendment files.
    pub amendments: Vec<NodeFile<Amendment>>,
    /// Profile files.
    pub profiles: Vec<NodeFile<Profile>>,
}

/// Store metadata: schema version and active profile.
#[derive(Debug)]
pub struct Meta {
    /// Schema version the store conforms to.
    pub version: StoreVersion,
    /// The profile governing `create` by default.
    pub active_profile: ProfileId,
}

impl Meta {
    /// Metadata for a new store at the current schema version.
    pub fn new(active_profile: ProfileId) -> (r: Self)
        ensures
            r.version.major == 0 && r.version.minor == 2 && r.version.patch == 0,
            r.active_profile == active_profile,
    {
        Meta { version: current_store_version(), active_profile }
    }
}

/// Why a node could not be loaded.
#[derive(Debug)]
pub enum LoadError {
    /// No file carries the id.
    NotFound {
        /// Kind looked up.
        node_type: NodeType,
        /// Id looked up.
        id: u64,
    },
    /// The first file with the id does not parse as a node.
    Invalid {
        /// Kind looked up.
        node_type: NodeType,
        /// Id looked up.
        id: u64,
        /// Parse error text.
        message: String,
    },
}

/// Ids of the files, in file order.
pub open spec fn file_ids<T>(f: Seq<NodeFile<T>>) -> Seq<u64> {
    f.map_values(|x: NodeFile<T>| x.id)
}

/// Index of the first file carrying `id`, or `-1`.
pub open spec fn first_with<T>(f: Seq<NodeFile<T>>, id: u64) -> int
    decreases f.len(),
{
    if f.len() == 0 {
        -1
    } else {
        let r = first_with(f.drop_last(), id);
        if r >= 0 {
            r
        } else if f.last().id == id {
            f.len() - 1
        } else {
            -1
        }
    }
}

/// Characterization of `first_with`.
pub proof fn lemma_first_with<T>(f: Seq<NodeFile<T>>, id: u64)
    ensures
        -1 <= first_with(f, id) < f.len(),
        first_with(f, id) >= 0 ==> f[first_with(f, id)].id == id,
        forall|j: int| 0 <= j < f.len() && j < first_with(f, id) ==> f[j].id != id,
        first_with(f, id) == -1 ==> forall|j: int| 0 <= j < f.len() ==> f[j].id != id,
    decreases f.len(),
{
    if f.len() > 0 {
        let g = f.drop_last();
        lemma_first_with(g, id);
        assert forall|j: int| 0 <= j < f.len() && j < first_with(f, id) implies f[j].id != id by {
            assert(j < g.len());
            assert(f[j] == g[j]);
        }
        if first_with(f, id) == -1 {
            assert forall|j: int| 0 <= j < f.len() implies f[j].id != id by {
                if j < g.len() {
                    assert(f[j] == g[j]);
                }
            }
        }
    }
}

/// The node stored under `id`: the first file with that id, if it parsed.
pub open spec fn loaded<T>(f: Seq<NodeFile<T>>, id: u64) -> Option<T> {
    let i = first_with(f, id);
    if i >= 0 && f[i].node is Ok {
        Some(f[i].node->Ok_0)
    } else {
        None
    }
}

/// Sorted ids of the files (with repeats), as `list_ids` reports them.
pub open spec fn listed_ids<T>(f: Seq<NodeFile<T>>) -> Seq<u64> {
    sorted_u64(file_ids(f))
}

/// Finds the first file carrying `id`.
pub fn find_first<T>(files: &Vec<NodeFile<T>>, id: u64) -> (r: Option<usize>)
    ensures
        match r {
            Some(i) => i as int == first_with(files@, id) && i < files@.len(),
            None => first_with(files@, id) == -1,
        },
{
    proof {
        lemma_first_with(files@, id);
    }
    let mut i: usize = 0;
    while i < files.len()
        invariant
            i <= files.len(),
            forall|j: int| 0 <= j < i ==> files@[j].id != id,
        decreases files.len() - i,
    {
        if files[i].id == id {
            proof {
                lemma_first_with(files@, id);
                if first_with(files@, id) != i {
                    assert(first_with(files@, id) >= 0);
                }
            }
            return Some(i);
        }
        i = i + 1;
    }
    proof {
        if first_with(files@, id) >= 0 {
            assert(files@[first_with(files@, id)].id == id);
        }
    }
    None
}

/// Sorted ids of the files.
pub fn list_file_ids<T>(files: &Vec<NodeFile<T>>) -> (r: Vec<u64>)
    ensures
        r@ == listed_ids(files@),
{
    let mut ids: Vec<u64> = Vec::new();
    let mut i: usize = 0;
    while i < files.len()
        invariant
            i <= files.len(),
            ids@ =~= file_ids(files@).take(i as int),
        decreases files.len() - i,
    {
        ids.push(files[i].id);
        i = i + 1;
    }
    assert(file_ids(files@).take(i as int) =~= file_ids(files@));
    sort_ids(&ids)
}

/// Which DAG, and which direction, a walk follows.
#[derive(Debug, Clone, Copy, PartialEq, Eq, Structural)]
pub enum WalkSel {
    /// Shape DAG, towards parents.
    ShapeParents,
    /// Shape DAG, towards children.
    ShapeChildren,
    /// Constraint DAG, towards parents.
    ConstraintParents,
    /// Constraint DAG, towards children.
    ConstraintChildren,
}

/// The neighbour ids a parsed shape contributes to a walk.
pub open spec fn shape_edges(sel: WalkSel, s: Shape) -> Seq<u64> {
    if sel == WalkSel::ShapeParents {
        shape_parent_ids(s)
    } else {
        shape_child_ids(s)
    }
}

/// The neighbour ids a parsed constraint contributes to a walk.
pub open spec fn constraint_edges(sel: WalkSel, c: Constraint) -> Seq<u64> {
    if sel == WalkSel::ConstraintParents {
        constraint_parent_ids(c)
    } else {
        constraint_child_ids(c)
    }
}

/// Whether a walk runs over the shape DAG.
pub open spec fn on_shapes(sel: WalkSel) -> bool {
    sel == WalkSel::ShapeParents || sel == WalkSel::ShapeChildren
}

/// Neighbours of `id` in the selected DAG and direction: the links of
/// the node stored under `id`, or none when it is missing or unparsable.
pub open spec fn nbrs(st: Store, sel: WalkSel, id: u64) -> Seq<u64> {
    if on_shapes(sel) {
        match loaded(st.shapes@, id) {
            Some(s) => shape_edges(sel, s),
            None => Seq::empty(),
        }
    } else {
        match loaded(st.constraints@, id) {
            Some(c) => constraint_edges(sel, c),
            None => Seq::empty(),
        }
    }
}

/// All neighbour ids contributed by parsed shape files.
pub open spec fn all_shape_edges(f: Seq<NodeFile<Shape>>, sel: WalkSel) -> Seq<u64>
    decreases f.len(),
{
    if f.len() == 0 {
        Seq::empty()
    } else {
        all_shape_edges(f.drop_last(), sel) + match f.last().node {
            Ok(s) => shape_edges(sel, s),
            Err(_) => Seq::empty(),
        }
    }
}

/// All neighbour ids contributed by parsed constraint files.
pub open spec fn all_constraint_edges(f: Seq<NodeFile<Constraint>>, sel: WalkSel) -> Seq<u64>
    decreases f.len(),
{
    if f.len() == 0 {
        Seq::empty()
    } else {
        all_constraint_edges(f.drop_last(), sel) + match f.last().node {
            Ok(c) => constraint_edges(sel, c),
            Err(_) => Seq::empty(),
        }
    }
}

/// Every id a walk over the selected DAG can reach from outside seeds.
pub open spec fn all_edges(st: Store, sel: WalkSel) -> Seq<u64> {
    if on_shapes(sel) {
        all_shape_edges(st.shapes@, sel)
    } else {
        all_constraint_edges(st.constraints@, sel)
    }
}

proof fn lemma_all_shape_edges(f: Seq<NodeFile<Shape>>, sel: WalkSel, i: int, x: u64)
    requires
        0 <= i < f.len(),
        f[i].node is Ok,
        shape_edges(sel, f[i].node->Ok_0).contains(x),
    ensures
        all_shape_edges(f, sel).contains(x),
    decreases f.len(),
{
    let e = match f.last().node {
        Ok(s) => shape_edges(sel, s),
        Err(_) => Seq::empty(),
    };
    if i == f.len() - 1 {
        let k = choose|k: int| 0 <= k < e.len() && e[k] == x;
        assert((all_shape_edges(f.drop_last(), sel) + e)[all_shape_edges(f.drop_last(), sel).len() + k] == x);
    } else {
        lemma_all_shape_edges(f.drop_last(), sel, i, x);
        let k = choose|k: int| 0 <= k < all_shape_edges(f.drop_last(), sel).len() && all_shape_edges(f.drop_last(), sel)[k] == x;
        assert((all_shape_edges(f.drop_last(), sel) + e)[k] == x);
    }
}

proof fn lemma_all_constraint_edges(f: Seq<NodeFile<Constraint>>, sel: WalkSel, i: int, x: u64)
    requires
        0 <= i < f.len(),
        f[i].node is Ok,
        constraint_edges(sel, f[i].node->Ok_0).contains(x),
    ensures
        all_constraint_edges(f, sel).contains(x),
    decreases f.len(),
{
    let e = match f.last().node {
        Ok(c) => constraint_edges(sel, c),
        Err(_) => Seq::empty(),
    };
    if i == f.len() - 1 {
        let k = choose|k: int| 0 <= k < e.len() && e[k] == x;
        assert((all_constraint_edges(f.drop_last(), sel) + e)[all_constraint_edges(f.drop_last(), sel).len() + k] == x);
    } else {
        lemma_all_constraint_edges(f.drop_last(), sel, i, x);
        let k = choose|k: int| 0 <= k < all_constraint_edges(f.drop_last(), sel).len() && all_constraint_edges(f.drop_last(), sel)[k] == x;
        assert((all_constraint_edges(f.drop_last(), sel) + e)[k] == x);
    }
}

/// Every neighbour of every node is among `all_edges`.
pub proof fn lemma_nbrs_in_all_edges(st: Store, sel: WalkSel, id: u64, x: u64)
    requires
        nbrs(st, sel, id).contains(x),
    ensures
        all_edges(st, sel).contains(x),
{
    if on_shapes(sel) {
        lemma_first_with(st.shapes@, id);
        lemma_all_shape_edges(st.shapes@, sel, first_with(st.shapes@, id), x);
    } else {
        lemma_first_with(st.constraints@, id);
        lemma_all_constraint_edges(st.constraints@, sel, first_with(st.constraints@, id), x);
    }
}

impl Store {
    /// The shape stored under `id`, if any parses.
    pub fn shape(&self, id: u64) -> (r: Option<&Shape>)
        ensures
            match r {
                Some(s) => loaded(self.shapes@, id) == Some(*s),
                None => loaded(self.shapes@, id) is None,
            },
    {
        match find_first(&self.shapes, id) {
            Some(i) => match &self.shapes[i].node {
                Ok(s) => Some(s),
                Err(_) => None,
            },
            None => None,
        }
    }

    /// The constraint stored under `id`, if any parses.
    pub fn constraint(&self, id: u64) -> (r: Option<&Constraint>)
        ensures
            match r {
                Some(c) => loaded(self.constraints@, id) == Some(*c),
                None => loaded(self.constraints@, id) is None,
            },
    {
        match find_first(&self.constraints, id) {
            Some(i) => match &self.constraints[i].node {
                Ok(c) => Some(c),
                Err(_) => None,
            },
            None => None,
        }
    }

    /// The amendment stored under `id`, if any parses.
    pub fn amendment(&self, id: u64) -> (r: Option<&Amendment>)
        ensures
            match r {
                Some(a) => loaded(self.amendments@, id) == Some(*a),
                None => loaded(self.amendments@, id) is None,
            },
    {
        match find_first(&self.amendments, id) {
            Some(i) => match &self.amendments[i].node {
                Ok(a) => Some(a),
                Err(_) => None,
            },
            None => None,
        }
    }

    /// The profile stored under `id`, if any parses.
    pub fn profile(&self, id: u64) -> (r: Option<&Profile>)
        ensures
            match r {
                Some(p) => loaded(self.profiles@, id) == Some(*p),
                None => loaded(self.profiles@, id) is None,
            },
    {
        match find_first(&self.profiles, id) {
            Some(i) => match &self.profiles[i].node {
                Ok(p) => Some(p),
                Err(_) => None,
            },
            None => None,
        }
    }

    /// Neighbour ids of `id` in the selected DAG and direction.
    pub fn neighbors(&self, sel: WalkSel, id: u64) -> (r: Vec<u64>)
        ensures
            r@ == nbrs(*self, sel, id),
    {
        let mut r: Vec<u64> = Vec::new();
        match sel {
            WalkSel::ShapeParents | WalkSel::ShapeChildren => {
                if let Some(s) = self.shape(id) {
                    let ids = if sel == WalkSel::ShapeParents {
                        s.parent_ids()
                    } else {
                        s.child_ids()
                    };
                    let ghost want = shape_edges(sel, *s);
                    let mut i: usize = 0;
                    while i < ids.len()
                        invariant
                            i <= ids.len(),
                            ids@.map_values(|x: crate::ids::ShapeId| x.0) == want,
                            r@ =~= want.take(i as int),
                        decreases ids.len() - i,
                    {
                        r.push(ids[i].0);
                        i = i + 1;
                    }
                    assert(want.take(i as int) =~= want);
                }
            },
            _ => {
                if let Some(c) = self.constraint(id) {
                    let ids = if sel == WalkSel::ConstraintParents {
                        c.parent_ids()
                    } else {
                        c.child_ids()
                    };
                    let ghost want = constraint_edges(sel, *c);
                    let mut i: usize = 0;
                    while i < ids.len()
                        invariant
                            i <= ids.len(),
                            ids@.map_values(|x: crate::ids::ConstraintId| x.0) == want,
                            r@ =~= want.take(i as int),
                        decreases ids.len() - i,
                    {
                        r.push(ids[i].0);
                        i = i + 1;
                    }
                    assert(want.take(i as int) =~= want);
                }
            },
        }
        r
    }

    /// Loads the shape stored under `id`.
    pub fn load_shape(&self, id: u64) -> (r: Result<&Shape, LoadError>)
        ensures
            match r {
                Ok(s) => loaded(self.shapes@, id) == Some(*s),
                Err(e) => loaded(self.shapes@, id) is None && load_error_is(self.shapes@, NodeType::Shape, id, e),
            },
    {
        load_from(&self.shapes, NodeType::Shape, id)
    }

    /// Loads the constraint stored under `id`.
    pub fn load_constraint(&self, id: u64) -> (r: Result<&Constraint, LoadError>)
        ensures
            match r {
                Ok(c) => loaded(self.constraints@, id) == Some(*c),
                Err(e) => loaded(self.constraints@, id) is None && load_error_is(self.constraints@, NodeType::Constraint, id, e),
            },
    {
        load_from(&self.constraints, NodeType::Constraint, id)
    }
}

/// `e` is the error a lookup of `id` among `f` reports: not found when no
/// file carries the id, else the parse error of the first such file.
pub open spec fn load_error_is<T>(f: Seq<NodeFile<T>>, nt: NodeType, id: u64, e: LoadError) -> bool {
    match e {
        LoadError::NotFound { node_type, id: i } => node_type == nt && i == id && first_with(f, id)
            == -1,
        LoadError::Invalid { node_type, id: i, message } => node_type == nt && i == id
            && first_with(f, id) >= 0 && f[first_with(f, id)].node == Err::<T, String>(message),
    }
}

/// Loads the node stored under `id` among `files`.
pub fn load_from<T>(files: &Vec<NodeFile<T>>, nt: NodeType, id: u64) -> (r: Result<&T, LoadError>)
    ensures
        match r {
            Ok(x) => loaded(files@, id) == Some(*x),
            Err(e) => loaded(files@, id) is None && load_error_is(files@, nt, id, e),
        },
{
    match find_first(files, id) {
        Some(i) => match &files[i].node {
            Ok(x) => Ok(x),
            Err(e) => Err(LoadError::Invalid { node_type: nt, id, message: e.clone() }),
        },
        None => Err(LoadError::NotFound { node_type: nt, id }),
    }
}

/// `s` with the ids that do not load, and repeats, removed.
pub open spec fn uniq_loaded<T>(f: Seq<NodeFile<T>>, s: Seq<u64>) -> Seq<u64>
    decreases s.len(),
{
    if s.len() == 0 {
        Seq::empty()
    } else {
        let p = uniq_loaded(f, s.drop_last());
        if loaded(f, s.last()) is Some && !p.contains(s.last()) {
            p.push(s.last())
        } else {
            p
        }
    }
}

/// The ids of the nodes that load, ascending, each once: the keys of
/// the id-to-node map a full scan builds.
pub open spec fn node_keys<T>(f: Seq<NodeFile<T>>) -> Seq<u64> {
    uniq_loaded(f, listed_ids(f))
}

proof fn lemma_uniq_loaded<T>(f: Seq<NodeFile<T>>, s: Seq<u64>)
    ensures
        forall|x: u64| uniq_loaded(f, s).contains(x) <==> (s.contains(x) && loaded(f, x) is Some),
        uniq_loaded(f, s).no_duplicates(),
    decreases s.len(),
{
    broadcast use vstd::seq_lib::group_seq_properties;
    if s.len() > 0 {
        lemma_uniq_loaded(f, s.drop_last());
        assert(s =~= s.drop_last().push(s.last()));
    }
}

/// The node keys are exactly the ids that load.
pub proof fn lemma_node_keys<T>(f: Seq<NodeFile<T>>)
    ensures
        forall|x: u64| node_keys(f).contains(x) <==> loaded(f, x) is Some,
        node_keys(f).no_duplicates(),
{
    lemma_uniq_loaded(f, listed_ids(f));
    crate::sorting::lemma_sorted_u64_props(file_ids(f));
    assert forall|x: u64| loaded(f, x) is Some implies listed_ids(f).contains(x) by {
        lemma_first_with(f, x);
        let i = first_with(f, x);
        assert(file_ids(f)[i] == x);
        assert(file_ids(f).contains(x));
        assert(sorted_u64(file_ids(f)).contains(x));
    }
    assert forall|x: u64| node_keys(f).contains(x) <==> loaded(f, x) is Some by {
        assert(uniq_loaded(f, listed_ids(f)).contains(x) <==> (listed_ids(f).contains(x) && loaded(f, x) is Some));
    }
}

/// The node stored under `id` among `files`, if it loads.
pub fn get_node<T>(files: &Vec<NodeFile<T>>, id: u64) -> (r: Option<&T>)
    ensures
        match r {
            Some(x) => loaded(files@, id) == Some(*x),
            None => loaded(files@, id) is None,
        },
{
    match find_first(files, id) {
        Some(i) => match &files[i].node {
            Ok(x) => Some(x),
            Err(_) => None,
        },
        None => None,
    }
}

/// The ids of the nodes among `files` that load, ascending, each once.
pub fn loaded_ids<T>(files: &Vec<NodeFile<T>>) -> (r: Vec<u64>)
    ensures
        r@ == node_keys(files@),
{
    let ids = list_file_ids(files);
    let mut r: Vec<u64> = Vec::new();
    let mut i: usize = 0;
    while i < ids.len()
        invariant
            i <= ids.len(),
            ids@ == listed_ids(files@),
            r@ == uniq_loaded(files@, ids@.take(i as int)),
        decreases ids.len() - i,
    {
        let x = ids[i];
        assert(ids@.take(i + 1).drop_last() =~= ids@.take(i as int));
        let ok = get_node(files, x).is_some();
        let mut present = false;
        let mut j: usize = 0;
        while j < r.len()
            invariant
                j <= r.len(),
                present == r@.take(j as int).contains(x),
            decreases r.len() - j,
        {
            assert(r@.take(j + 1) =~= r@.take(j as int).push(r@[j as int]));
            if r[j] == x {
                present = true;
            }
            proof {
                broadcast use vstd::seq_lib::group_seq_properties;
            }
            j = j + 1;
        }
        assert(r@.take(j as int) =~= r@);
        if ok && !present {
            r.push(x);
        }
        i = i + 1;
    }
    assert(ids@.take(i as int) =~= ids@);
    r
}

} // verus!
