//! Profession specialization trees: which paths a tab shows, their depth
//! from the root, and the figures the specialization tab displays.

use vstd::prelude::*;
use crate::search::{find_first, lemma_find_first_end, lemma_find_first_start, lemma_find_first_step};

verus! {

/// A trait node: its id, the nodes it hangs from (one per edge), its
/// entries and its rank count.
pub struct TraitNode {
    pub node_id: u32,
    pub edge_sources: Vec<u32>,
    pub entry_ids: Vec<u32>,
    pub max_ranks: i32,
}

/// A trait tree: its nodes and the currencies spent in it.
pub struct TraitTree {
    pub tree_id: u32,
    pub node_ids: Vec<u32>,
    pub currency_ids: Vec<u32>,
}

pub open spec fn node_has_id(node_id: u32) -> spec_fn(TraitNode) -> bool {
    |n: TraitNode| n.node_id == node_id
}

/// The node database entry for an id (the first one with that id).
pub open spec fn spec_node(db: Seq<TraitNode>, node_id: u32) -> Option<TraitNode> {
    find_first(db, node_has_id(node_id))
}

/// The parents a node lists, none for a node missing from the database.
pub open spec fn node_edges(db: Seq<TraitNode>, node_id: u32) -> Seq<u32> {
    match spec_node(db, node_id) {
        Some(n) => n.edge_sources@,
        None => Seq::empty(),
    }
}

/// How many times `x` occurs in `s`.
pub open spec fn count_in(s: Seq<u32>, x: u32) -> nat
    decreases s.len(),
{
    if s.len() == 0 {
        0
    } else {
        count_in(s.drop_last(), x) + if s.last() == x {
            1nat
        } else {
            0nat
        }
    }
}

/// The children list built for `parent` from the tree's nodes `ids`: each
/// node, in order, once per edge it has from `parent`.
pub open spec fn children_from(db: Seq<TraitNode>, ids: Seq<u32>, parent: u32) -> Seq<u32>
    decreases ids.len(),
{
    if ids.len() == 0 {
        Seq::empty()
    } else {
        children_from(db, ids.drop_last(), parent) + Seq::new(
            count_in(node_edges(db, ids.last()), parent),
            |_i: int| ids.last(),
        )
    }
}

/// Index of the first node with the given id in the database.
pub fn find_node(db: &Vec<TraitNode>, node_id: u32) -> (r: Option<usize>)
    ensures
        r matches Some(k) ==> k < db@.len() && spec_node(db@, node_id) == Some(db@[k as int]),
        r is None ==> spec_node(db@, node_id) is None,
{
    let ghost p = node_has_id(node_id);
    proof {
        lemma_find_first_start(db@);
    }
    let mut i: usize = 0;
    while i < db.len()
        invariant
            i <= db@.len(),
            p == node_has_id(node_id),
            find_first(db@, p) == find_first(db@.subrange(i as int, db@.len() as int), p),
        decreases db.len() - i,
    {
        proof {
            lemma_find_first_step(db@, p, i as int);
        }
        if db[i].node_id == node_id {
            return Some(i);
        }
        i = i + 1;
    }
    proof {
        lemma_find_first_end(db@, p);
    }
    None
}

/// The children of `parent` in a tree, as the tree's child map lists them.
pub fn children_of(db: &Vec<TraitNode>, node_ids: &Vec<u32>, parent: u32) -> (r: Vec<u32>)
    ensures
        r@ == children_from(db@, node_ids@, parent),
{
    let mut out: Vec<u32> = Vec::new();
    let mut i: usize = 0;
    assert(node_ids@.subrange(0, 0) =~= Seq::<u32>::empty());
    while i < node_ids.len()
        invariant
            i <= node_ids@.len(),
            out@ == children_from(db@, node_ids@.subrange(0, i as int), parent),
        decreases node_ids.len() - i,
    {
        let id = node_ids[i];
        let ghost before = out@;
        proof {
            let next = node_ids@.subrange(0, i + 1);
            assert(next.drop_last() =~= node_ids@.subrange(0, i as int));
            assert(next.last() == id);
        }
        match find_node(db, id) {
            Some(k) => {
                let node = &db[k];
                let mut j: usize = 0;
                assert(node.edge_sources@.subrange(0, 0) =~= Seq::<u32>::empty());
                while j < node.edge_sources.len()
                    invariant
                        j <= node.edge_sources@.len(),
                        node.edge_sources@ == node_edges(db@, id),
                        out@ == before + Seq::new(
                            count_in(node.edge_sources@.subrange(0, j as int), parent),
                            |_i: int| id,
                        ),
                    decreases node.edge_sources.len() - j,
                {
                    proof {
                        let next = node.edge_sources@.subrange(0, j + 1);
                        assert(next.drop_last() =~= node.edge_sources@.subrange(0, j as int));
                    }
                    if node.edge_sources[j] == parent {
                        out.push(id);
                    }
                    j = j + 1;
                    proof {
                        assert(out@ =~= before + Seq::new(
                            count_in(node.edge_sources@.subrange(0, j as int), parent),
                            |_i: int| id,
                        ));
                    }
                }
                assert(node.edge_sources@.subrange(0, node.edge_sources@.len() as int)
                    =~= node.edge_sources@);
            },
            None => {
                assert(out@ =~= before + Seq::new(0, |_i: int| id));
            },
        }
        i = i + 1;
    }
    assert(node_ids@.subrange(0, node_ids@.len() as int) =~= node_ids@);
    out
}


proof fn lemma_count_in_positive(s: Seq<u32>, x: u32)
    ensures
        count_in(s, x) > 0 <==> s.contains(x),
    decreases s.len(),
{
    if s.len() > 0 {
        lemma_count_in_positive(s.drop_last(), x);
        if s.drop_last().contains(x) {
            let j = choose|j: int| 0 <= j < s.drop_last().len() && s.drop_last()[j] == x;
            assert(s[j] == x);
        }
        if s.contains(x) && s.last() != x {
            let j = choose|j: int| 0 <= j < s.len() && s[j] == x;
            assert(s.drop_last()[j] == x);
        }
    }
}

/// A node has children exactly when some node of the tree lists it as a
/// parent.
pub proof fn lemma_has_children(db: Seq<TraitNode>, ids: Seq<u32>, parent: u32)
    ensures
        children_from(db, ids, parent).len() > 0 <==> exists|k: int|
            0 <= k < ids.len() && (#[trigger] node_edges(db, ids[k])).contains(parent),
    decreases ids.len(),
{
    if ids.len() > 0 {
        lemma_has_children(db, ids.drop_last(), parent);
        lemma_count_in_positive(node_edges(db, ids.last()), parent);
        if exists|k: int| 0 <= k < ids.drop_last().len() && (#[trigger] node_edges(db, ids.drop_last()[k])).contains(parent) {
            let k = choose|k: int| 0 <= k < ids.drop_last().len() && (#[trigger] node_edges(db, ids.drop_last()[k])).contains(parent);
            assert(ids[k] == ids.drop_last()[k]);
        }
        if exists|k: int| 0 <= k < ids.len() && (#[trigger] node_edges(db, ids[k])).contains(parent) {
            let k = choose|k: int| 0 <= k < ids.len() && (#[trigger] node_edges(db, ids[k])).contains(parent);
            if k < ids.len() - 1 {
                assert(ids.drop_last()[k] == ids[k]);
            }
        }
    }
}

/// A child map of a tree: keys strictly ascending, each key a node with
/// children and its children as `children_from` lists them, and every node
/// with children among the keys.
pub open spec fn is_child_map(db: Seq<TraitNode>, ids: Seq<u32>, m: Seq<(u32, Vec<u32>)>) -> bool {
    &&& forall|a: int, b: int| 0 <= a < b < m.len() ==> (#[trigger] m[a]).0 < (#[trigger] m[b]).0
    &&& forall|a: int| 0 <= a < m.len() ==> (#[trigger] m[a]).1@ == children_from(db, ids, m[a].0)
    &&& forall|p: u32| (exists|a: int| 0 <= a < m.len() && (#[trigger] m[a]).0 == p) <==> children_from(db, ids, p).len() > 0
}

pub open spec fn map_has_key(m: Seq<(u32, Vec<u32>)>, p: u32) -> bool {
    exists|a: int| 0 <= a < m.len() && (#[trigger] m[a]).0 == p
}

/// Adds `parent` to an ascending key list, with its children, unless it is
/// there already.
fn insert_parent(m: &mut Vec<(u32, Vec<u32>)>, db: &Vec<TraitNode>, ids: &Vec<u32>, parent: u32)
    requires
        forall|a: int, b: int| 0 <= a < b < old(m)@.len() ==> (#[trigger] old(m)@[a]).0 < (#[trigger] old(m)@[b]).0,
        forall|a: int| 0 <= a < old(m)@.len() ==> (#[trigger] old(m)@[a]).1@ == children_from(db@, ids@, old(m)@[a].0),
    ensures
        forall|a: int, b: int| 0 <= a < b < final(m)@.len() ==> (#[trigger] final(m)@[a]).0 < (#[trigger] final(m)@[b]).0,
        forall|a: int| 0 <= a < final(m)@.len() ==> (#[trigger] final(m)@[a]).1@ == children_from(db@, ids@, final(m)@[a].0),
        forall|p: u32| map_has_key(final(m)@, p) <==> (map_has_key(old(m)@, p) || p == parent),
{
    let ghost s = m@;
    let mut pos: usize = 0;
    while pos < m.len() && m[pos].0 < parent
        invariant
            pos <= m@.len(),
            m@ == s,
            forall|a: int| 0 <= a < pos ==> (#[trigger] s[a]).0 < parent,
        decreases m.len() - pos,
    {
        pos = pos + 1;
    }
    if pos < m.len() && m[pos].0 == parent {
        return;
    }
    let kids = children_of(db, ids, parent);
    m.insert(pos, (parent, kids));
    proof {
        let t = m@;
        assert(t =~= s.insert(pos as int, (parent, kids)));
        assert forall|a: int, b: int| 0 <= a < b < t.len() implies (#[trigger] t[a]).0 < (#[trigger] t[b]).0 by {
            if b < pos {
                assert(t[a] == s[a] && t[b] == s[b]);
            } else if b == pos {
                assert(t[a] == s[a]);
            } else if a < pos {
                assert(t[a] == s[a] && t[b] == s[b - 1]);
                assert(s[pos as int].0 >= parent);
                if b - 1 > pos {
                    assert(s[pos as int].0 < s[b - 1].0);
                }
            } else if a == pos {
                assert(t[b] == s[b - 1]);
                assert(s[pos as int].0 > parent);
                if b - 1 > pos {
                    assert(s[pos as int].0 < s[b - 1].0);
                }
            } else {
                assert(t[a] == s[a - 1] && t[b] == s[b - 1]);
            }
        }
        assert forall|a: int| 0 <= a < t.len() implies (#[trigger] t[a]).1@ == children_from(db@, ids@, t[a].0) by {
            if a < pos {
                assert(t[a] == s[a]);
            } else if a > pos {
                assert(t[a] == s[a - 1]);
            }
        }
        assert forall|p: u32| map_has_key(t, p) <==> (map_has_key(s, p) || p == parent) by {
            if map_has_key(s, p) {
                let a = choose|a: int| 0 <= a < s.len() && (#[trigger] s[a]).0 == p;
                if a < pos {
                    assert(t[a] == s[a]);
                } else {
                    assert(t[a + 1] == s[a]);
                }
            }
            if p == parent {
                assert(t[pos as int].0 == parent);
            }
            if map_has_key(t, p) {
                let a = choose|a: int| 0 <= a < t.len() && (#[trigger] t[a]).0 == p;
                if a < pos {
                    assert(t[a] == s[a]);
                } else if a > pos {
                    assert(t[a] == s[a - 1]);
                }
            }
        }
    }
}

/// The child map of a tree: each node that some node of the tree hangs
/// from, in ascending id order, with its children.
pub fn tree_child_map(db: &Vec<TraitNode>, tree: &TraitTree) -> (r: Vec<(u32, Vec<u32>)>)
    ensures
        is_child_map(db@, tree.node_ids@, r@),
{
    let ids = &tree.node_ids;
    let mut m: Vec<(u32, Vec<u32>)> = Vec::new();
    let mut k: usize = 0;
    while k < ids.len()
        invariant
            k <= ids@.len(),
            ids@ == tree.node_ids@,
            forall|a: int, b: int| 0 <= a < b < m@.len() ==> (#[trigger] m@[a]).0 < (#[trigger] m@[b]).0,
            forall|a: int| 0 <= a < m@.len() ==> (#[trigger] m@[a]).1@ == children_from(db@, ids@, m@[a].0),
            forall|p: u32| map_has_key(m@, p) <==> exists|k2: int| 0 <= k2 < k && (#[trigger] node_edges(db@, ids@[k2])).contains(p),
        decreases ids.len() - k,
    {
        let id = ids[k];
        match find_node(db, id) {
            Some(d) => {
                let edges = &db[d].edge_sources;
                let mut j: usize = 0;
                while j < edges.len()
                    invariant
                        j <= edges@.len(),
                        k < ids@.len(),
                        id == ids@[k as int],
                        ids@ == tree.node_ids@,
                        edges@ == node_edges(db@, id),
                        forall|a: int, b: int| 0 <= a < b < m@.len() ==> (#[trigger] m@[a]).0 < (#[trigger] m@[b]).0,
                        forall|a: int| 0 <= a < m@.len() ==> (#[trigger] m@[a]).1@ == children_from(db@, ids@, m@[a].0),
                        forall|p: u32| map_has_key(m@, p) <==> (exists|k2: int| 0 <= k2 < k && (#[trigger] node_edges(db@, ids@[k2])).contains(p))
                            || edges@.subrange(0, j as int).contains(p),
                    decreases edges.len() - j,
                {
                    let ghost before = m@;
                    insert_parent(&mut m, db, ids, edges[j]);
                    proof {
                        assert forall|p: u32| map_has_key(m@, p) <==> (exists|k2: int| 0 <= k2 < k && (#[trigger] node_edges(db@, ids@[k2])).contains(p))
                            || edges@.subrange(0, j + 1).contains(p) by {
                            let pre = edges@.subrange(0, j as int);
                            let nxt = edges@.subrange(0, j + 1);
                            assert(nxt =~= pre.push(edges@[j as int]));
                            if pre.contains(p) {
                                let w = choose|w: int| 0 <= w < pre.len() && #[trigger] pre[w] == p;
                                assert(nxt[w] == p);
                            }
                            if nxt.contains(p) {
                                let w = choose|w: int| 0 <= w < nxt.len() && #[trigger] nxt[w] == p;
                                if w < j {
                                    assert(pre[w] == p);
                                }
                            }
                            assert(edges@.subrange(0, j + 1)[j as int] == edges@[j as int]);
                        }
                    }
                    j = j + 1;
                }
                proof {
                    assert(edges@.subrange(0, edges@.len() as int) =~= edges@);
                    assert forall|p: u32| map_has_key(m@, p) <==> exists|k2: int| 0 <= k2 < k + 1 && (#[trigger] node_edges(db@, ids@[k2])).contains(p) by {
                        if node_edges(db@, ids@[k as int]).contains(p) {
                            assert(0 <= k < k + 1);
                        }
                        if exists|k2: int| 0 <= k2 < k + 1 && (#[trigger] node_edges(db@, ids@[k2])).contains(p) {
                            let k2 = choose|k2: int| 0 <= k2 < k + 1 && (#[trigger] node_edges(db@, ids@[k2])).contains(p);
                            if k2 < k {
                                assert(exists|k3: int| 0 <= k3 < k && (#[trigger] node_edges(db@, ids@[k3])).contains(p));
                            }
                        }
                    }
                }
            },
            None => {
                proof {
                    assert(node_edges(db@, id) =~= Seq::<u32>::empty());
                    assert forall|p: u32| map_has_key(m@, p) <==> exists|k2: int| 0 <= k2 < k + 1 && (#[trigger] node_edges(db@, ids@[k2])).contains(p) by {
                        if exists|k2: int| 0 <= k2 < k + 1 && (#[trigger] node_edges(db@, ids@[k2])).contains(p) {
                            let k2 = choose|k2: int| 0 <= k2 < k + 1 && (#[trigger] node_edges(db@, ids@[k2])).contains(p);
                            if k2 < k {
                                assert(exists|k3: int| 0 <= k3 < k && (#[trigger] node_edges(db@, ids@[k3])).contains(p));
                            } else {
                                assert(node_edges(db@, ids@[k2]).len() == 0);
                            }
                        }
                    }
                }
            },
        }
        k = k + 1;
    }
    proof {
        assert forall|p: u32| map_has_key(m@, p) <==> children_from(db@, ids@, p).len() > 0 by {
            lemma_has_children(db@, ids@, p);
        }
        assert forall|p: u32| (exists|a: int| 0 <= a < m@.len() && (#[trigger] m@[a]).0 == p) <==> children_from(db@, ids@, p).len() > 0 by {
            assert(map_has_key(m@, p) <==> children_from(db@, ids@, p).len() > 0);
        }
    }
    m
}

/// Every child listed for any parent is one of the tree's nodes.
pub proof fn lemma_children_in_tree(db: Seq<TraitNode>, ids: Seq<u32>, parent: u32, k: int)
    requires
        0 <= k < children_from(db, ids, parent).len(),
    ensures
        ids.contains(children_from(db, ids, parent)[k]),
    decreases ids.len(),
{
    let prefix = children_from(db, ids.drop_last(), parent);
    if k < prefix.len() {
        lemma_children_in_tree(db, ids.drop_last(), parent, k);
        let x = prefix[k];
        let w = choose|w: int| 0 <= w < ids.drop_last().len() && ids.drop_last()[w] == x;
        assert(ids[w] == x);
    } else {
        assert(ids[ids.len() - 1] == ids.last());
    }
}

pub open spec fn depth_keys_distinct(m: Seq<(u32, usize)>) -> bool {
    forall|a: int, b: int| 0 <= a < m.len() && 0 <= b < m.len() && a != b ==> (#[trigger] m[a]).0
        != (#[trigger] m[b]).0
}

/// `n` hangs, at depth `d`, from an entry of depth `d - 1`.
pub open spec fn has_parent_entry(
    db: Seq<TraitNode>,
    ids: Seq<u32>,
    m: Seq<(u32, usize)>,
    n: u32,
    d: usize,
) -> bool {
    exists|j: int| 0 <= j < m.len() && m[j].1 + 1 == d && #[trigger] children_from(db, ids, m[j].0).contains(n)
}

/// `c` has an entry of depth at most `d`.
pub open spec fn has_entry_within(m: Seq<(u32, usize)>, c: u32, d: int) -> bool {
    exists|e: int| 0 <= e < m.len() && (#[trigger] m[e]).0 == c && m[e].1 <= d
}

/// What a depth map from `root` is: the root first at depth 0 and no other
/// node at depth 0; every other entry one level below an entry it is a child
/// of; every child of an entry present at most one level further down; no
/// node twice. Together: each entry's depth is the length of the shortest
/// child path from the root, and every node reachable from the root is
/// present.
pub open spec fn is_depth_map(db: Seq<TraitNode>, ids: Seq<u32>, root: u32, m: Seq<(u32, usize)>) -> bool {
    &&& m.len() > 0
    &&& m[0] == (root, 0usize)
    &&& depth_keys_distinct(m)
    &&& forall|i: int| 0 <= i < m.len() && (#[trigger] m[i]).1 == 0 ==> m[i].0 == root
    &&& forall|i: int| 0 <= i < m.len() && (#[trigger] m[i]).1 > 0 ==> has_parent_entry(db, ids, m, m[i].0, m[i].1)
    &&& forall|i: int, k: int|
        0 <= i < m.len() && 0 <= k < children_from(db, ids, (#[trigger] m[i]).0).len() ==> has_entry_within(
            m,
            #[trigger] children_from(db, ids, m[i].0)[k],
            m[i].1 + 1,
        )
}

/// `c` waits in the queue, at a position from `h` on, with depth `d`. This
/// holds of each child queued and not yet taken; once the queue is used up
/// (`h == q.len()`) it holds of nothing, and every child must then have an
/// entry of its own.
pub open spec fn pending_child(q: Seq<(u32, usize)>, h: int, c: u32, d: int) -> bool {
    exists|j: int| h <= j < q.len() && (#[trigger] q[j]).0 == c && q[j].1 == d
}

/// The `k`-th child of entry `i` is present at most one level below it, or
/// waits in the queue exactly one level below it.
pub open spec fn child_covered(
    db: Seq<TraitNode>,
    ids: Seq<u32>,
    m: Seq<(u32, usize)>,
    q: Seq<(u32, usize)>,
    h: int,
    i: int,
    k: int,
) -> bool {
    let c = children_from(db, ids, m[i].0)[k];
    has_entry_within(m, c, m[i].1 + 1) || pending_child(q, h, c, m[i].1 + 1)
}

proof fn lemma_entries_bounded(m: Seq<(u32, usize)>, u: Seq<u32>)
    requires
        depth_keys_distinct(m),
        forall|i: int| 0 <= i < m.len() ==> u.contains((#[trigger] m[i]).0),
    ensures
        m.len() <= u.len(),
{
    let ks = m.map_values(|e: (u32, usize)| e.0);
    assert(ks.no_duplicates()) by {
        assert forall|a: int, b: int| 0 <= a < ks.len() && 0 <= b < ks.len() && a != b implies ks[a]
            != ks[b] by {
            assert(ks[a] == m[a].0 && ks[b] == m[b].0);
        }
    }
    ks.unique_seq_to_set();
    u.lemma_cardinality_of_set();
    assert(ks.to_set().subset_of(u.to_set())) by {
        assert forall|x: u32| ks.to_set().contains(x) implies u.to_set().contains(x) by {
            let a = choose|a: int| 0 <= a < ks.len() && ks[a] == x;
            assert(ks[a] == m[a].0);
        }
    }
    vstd::set_lib::lemma_len_subset(ks.to_set(), u.to_set());
}

fn has_depth_entry(m: &Vec<(u32, usize)>, n: u32) -> (r: bool)
    ensures
        r == (exists|e: int| 0 <= e < m@.len() && (#[trigger] m@[e]).0 == n),
{
    let mut i: usize = 0;
    while i < m.len()
        invariant
            i <= m@.len(),
            forall|e: int| 0 <= e < i ==> (#[trigger] m@[e]).0 != n,
        decreases m.len() - i,
    {
        if m[i].0 == n {
            return true;
        }
        i = i + 1;
    }
    false
}

/// Breadth-first depths of the nodes reachable from `root` through the
/// tree's child lists.
pub fn tree_depth_map(db: &Vec<TraitNode>, tree: &TraitTree, root: u32) -> (r: Vec<(u32, usize)>)
    ensures
        is_depth_map(db@, tree.node_ids@, root, r@),
{
    let ghost ids = tree.node_ids@;
    let ghost u = ids.push(root);
    let mut m: Vec<(u32, usize)> = Vec::new();
    m.push((root, 0));
    let root_kids = children_of(db, &tree.node_ids, root);
    let mut q: Vec<(u32, usize)> = Vec::new();
    let mut t: usize = 0;
    while t < root_kids.len()
        invariant
            root_kids@ == children_from(db@, ids, root),
            ids == tree.node_ids@,
            m@ == seq![(root, 0usize)],
            t <= root_kids@.len(),
            q@.len() == t,
            forall|j: int| 0 <= j < t ==> (#[trigger] q@[j]) == (root_kids@[j], 1usize),
        decreases root_kids.len() - t,
    {
        q.push((root_kids[t], 1));
        t = t + 1;
    }
    proof {
        assert forall|j: int| 0 <= j < q@.len() implies (#[trigger] q@[j]).1 > 0 && has_parent_entry(
            db@,
            ids,
            m@,
            q@[j].0,
            q@[j].1,
        ) by {
            assert(m@[0].1 + 1 == q@[j].1);
            assert(children_from(db@, ids, m@[0].0)[j] == q@[j].0);
            assert(children_from(db@, ids, m@[0].0).contains(q@[j].0));
        }
        assert forall|i: int, k: int|
            0 <= i < m@.len() && 0 <= k < children_from(db@, ids, m@[i].0).len() implies #[trigger] child_covered(
            db@,
            ids,
            m@,
            q@,
            0,
            i,
            k,
        ) by {
            assert(q@[k] == (children_from(db@, ids, m@[i].0)[k], 1usize));
        }
        assert forall|j: int| 0 <= j < q@.len() implies ids.contains((#[trigger] q@[j]).0) by {
            lemma_children_in_tree(db@, ids, root, j);
        }
        assert(u[ids.len() as int] == root);
    }
    let mut h: usize = 0;
    while h < q.len()
        invariant
            ids == tree.node_ids@,
            u == ids.push(root),
            h <= q@.len(),
            m@.len() > 0,
            m@[0] == (root, 0usize),
            depth_keys_distinct(m@),
            forall|i: int| 0 <= i < m@.len() ==> u.contains((#[trigger] m@[i]).0),
            forall|j: int| 0 <= j < q@.len() ==> ids.contains((#[trigger] q@[j]).0),
            forall|i: int| 0 <= i < m@.len() && (#[trigger] m@[i]).1 == 0 ==> m@[i].0 == root,
            forall|i: int| 0 <= i < m@.len() ==> (#[trigger] m@[i]).1 <= i,
            forall|i: int|
                0 <= i < m@.len() && (#[trigger] m@[i]).1 > 0 ==> has_parent_entry(
                    db@,
                    ids,
                    m@,
                    m@[i].0,
                    m@[i].1,
                ),
            forall|j: int|
                h <= j < q@.len() ==> (#[trigger] q@[j]).1 > 0 && has_parent_entry(
                    db@,
                    ids,
                    m@,
                    q@[j].0,
                    q@[j].1,
                ),
            forall|a: int, b: int| h <= a <= b < q@.len() ==> (#[trigger] q@[a]).1 <= (#[trigger] q@[b]).1,
            forall|j: int| h <= j < q@.len() ==> (#[trigger] q@[j]).1 <= q@[h as int].1 + 1,
            forall|i: int, j: int|
                0 <= i < m@.len() && h <= j < q@.len() ==> (#[trigger] m@[i]).1 <= (#[trigger] q@[j]).1,
            forall|i: int, k: int|
                0 <= i < m@.len() && 0 <= k < children_from(db@, ids, m@[i].0).len()
                    ==> #[trigger] child_covered(db@, ids, m@, q@, h as int, i, k),
        decreases ids.len() + 2 - m@.len(), q@.len() - h,
    {
        proof {
            lemma_entries_bounded(m@, u);
        }
        let (n, d) = q[h];
        let ghost m0 = m@;
        let ghost q0 = q@;
        let ghost h0 = h as int;
        if has_depth_entry(&m, n) {
            h = h + 1;
            proof {
                let e = choose|e: int| 0 <= e < m0.len() && (#[trigger] m0[e]).0 == n;
                assert(m0[e].1 <= d);
                assert forall|i: int, k: int|
                    0 <= i < m@.len() && 0 <= k < children_from(db@, ids, m@[i].0).len() implies #[trigger] child_covered(
                    db@,
                    ids,
                    m@,
                    q@,
                    h as int,
                    i,
                    k,
                ) by {
                    assert(child_covered(db@, ids, m0, q0, h0, i, k));
                    let c = children_from(db@, ids, m@[i].0)[k];
                    if !has_entry_within(m@, c, m@[i].1 + 1) {
                        let j = choose|j: int|
                            h0 <= j < q0.len() && (#[trigger] q0[j]).0 == c && q0[j].1 == m0[i].1 + 1;
                        if j == h0 {
                            assert(m0[e].0 == c);
                            assert(has_entry_within(m@, c, m@[i].1 + 1));
                        } else {
                            assert(pending_child(q@, h as int, c, m@[i].1 + 1));
                        }
                    }
                }
                if h < q@.len() {
                    assert(q@[h0].1 <= q@[h as int].1);
                }
            }
        } else {
            m.push((n, d));
            let kids = children_of(db, &tree.node_ids, n);
            proof {
                let pj = choose|j: int| 0 <= j < m0.len() && m0[j].1 + 1 == d && #[trigger] children_from(db@, ids, m0[j].0).contains(n);
                assert(m0[pj].1 <= pj);
                assert(d as int <= m0.len());
                assert(m@[m0.len() as int] == (n, d));
                assert(u.contains(n)) by {
                    let w = choose|w: int| 0 <= w < ids.len() && ids[w] == n;
                    assert(u[w] == n);
                }
                assert forall|a: int, b: int|
                    0 <= a < m@.len() && 0 <= b < m@.len() && a != b implies (#[trigger] m@[a]).0
                    != (#[trigger] m@[b]).0 by {
                    if a < m0.len() && b < m0.len() {
                        assert(m@[a] == m0[a] && m@[b] == m0[b]);
                    } else if a < m0.len() {
                        assert(m@[a] == m0[a]);
                    } else {
                        assert(m@[b] == m0[b]);
                    }
                }
                assert forall|i: int| 0 <= i < m@.len() && (#[trigger] m@[i]).1 > 0 implies has_parent_entry(
                    db@,
                    ids,
                    m@,
                    m@[i].0,
                    m@[i].1,
                ) by {
                    if i < m0.len() {
                        assert(m@[i] == m0[i]);
                        let j = choose|j: int| 0 <= j < m0.len() && m0[j].1 + 1 == m0[i].1 && #[trigger] children_from(db@, ids, m0[j].0).contains(m0[i].0);
                        assert(m@[j] == m0[j]);
                    } else {
                        assert(m@[pj] == m0[pj]);
                    }
                }
            }
            let ghost qmid = q@;
            let mlen = m.len();
            let mut t: usize = 0;
            while t < kids.len()
                invariant
                    kids@ == children_from(db@, ids, n),
                    t <= kids@.len(),
                    q@.len() == qmid.len() + t,
                    forall|j: int| 0 <= j < qmid.len() ==> (#[trigger] q@[j]) == qmid[j],
                    forall|j: int| qmid.len() <= j < q@.len() ==> (#[trigger] q@[j]) == (kids@[j - qmid.len()], (d + 1) as usize),
                    d < mlen,
                decreases kids.len() - t,
            {
                q.push((kids[t], d + 1));
                t = t + 1;
            }
            h = h + 1;
            proof {
                let nl = m0.len() as int;
                assert(m@[nl] == (n, d));
                assert forall|j: int| 0 <= j < q@.len() implies ids.contains((#[trigger] q@[j]).0) by {
                    if j < qmid.len() {
                        assert(q@[j] == q0[j]);
                    } else {
                        lemma_children_in_tree(db@, ids, n, j - qmid.len());
                    }
                }
                assert forall|i: int| 0 <= i < m@.len() && (#[trigger] m@[i]).1 == 0 implies m@[i].0 == root by {
                    if i < nl {
                        assert(m@[i] == m0[i]);
                    }
                }
                assert forall|i: int| 0 <= i < m@.len() implies (#[trigger] m@[i]).1 <= i by {
                    if i < nl {
                        assert(m@[i] == m0[i]);
                    }
                }
                assert forall|i: int| 0 <= i < m@.len() implies u.contains((#[trigger] m@[i]).0) by {
                    if i < nl {
                        assert(m@[i] == m0[i]);
                    }
                }
                assert forall|j: int| h <= j < q@.len() implies (#[trigger] q@[j]).1 > 0 && has_parent_entry(
                    db@,
                    ids,
                    m@,
                    q@[j].0,
                    q@[j].1,
                ) by {
                    if j < qmid.len() {
                        assert(q@[j] == q0[j]);
                        let pj = choose|pj: int| 0 <= pj < m0.len() && m0[pj].1 + 1 == q0[j].1 && #[trigger] children_from(db@, ids, m0[pj].0).contains(q0[j].0);
                        assert(m@[pj] == m0[pj]);
                    } else {
                        let t2 = j - qmid.len();
                        assert(q@[j] == (kids@[t2], (d + 1) as usize));
                        assert(children_from(db@, ids, m@[nl].0)[t2] == q@[j].0);
                        assert(children_from(db@, ids, m@[nl].0).contains(q@[j].0));
                    }
                }
                assert forall|a: int, b: int| h <= a <= b < q@.len() implies (#[trigger] q@[a]).1 <= (#[trigger] q@[b]).1 by {
                    if b < qmid.len() {
                        assert(q@[a] == q0[a] && q@[b] == q0[b]);
                    } else if a < qmid.len() {
                        assert(q@[a] == q0[a]);
                        assert(q0[a].1 <= q0[h0].1 + 1);
                    }
                }
                if h < q@.len() {
                    let hh = h as int;
                    if hh < qmid.len() {
                        assert(q@[hh] == q0[hh]);
                        assert(q0[h0].1 <= q0[hh].1);
                    }
                    assert forall|j: int| h <= j < q@.len() implies (#[trigger] q@[j]).1 <= q@[hh].1 + 1 by {
                        if j < qmid.len() {
                            assert(q@[j] == q0[j]);
                            assert(q0[j].1 <= q0[h0].1 + 1);
                        }
                    }
                }
                assert forall|i: int, j: int| 0 <= i < m@.len() && h <= j < q@.len() implies (#[trigger] m@[i]).1
                    <= (#[trigger] q@[j]).1 by {
                    if j < qmid.len() {
                        assert(q@[j] == q0[j]);
                        assert(q0[h0].1 <= q0[j].1);
                        if i < nl {
                            assert(m@[i] == m0[i]);
                        }
                    } else {
                        if i < nl {
                            assert(m@[i] == m0[i]);
                            assert(m0[i].1 <= q0[h0].1);
                        }
                    }
                }
                assert forall|i: int, k: int|
                    0 <= i < m@.len() && 0 <= k < children_from(db@, ids, m@[i].0).len() implies #[trigger] child_covered(
                    db@,
                    ids,
                    m@,
                    q@,
                    h as int,
                    i,
                    k,
                ) by {
                    let c = children_from(db@, ids, m@[i].0)[k];
                    if i == nl {
                        let j = qmid.len() + k;
                        assert(q@[j] == (kids@[k], (d + 1) as usize));
                        assert(pending_child(q@, h as int, c, m@[i].1 + 1));
                    } else {
                        assert(m@[i] == m0[i]);
                        assert(child_covered(db@, ids, m0, q0, h0, i, k));
                        if has_entry_within(m0, c, m0[i].1 + 1) {
                            let e = choose|e: int| 0 <= e < m0.len() && (#[trigger] m0[e]).0 == c && m0[e].1 <= m0[i].1 + 1;
                            assert(m@[e] == m0[e]);
                            assert(has_entry_within(m@, c, m@[i].1 + 1));
                        } else {
                            let j = choose|j: int|
                                h0 <= j < q0.len() && (#[trigger] q0[j]).0 == c && q0[j].1 == m0[i].1 + 1;
                            if j == h0 {
                                assert(m@[nl].0 == c);
                                assert(has_entry_within(m@, c, m@[i].1 + 1));
                            } else {
                                assert(q@[j] == q0[j]);
                                assert(pending_child(q@, h as int, c, m@[i].1 + 1));
                            }
                        }
                    }
                }
                lemma_entries_bounded(m@, u);
            }
        }
    }
    proof {
        assert forall|i: int, k: int|
            0 <= i < m@.len() && 0 <= k < children_from(db@, ids, (#[trigger] m@[i]).0).len() implies has_entry_within(
            m@,
            #[trigger] children_from(db@, ids, m@[i].0)[k],
            m@[i].1 + 1,
        ) by {
            assert(child_covered(db@, ids, m@, q@, h as int, i, k));
        }
    }
    m
}


/// A node is the tree's root when it has children and hangs from nothing.
pub open spec fn is_root_candidate(db: Seq<TraitNode>, ids: Seq<u32>) -> spec_fn(u32) -> bool {
    |id: u32| children_from(db, ids, id).len() > 0 && node_edges(db, id).len() == 0
}

/// The root of a tree: its first node that has children and no parents.
pub open spec fn spec_root(db: Seq<TraitNode>, ids: Seq<u32>) -> Option<u32> {
    find_first(ids, is_root_candidate(db, ids))
}

pub open spec fn tree_has_id(tree_id: u32) -> spec_fn(TraitTree) -> bool {
    |t: TraitTree| t.tree_id == tree_id
}

/// The seeded specialization tree in a tree database (the first entry with
/// its id).
pub fn default_prof_spec_tree(trees: &Vec<TraitTree>) -> (r: Option<&TraitTree>)
    ensures
        match find_first(trees@, tree_has_id(spec_default_tree() as u32)) {
            Some(t) => r matches Some(x) && *x == t,
            None => r is None,
        },
{
    let ghost p = tree_has_id(spec_default_tree() as u32);
    proof {
        lemma_find_first_start(trees@);
    }
    let mut i: usize = 0;
    while i < trees.len()
        invariant
            i <= trees@.len(),
            p == tree_has_id(spec_default_tree() as u32),
            find_first(trees@, p) == find_first(trees@.subrange(i as int, trees@.len() as int), p),
        decreases trees.len() - i,
    {
        proof {
            lemma_find_first_step(trees@, p, i as int);
        }
        if trees[i].tree_id == 790 {
            return Some(&trees[i]);
        }
        i = i + 1;
    }
    proof {
        lemma_find_first_end(trees@, p);
    }
    None
}

/// The root node of a tree's specialization paths.
pub fn default_prof_spec_root_node_id(db: &Vec<TraitNode>, tree: &TraitTree) -> (r: Option<u32>)
    ensures
        r == spec_root(db@, tree.node_ids@),
{
    let ids = &tree.node_ids;
    let ghost p = is_root_candidate(db@, ids@);
    proof {
        lemma_find_first_start(ids@);
    }
    let mut i: usize = 0;
    while i < ids.len()
        invariant
            i <= ids@.len(),
            p == is_root_candidate(db@, ids@),
            ids@ == tree.node_ids@,
            find_first(ids@, p) == find_first(ids@.subrange(i as int, ids@.len() as int), p),
        decreases ids.len() - i,
    {
        proof {
            lemma_find_first_step(ids@, p, i as int);
        }
        let id = ids[i];
        let kids = children_of(db, ids, id);
        let has_parents = match find_node(db, id) {
            Some(k) => db[k].edge_sources.len() > 0,
            None => false,
        };
        if kids.len() > 0 && !has_parents {
            assert(p(ids@[i as int]));
            return Some(id);
        }
        i = i + 1;
    }
    proof {
        lemma_find_first_end(ids@, p);
    }
    None
}

/// The paths `GetChildrenForPath` lists: the children of the root and of
/// the root's children; nothing deeper, nothing unreachable, nothing in a
/// tree without a root.
pub open spec fn spec_children_for_path(db: Seq<TraitNode>, ids: Seq<u32>, path_id: u32) -> Seq<u32> {
    match spec_root(db, ids) {
        None => Seq::empty(),
        Some(root) => if path_id == root || children_from(db, ids, root).contains(path_id) {
            children_from(db, ids, path_id)
        } else {
            Seq::empty()
        },
    }
}

/// The depth recorded for a node, if any.
fn depth_of(m: &Vec<(u32, usize)>, n: u32) -> (r: Option<usize>)
    requires
        depth_keys_distinct(m@),
    ensures
        r matches Some(d) ==> exists|e: int| 0 <= e < m@.len() && m@[e] == (n, d),
        r is None ==> forall|e: int| 0 <= e < m@.len() ==> (#[trigger] m@[e]).0 != n,
{
    let mut i: usize = 0;
    while i < m.len()
        invariant
            i <= m@.len(),
            forall|e: int| 0 <= e < i ==> (#[trigger] m@[e]).0 != n,
        decreases m.len() - i,
    {
        if m[i].0 == n {
            return Some(m[i].1);
        }
        i = i + 1;
    }
    None
}

/// `C_ProfSpecs.GetChildrenForPath` for a tree.
pub fn children_for_path(db: &Vec<TraitNode>, tree: &TraitTree, path_id: u32) -> (r: Vec<u32>)
    ensures
        r@ == spec_children_for_path(db@, tree.node_ids@, path_id),
{
    let root = match default_prof_spec_root_node_id(db, tree) {
        Some(root) => root,
        None => return Vec::new(),
    };
    let m = tree_depth_map(db, tree, root);
    let ghost ids = tree.node_ids@;
    let depth = match depth_of(&m, path_id) {
        Some(d) => d,
        None => usize::MAX,
    };
    proof {
        if path_id == root {
            assert(m@[0] == (root, 0usize));
            if depth != 0 {
                let e = choose|e: int| 0 <= e < m@.len() && m@[e] == (path_id, depth);
                assert(e != 0);
            }
        } else if children_from(db@, ids, root).contains(path_id) {
            let k = choose|k: int| 0 <= k < children_from(db@, ids, root).len() && children_from(
                db@,
                ids,
                root,
            )[k] == path_id;
            assert(m@[0] == (root, 0usize));
            assert(has_entry_within(m@, children_from(db@, ids, m@[0].0)[k], m@[0].1 + 1));
            let e = choose|e: int| 0 <= e < m@.len() && (#[trigger] m@[e]).0 == path_id && m@[e].1 <= 1;
            if depth != m@[e].1 {
                let e2 = choose|e2: int| 0 <= e2 < m@.len() && m@[e2] == (path_id, depth);
                assert(e2 != e);
            }
        } else if depth < 2 {
            let e = choose|e: int| 0 <= e < m@.len() && m@[e] == (path_id, depth);
            if depth == 0 {
                assert(m@[e].1 == 0);
            } else {
                assert(m@[e].1 > 0);
                let j = choose|j: int| 0 <= j < m@.len() && m@[j].1 + 1 == m@[e].1 && #[trigger] children_from(db@, ids, m@[j].0).contains(m@[e].0);
                assert(m@[j].1 == 0);
            }
        }
    }
    if depth >= 2 {
        return Vec::new();
    }
    children_of(db, &tree.node_ids, path_id)
}

/// The skill line whose specialization tab is seeded (Blacksmithing).
pub open spec fn spec_default_skill_line() -> i32 {
    164
}

/// The seeded specialization tree.
pub open spec fn spec_default_tree() -> i32 {
    790
}

/// `C_ProfSpecs.SkillLineHasSpecialization`.
pub fn skill_line_has_specialization(skill_line_id: i32) -> (r: bool)
    ensures
        r == (skill_line_id == spec_default_skill_line()),
{
    skill_line_id == 164
}

/// `C_ProfSpecs.GetConfigIDForSkillLine`: 1 for the seeded skill line, else 0.
pub fn config_id_for_skill_line(skill_line_id: i32) -> (r: i32)
    ensures
        r == (if skill_line_id == spec_default_skill_line() {
            1i32
        } else {
            0i32
        }),
{
    if skill_line_id == 164 {
        1
    } else {
        0
    }
}

/// `C_ProfSpecs.GetSpecTabIDsForSkillLine`: the seeded tree for the seeded
/// skill line, none otherwise.
pub fn spec_tab_ids_for_skill_line(skill_line_id: i32) -> (r: Vec<i32>)
    ensures
        r@ == (if skill_line_id == spec_default_skill_line() {
            seq![spec_default_tree()]
        } else {
            Seq::<i32>::empty()
        }),
{
    let mut ids: Vec<i32> = Vec::new();
    if skill_line_id == 164 {
        ids.push(790);
    }
    ids
}

pub fn tab_matches_default_tree(tree_id: i32) -> (r: bool)
    ensures
        r == (tree_id == spec_default_tree()),
{
    tree_id == 790
}

/// `C_ProfSpecs.GetStateForTab`: Unlocked (1) for the seeded tree with
/// config 1, nothing otherwise.
pub fn state_for_tab(tree_id: i32, config_id: i32) -> (r: Option<i32>)
    ensures
        r == (if tree_id == spec_default_tree() && config_id == 1 {
            Some(1i32)
        } else {
            None::<i32>
        }),
{
    if tab_matches_default_tree(tree_id) && config_id == 1 {
        Some(1)
    } else {
        None
    }
}

/// `C_ProfSpecs.GetRootPathForTab`: the root for the seeded tree.
pub fn root_path_for_tab(tree_id: i32, root: Option<u32>) -> (r: Option<u32>)
    ensures
        r == (if tree_id == spec_default_tree() {
            root
        } else {
            None::<u32>
        }),
{
    if tab_matches_default_tree(tree_id) {
        root
    } else {
        None
    }
}

/// A path exists when the node database has a node with its id.
pub fn path_exists(db: &Vec<TraitNode>, path_id: i32) -> (r: bool)
    ensures
        r == (spec_node(db@, path_id as u32) is Some),
{
    find_node(db, path_id as u32).is_some()
}

/// The first entry of a node.
pub open spec fn spec_first_entry(db: Seq<TraitNode>, node_id: u32) -> Option<u32> {
    match spec_node(db, node_id) {
        Some(n) => if n.entry_ids@.len() > 0 {
            Some(n.entry_ids@[0])
        } else {
            None
        },
        None => None,
    }
}

pub fn node_first_entry_id(db: &Vec<TraitNode>, node_id: u32) -> (r: Option<u32>)
    ensures
        r == spec_first_entry(db@, node_id),
{
    match find_node(db, node_id) {
        Some(k) => if db[k].entry_ids.len() > 0 {
            Some(db[k].entry_ids[0])
        } else {
            None
        },
        None => None,
    }
}

/// `C_ProfSpecs.GetSpendEntryForPath`: the first entry of the path's node,
/// 0 when there is none.
pub fn spend_entry_for_path(db: &Vec<TraitNode>, path_id: i32) -> (r: i32)
    ensures
        r == (match spec_first_entry(db@, path_id as u32) {
            Some(e) => e as i32,
            None => 0i32,
        }),
{
    match node_first_entry_id(db, path_id as u32) {
        Some(e) => e as i32,
        None => 0,
    }
}

/// The rank reached on a node (0 when none is recorded).
pub open spec fn spec_rank(ranks: Seq<(u32, u32)>, node_id: u32) -> u32
    decreases ranks.len(),
{
    if ranks.len() == 0 {
        0
    } else if ranks[0].0 == node_id {
        ranks[0].1
    } else {
        spec_rank(ranks.drop_first(), node_id)
    }
}

fn rank_of(ranks: &Vec<(u32, u32)>, node_id: u32) -> (r: u32)
    ensures
        r == spec_rank(ranks@, node_id),
{
    let mut i: usize = 0;
    assert(ranks@.subrange(0, ranks@.len() as int) =~= ranks@);
    while i < ranks.len()
        invariant
            i <= ranks@.len(),
            spec_rank(ranks@, node_id) == spec_rank(ranks@.subrange(i as int, ranks@.len() as int), node_id),
        decreases ranks.len() - i,
    {
        proof {
            let t = ranks@.subrange(i as int, ranks@.len() as int);
            assert(t[0] == ranks@[i as int]);
            assert(t.drop_first() =~= ranks@.subrange(i + 1, ranks@.len() as int));
        }
        if ranks[i].0 == node_id {
            return ranks[i].1;
        }
        i = i + 1;
    }
    0
}

/// `C_ProfSpecs.GetStateForPath`: Completed (2) once the node's rank reaches
/// its rank count (at least 1), Progressing (1) before; nothing for an
/// unknown node.
pub open spec fn spec_path_state(db: Seq<TraitNode>, ranks: Seq<(u32, u32)>, path_id: i32) -> Option<i32> {
    match spec_node(db, path_id as u32) {
        None => None,
        Some(n) => {
            let max_ranks: int = if n.max_ranks < 1 {
                1
            } else {
                n.max_ranks as int
            };
            if spec_rank(ranks, path_id as u32) >= max_ranks {
                Some(2i32)
            } else {
                Some(1i32)
            }
        },
    }
}

pub fn path_state(db: &Vec<TraitNode>, ranks: &Vec<(u32, u32)>, path_id: i32) -> (r: Option<i32>)
    ensures
        r == spec_path_state(db@, ranks@, path_id),
{
    let node_id = path_id as u32;
    let k = match find_node(db, node_id) {
        Some(k) => k,
        None => return None,
    };
    let current = rank_of(ranks, node_id);
    let max_ranks: u32 = if db[k].max_ranks < 1 {
        1
    } else {
        db[k].max_ranks as u32
    };
    if current >= max_ranks {
        Some(2)
    } else {
        Some(1)
    }
}

/// Points a currency can hold at most (0 for an unknown currency).
pub open spec fn spec_max_points(table: Seq<(u32, u32)>, currency_id: u32) -> u32 {
    spec_rank(table, currency_id)
}

pub open spec fn currency_has_points(table: Seq<(u32, u32)>) -> spec_fn(u32) -> bool {
    |c: u32| spec_max_points(table, c) > 0
}

/// The currency a tree spends: its first currency that can hold points,
/// else its first currency.
pub open spec fn spec_default_currency(currency_ids: Seq<u32>, max_points: Seq<(u32, u32)>) -> Option<u32> {
    match find_first(currency_ids, currency_has_points(max_points)) {
        Some(c) => Some(c),
        None => if currency_ids.len() > 0 {
            Some(currency_ids[0])
        } else {
            None
        },
    }
}

pub fn default_prof_spec_currency_id(tree: &TraitTree, max_points: &Vec<(u32, u32)>) -> (r: Option<u32>)
    ensures
        r == spec_default_currency(tree.currency_ids@, max_points@),
{
    let ids = &tree.currency_ids;
    let ghost p = currency_has_points(max_points@);
    proof {
        lemma_find_first_start(ids@);
    }
    let mut i: usize = 0;
    while i < ids.len()
        invariant
            i <= ids@.len(),
            p == currency_has_points(max_points@),
            ids@ == tree.currency_ids@,
            find_first(ids@, p) == find_first(ids@.subrange(i as int, ids@.len() as int), p),
        decreases ids.len() - i,
    {
        proof {
            lemma_find_first_step(ids@, p, i as int);
        }
        if rank_of(max_points, ids[i]) > 0 {
            assert(p(ids@[i as int]));
            return Some(ids[i]);
        }
        i = i + 1;
    }
    proof {
        lemma_find_first_end(ids@, p);
    }
    if ids.len() > 0 {
        Some(ids[0])
    } else {
        None
    }
}

/// The figures of `GetCurrencyInfoForSkillLine`.
pub struct CurrencyInfo {
    pub num_available: u32,
    pub num_total: u32,
    pub spent_percentage: i32,
}

/// Available points are the total less those spent (never below 0); the
/// spent percentage is rounded down, 0 for a currency without points.
pub fn currency_info(spent: u32, total: u32) -> (r: CurrencyInfo)
    requires
        spent * 100 <= u32::MAX,
    ensures
        r.num_available == (if spent <= total {
            (total - spent) as u32
        } else {
            0u32
        }),
        r.num_total == total,
        r.spent_percentage == (if total == 0 {
            0i32
        } else {
            ((spent * 100) / (total as int)) as i32
        }),
{
    let available = if spent <= total {
        total - spent
    } else {
        0
    };
    let pct: i32 = if total == 0 {
        0
    } else {
        let scaled: u32 = spent * 100;
        (scaled / total) as i32
    };
    CurrencyInfo { num_available: available, num_total: total, spent_percentage: pct }
}


/// `GetSpendCurrencyForPath(pathID)`: the tree's currency for a path that
/// exists, nothing otherwise.
pub fn spend_currency_for_path(
    db: &Vec<TraitNode>,
    tree: &TraitTree,
    max_points: &Vec<(u32, u32)>,
    path_id: i32,
) -> (r: Option<u32>)
    ensures
        r == (if spec_node(db@, path_id as u32) is Some {
            spec_default_currency(tree.currency_ids@, max_points@)
        } else {
            None
        }),
{
    if path_exists(db, path_id) {
        default_prof_spec_currency_id(tree, max_points)
    } else {
        None
    }
}

/// `GetSourceTextForPath(pathID)`: where knowledge comes from, for a path
/// that exists; empty otherwise.
pub fn source_text_for_path(db: &Vec<TraitNode>, path_id: i32) -> (r: &'static str)
    ensures
        r == (if spec_node(db@, path_id as u32) is Some {
            "Earn Blacksmithing knowledge from profession activities."
        } else {
            ""
        }),
{
    if path_exists(db, path_id) {
        "Earn Blacksmithing knowledge from profession activities."
    } else {
        ""
    }
}

/// `GetCurrencyInfoForSkillLine(skillLine)`: for the seeded skill line, the
/// figures of the tree's currency from the points spent and the points it
/// can hold; nothing for another skill line or a tree without currency.
pub fn currency_info_for_skill_line(
    skill_line_id: i32,
    tree: &TraitTree,
    max_points: &Vec<(u32, u32)>,
    spent_points: &Vec<(u32, u32)>,
) -> (r: Option<CurrencyInfo>)
    requires
        skill_line_id == spec_default_skill_line() ==> match spec_default_currency(tree.currency_ids@, max_points@) {
            Some(c) => spec_rank(spent_points@, c) * 100 <= u32::MAX,
            None => true,
        },
    ensures
        match (if skill_line_id == spec_default_skill_line() {
            spec_default_currency(tree.currency_ids@, max_points@)
        } else {
            None
        }) {
            None => r is None,
            Some(c) => r matches Some(info) && {
                let spent = spec_rank(spent_points@, c);
                let total = spec_max_points(max_points@, c);
                &&& info.num_total == total
                &&& info.num_available == (if spent <= total { (total - spent) as u32 } else { 0u32 })
                &&& info.spent_percentage == (if total == 0 { 0i32 } else { ((spent * 100) / (total as int)) as i32 })
            },
        },
{
    if skill_line_id != 164 {
        return None;
    }
    let currency = match default_prof_spec_currency_id(tree, max_points) {
        Some(c) => c,
        None => return None,
    };
    let spent = rank_of(spent_points, currency);
    let total = rank_of(max_points, currency);
    Some(currency_info(spent, total))
}

/// The value stored under the first pair with the given key.
pub open spec fn spec_lookup_pair(table: Seq<(u32, u32)>, key: u32) -> Option<u32>
    decreases table.len(),
{
    if table.len() == 0 {
        None
    } else if table[0].0 == key {
        Some(table[0].1)
    } else {
        spec_lookup_pair(table.drop_first(), key)
    }
}

pub fn lookup_pair(table: &Vec<(u32, u32)>, key: u32) -> (r: Option<u32>)
    ensures
        r == spec_lookup_pair(table@, key),
{
    let mut i: usize = 0;
    assert(table@.subrange(0, table@.len() as int) =~= table@);
    while i < table.len()
        invariant
            i <= table@.len(),
            spec_lookup_pair(table@, key) == spec_lookup_pair(table@.subrange(i as int, table@.len() as int), key),
        decreases table.len() - i,
    {
        proof {
            let t = table@.subrange(i as int, table@.len() as int);
            assert(t[0] == table@[i as int]);
            assert(t.drop_first() =~= table@.subrange(i + 1, table@.len() as int));
        }
        if table[i].0 == key {
            return Some(table[i].1);
        }
        i = i + 1;
    }
    None
}

/// A trait definition: its icon override (0 for none) and the spell whose
/// icon it shows otherwise.
pub struct TraitDefinition {
    pub definition_id: u32,
    pub override_icon: u32,
    pub display_spell_id: Option<u32>,
}

pub open spec fn definition_has_id(definition_id: u32) -> spec_fn(TraitDefinition) -> bool {
    |d: TraitDefinition| d.definition_id == definition_id
}

/// The icon shown for a path: from its first entry's definition, the
/// override icon when set, else the icon of the definition's display spell;
/// 0 whenever a link is missing.
pub open spec fn spec_node_icon(
    db: Seq<TraitNode>,
    entries: Seq<(u32, u32)>,
    definitions: Seq<TraitDefinition>,
    spell_icons: Seq<(u32, u32)>,
    node_id: u32,
) -> u32 {
    match spec_first_entry(db, node_id) {
        None => 0,
        Some(entry_id) => match spec_lookup_pair(entries, entry_id) {
            None => 0,
            Some(definition_id) => match find_first(definitions, definition_has_id(definition_id)) {
                None => 0,
                Some(def) => if def.override_icon != 0 {
                    def.override_icon
                } else {
                    match def.display_spell_id {
                        None => 0,
                        Some(spell_id) => match spec_lookup_pair(spell_icons, spell_id) {
                            Some(icon) => icon,
                            None => 0,
                        },
                    }
                },
            },
        },
    }
}

fn find_definition(definitions: &Vec<TraitDefinition>, definition_id: u32) -> (r: Option<usize>)
    ensures
        r matches Some(k) ==> k < definitions@.len() && find_first(
            definitions@,
            definition_has_id(definition_id),
        ) == Some(definitions@[k as int]),
        r is None ==> find_first(definitions@, definition_has_id(definition_id)) is None,
{
    let ghost p = definition_has_id(definition_id);
    proof {
        lemma_find_first_start(definitions@);
    }
    let mut i: usize = 0;
    while i < definitions.len()
        invariant
            i <= definitions@.len(),
            p == definition_has_id(definition_id),
            find_first(definitions@, p) == find_first(
                definitions@.subrange(i as int, definitions@.len() as int),
                p,
            ),
        decreases definitions.len() - i,
    {
        proof {
            lemma_find_first_step(definitions@, p, i as int);
        }
        if definitions[i].definition_id == definition_id {
            return Some(i);
        }
        i = i + 1;
    }
    proof {
        lemma_find_first_end(definitions@, p);
    }
    None
}

pub fn node_icon_file_id(
    db: &Vec<TraitNode>,
    entries: &Vec<(u32, u32)>,
    definitions: &Vec<TraitDefinition>,
    spell_icons: &Vec<(u32, u32)>,
    node_id: u32,
) -> (r: u32)
    ensures
        r == spec_node_icon(db@, entries@, definitions@, spell_icons@, node_id),
{
    let entry_id = match node_first_entry_id(db, node_id) {
        Some(e) => e,
        None => return 0,
    };
    let definition_id = match lookup_pair(entries, entry_id) {
        Some(d) => d,
        None => return 0,
    };
    let k = match find_definition(definitions, definition_id) {
        Some(k) => k,
        None => return 0,
    };
    let def = &definitions[k];
    if def.override_icon != 0 {
        return def.override_icon;
    }
    match def.display_spell_id {
        None => 0,
        Some(spell_id) => match lookup_pair(spell_icons, spell_id) {
            Some(icon) => icon,
            None => 0,
        },
    }
}

/// A path's display name: its first entry's name when known.
pub fn node_display_name(entry_name: Option<String>) -> (r: String)
    ensures
        r@ == (match entry_name {
            Some(n) => n@,
            None => "Blacksmithing Path"@,
        }),
{
    match entry_name {
        Some(n) => n,
        None => String::from_str("Blacksmithing Path"),
    }
}

/// A path's description: its first entry's description when known, else
/// "Advance <name>.".
pub fn node_display_description(entry_description: Option<String>, display_name: &str) -> (r: String)
    ensures
        r@ == (match entry_description {
            Some(d) => d@,
            None => "Advance "@ + display_name@ + "."@,
        }),
{
    match entry_description {
        Some(d) => d,
        None => {
            let mut text = String::from_str("Advance ");
            text.append(display_name);
            text.append(".");
            text
        },
    }
}

} // verus!
