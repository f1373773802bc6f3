//! The attributed, directed multigraph.
//!
//! A graph owns a node set keyed by node index (an attribute key supplied
//! by the caller, unique within the graph) and an edge set keyed by edge
//! index (an opaque handle the graph assigns, strictly increasing over its
//! lifetime and never reused).  Each edge stores an ordered
//! (source, target) node-index pair plus its attributes, and several edges
//! may share the same ordered pair.
//!
//! The contracts speak of two maps: node index to attribute map, and edge
//! index to [`EdgeInfo`].  Every operation says exactly how it changes
//! them, on which inputs it succeeds, and which error each rejected input
//! raises.  Removal cascades: removing a node removes every incident edge.

use vstd::prelude::*;

pub mod edge;

use crate::assoc::{
    assoc_map, distinct_keys, insert_all, lemma_assoc_map_dom, lemma_assoc_map_index,
    lemma_assoc_map_len, lemma_assoc_map_push, lemma_assoc_map_remove, lemma_insert_all_dom,
    lemma_insert_all_push,
};
use crate::datatypes::attributes::Attributes;
use crate::datatypes::key::{AttributeKey, AttributeKeyView};
use crate::datatypes::value::AttributeValueView;
use crate::errors::GraphError;
use edge::EdgeIndex;

verus! {

/// The mathematical contents of an attribute map.
pub type AttrMap = Map<AttributeKeyView, AttributeValueView>;

struct Node {
    index: AttributeKey,
    attributes: Attributes,
}

struct Edge {
    index: EdgeIndex,
    source: AttributeKey,
    target: AttributeKey,
    attributes: Attributes,
}

/// The mathematical values of a sequence of stored edges.
spec fn edge_entries(s: Seq<Edge>) -> Seq<(usize, EdgeInfo)> {
    Seq::new(
        s.len(),
        |i: int|
            (
                s[i].index.0,
                EdgeInfo {
                    source: s[i].source@,
                    target: s[i].target@,
                    attributes: s[i].attributes@,
                },
            ),
    )
}

impl Edge {
    fn clone_edge(&self) -> (res: Self)
        ensures
            res.index == self.index,
            res.source == self.source,
            res.target == self.target,
            res.attributes.kv_seq() == self.attributes.kv_seq(),
    {
        Edge {
            index: self.index,
            source: self.source.clone(),
            target: self.target.clone(),
            attributes: self.attributes.clone(),
        }
    }
}

/// What the graph records of one edge: its ordered endpoints and its
/// attribute contents.
pub struct EdgeInfo {
    pub source: AttributeKeyView,
    pub target: AttributeKeyView,
    pub attributes: AttrMap,
}

/// Whether an edge touches a node, as source or as target.
pub open spec fn incident(e: EdgeInfo, k: AttributeKeyView) -> bool {
    e.source == k || e.target == k
}

/// The edge set left after a node disappears: every edge not incident to
/// it, unchanged.
pub open spec fn edges_without_node(m: Map<usize, EdgeInfo>, k: AttributeKeyView) -> Map<
    usize,
    EdgeInfo,
> {
    Map::new(|id: usize| m.contains_key(id) && !incident(m[id], k), |id: usize| m[id])
}

/// The mathematical values of a node batch, in input order.
pub open spec fn node_batch_views(s: Seq<(AttributeKey, Attributes)>) -> Seq<
    (AttributeKeyView, AttrMap),
> {
    Seq::new(s.len(), |i: int| (s[i].0@, s[i].1@))
}

/// Batch element `i` collides: its key is already bound, or repeats the key
/// of an earlier element of the same batch.
pub open spec fn node_conflict_at(
    m: Map<AttributeKeyView, AttrMap>,
    s: Seq<(AttributeKeyView, AttrMap)>,
    i: int,
) -> bool {
    m.contains_key(s[i].0) || exists|j: int| 0 <= j < i && s[j].0 == s[i].0
}

/// The mathematical values of an edge batch, in input order.
pub open spec fn edge_batch_views(s: Seq<(AttributeKey, AttributeKey, Attributes)>) -> Seq<
    (AttributeKeyView, AttributeKeyView, AttrMap),
> {
    Seq::new(s.len(), |i: int| (s[i].0@, s[i].1@, s[i].2@))
}

/// Batch element `i` references an absent endpoint.
pub open spec fn edge_missing_at(
    m: Map<AttributeKeyView, AttrMap>,
    s: Seq<(AttributeKeyView, AttributeKeyView, AttrMap)>,
    i: int,
) -> bool {
    !m.contains_key(s[i].0) || !m.contains_key(s[i].1)
}

/// The edge set after appending a batch under consecutive indices starting
/// at `base`.
pub open spec fn edges_appended(
    m: Map<usize, EdgeInfo>,
    s: Seq<(AttributeKeyView, AttributeKeyView, AttrMap)>,
    base: int,
) -> Map<usize, EdgeInfo> {
    Map::new(
        |id: usize| m.contains_key(id) || (base <= id < base + s.len()),
        |id: usize|
            if base <= id < base + s.len() {
                EdgeInfo {
                    source: s[id - base].0,
                    target: s[id - base].1,
                    attributes: s[id - base].2,
                }
            } else {
                m[id]
            },
    )
}

/// Edge entries listed with strictly increasing indices.
pub open spec fn entries_increasing(s: Seq<(usize, EdgeInfo)>) -> bool {
    forall|p: int, q: int| 0 <= p < q < s.len() ==> (#[trigger] s[p].0) < (#[trigger] s[q].0)
}

/// Edge indices listed strictly increasing.
pub open spec fn ids_increasing(v: Seq<EdgeIndex>) -> bool {
    forall|p: int, q: int| 0 <= p < q < v.len() ==> (#[trigger] v[p].0) < (#[trigger] v[q].0)
}

/// The indices of the selected entries, in listing order.
pub open spec fn selected_ids(
    s: Seq<(usize, EdgeInfo)>,
    sel: spec_fn(EdgeInfo) -> bool,
) -> Seq<EdgeIndex>
    decreases s.len(),
{
    if s.len() == 0 {
        Seq::empty()
    } else if sel(s.last().1) {
        selected_ids(s.drop_last(), sel).push(EdgeIndex(s.last().0))
    } else {
        selected_ids(s.drop_last(), sel)
    }
}

/// The selected entries themselves, in listing order.
pub open spec fn selected_entries(
    s: Seq<(usize, EdgeInfo)>,
    sel: spec_fn(EdgeInfo) -> bool,
) -> Seq<(usize, EdgeInfo)>
    decreases s.len(),
{
    if s.len() == 0 {
        Seq::empty()
    } else if sel(s.last().1) {
        selected_entries(s.drop_last(), sel).push(s.last())
    } else {
        selected_entries(s.drop_last(), sel)
    }
}

/// The set of edge indices a listing holds.
pub open spec fn id_set(v: Seq<EdgeIndex>) -> Set<usize> {
    Set::new(|id: usize| exists|p: int| #![trigger v[p]] 0 <= p < v.len() && v[p].0 == id)
}

/// The set of edge indices whose entries a selection accepts.
pub open spec fn matching_ids(
    m: Map<usize, EdgeInfo>,
    sel: spec_fn(EdgeInfo) -> bool,
) -> Set<usize> {
    Set::new(|id: usize| m.contains_key(id) && sel(m[id]))
}

/// The selection an incidence query uses: the edge arrives/// The selection an incidence query uses: the edge arrives at the node.
pub open spec fn sel_incoming(k: AttributeKeyView) -> spec_fn(EdgeInfo) -> bool {
    |e: EdgeInfo| e.target == k
}

/// The selection an incidence query uses: the edge leaves the node.
pub open spec fn sel_outgoing(k: AttributeKeyView) -> spec_fn(EdgeInfo) -> bool {
    |e: EdgeInfo| e.source == k
}

/// The selection a cascading removal keeps: the edge does not touch the
/// removed node.
pub open spec fn sel_remaining(k: AttributeKeyView) -> spec_fn(EdgeInfo) -> bool {
    |e: EdgeInfo| !incident(e, k)
}

/// The selection a connecting query uses: the ordered endpoint pair
/// matches exactly.
pub open spec fn sel_connecting(
    src: AttributeKeyView,
    tgt: AttributeKeyView,
) -> spec_fn(EdgeInfo) -> bool {
    |e: EdgeInfo| e.source == src && e.target == tgt
}

/// The selected indices of a strictly increasing listing are themselves
/// strictly increasing and form, as a set, exactly the matching indices of
/// the denoted edge map.
#[verifier::rlimit(100)]
proof fn lemma_selected_ids(s: Seq<(usize, EdgeInfo)>, sel: spec_fn(EdgeInfo) -> bool)
    requires
        entries_increasing(s),
    ensures
        ids_increasing(selected_ids(s, sel)),
        id_set(selected_ids(s, sel)) == matching_ids(assoc_map(s), sel),
    decreases s.len(),
{
    let v = selected_ids(s, sel);
    if s.len() == 0 {
        assert(id_set(v) =~= matching_ids(assoc_map(s), sel));
    } else {
        let inner = s.drop_last();
        let x = s.last();
        lemma_selected_ids(inner, sel);
        let vi = selected_ids(inner, sel);
        let mi = assoc_map(inner);
        lemma_assoc_map_dom(inner);
        assert forall|i: int, j: int| 0 <= i < j < inner.len() implies (
        #[trigger] inner[i].0) < (#[trigger] inner[j].0) by {
            assert(inner[i] == s[i] && inner[j] == s[j]);
        }
        assert forall|i: int| 0 <= i < inner.len() implies (#[trigger] inner[i]).0 != x.0 by {
            assert(inner[i] == s[i]);
            assert(s[i].0 < s[s.len() - 1].0);
        }
        assert(!mi.contains_key(x.0));
        if sel(x.1) {
            assert(v == vi.push(EdgeIndex(x.0)));
            assert forall|p: int, q: int| 0 <= p < q < v.len() implies (#[trigger] v[p].0) < (
            #[trigger] v[q].0) by {
                if q == v.len() - 1 {
                    assert(v[p] == vi[p]);
                    assert(id_set(vi).contains(vi[p].0));
                    assert(mi.contains_key(vi[p].0));
                    let q0 = choose|q0: int| 0 <= q0 < inner.len() && inner[q0].0 == vi[p].0;
                    assert(s[q0].0 < s[s.len() - 1].0);
                } else {
                    assert(v[p] == vi[p] && v[q] == vi[q]);
                }
            }
            assert forall|id: usize| #[trigger]
                id_set(v).contains(id) implies matching_ids(assoc_map(s), sel).contains(id) by {
                let p = choose|p: int| #![trigger v[p]] 0 <= p < v.len() && v[p].0 == id;
                if p < vi.len() {
                    assert(v[p] == vi[p]);
                    assert(id_set(vi).contains(id));
                    assert(mi.contains_key(id) && sel(mi[id]));
                    assert(id != x.0);
                    assert(assoc_map(s) == mi.insert(x.0, x.1));
                } else {
                    assert(id == x.0);
                    assert(assoc_map(s) == mi.insert(x.0, x.1));
                }
            }
            assert forall|id: usize| #[trigger]
                matching_ids(assoc_map(s), sel).contains(id) implies id_set(v).contains(id) by {
                assert(assoc_map(s) == mi.insert(x.0, x.1));
                if id == x.0 {
                    assert(v[v.len() - 1].0 == id);
                } else {
                    assert(mi.contains_key(id) && sel(mi[id]));
                    assert(id_set(vi).contains(id));
                    let p0 = choose|p0: int| #![trigger vi[p0]]
                        0 <= p0 < vi.len() && vi[p0].0 == id;
                    assert(v[p0] == vi[p0]);
                    assert(v[p0].0 == id);
                }
            }
            assert(id_set(v) =~= matching_ids(assoc_map(s), sel));
        } else {
            assert(v == vi);
            assert forall|id: usize| #[trigger]
                id_set(v).contains(id) implies matching_ids(assoc_map(s), sel).contains(id) by {
                assert(mi.contains_key(id) && sel(mi[id]));
                assert(id != x.0);
                assert(assoc_map(s) == mi.insert(x.0, x.1));
            }
            assert forall|id: usize| #[trigger]
                matching_ids(assoc_map(s), sel).contains(id) implies id_set(v).contains(id) by {
                assert(assoc_map(s) == mi.insert(x.0, x.1));
                assert(id != x.0);
                assert(mi.contains_key(id) && sel(mi[id]));
            }
            assert(id_set(v) =~= matching_ids(assoc_map(s), sel));
        }
    }
}

/// The selected entries of a strictly increasing listing are themselves
/// strictly increasing and denote exactly the selected part of the original
/// map, values unchanged.
#[verifier::rlimit(100)]
proof fn lemma_selected_entries(s: Seq<(usize, EdgeInfo)>, sel: spec_fn(EdgeInfo) -> bool)
    requires
        entries_increasing(s),
    ensures
        entries_increasing(selected_entries(s, sel)),
        assoc_map(selected_entries(s, sel)) == Map::new(
            |id: usize| assoc_map(s).contains_key(id) && sel(assoc_map(s)[id]),
            |id: usize| assoc_map(s)[id],
        ),
    decreases s.len(),
{
    let w = selected_entries(s, sel);
    if s.len() == 0 {
        assert(assoc_map(w) =~= Map::new(
            |id: usize| assoc_map(s).contains_key(id) && sel(assoc_map(s)[id]),
            |id: usize| assoc_map(s)[id],
        ));
    } else {
        let inner = s.drop_last();
        let x = s.last();
        lemma_selected_entries(inner, sel);
        let wi = selected_entries(inner, sel);
        let mi = assoc_map(inner);
        lemma_assoc_map_dom(inner);
        assert forall|i: int, j: int| 0 <= i < j < inner.len() implies (
        #[trigger] inner[i].0) < (#[trigger] inner[j].0) by {
            assert(inner[i] == s[i] && inner[j] == s[j]);
        }
        assert forall|i: int| 0 <= i < inner.len() implies (#[trigger] inner[i]).0 != x.0 by {
            assert(inner[i] == s[i]);
            assert(s[i].0 < s[s.len() - 1].0);
        }
        assert(!mi.contains_key(x.0));
        assert(assoc_map(s) == mi.insert(x.0, x.1));
        lemma_assoc_map_dom(wi);
        if sel(x.1) {
            assert(w == wi.push(x));
            lemma_assoc_map_push(wi, x);
            assert forall|p: int, q: int| 0 <= p < q < w.len() implies (#[trigger] w[p].0) < (
            #[trigger] w[q].0) by {
                if q == w.len() - 1 {
                    assert(w[p] == wi[p]);
                    lemma_assoc_map_index(wi, p);
                    assert(assoc_map(wi).contains_key(wi[p].0));
                    assert(mi.contains_key(wi[p].0));
                    let q0 = choose|q0: int| 0 <= q0 < inner.len() && inner[q0].0 == wi[p].0;
                    assert(s[q0].0 < s[s.len() - 1].0);
                } else {
                    assert(w[p] == wi[p] && w[q] == wi[q]);
                }
            }
            assert(assoc_map(w) =~= Map::new(
                |id: usize| assoc_map(s).contains_key(id) && sel(assoc_map(s)[id]),
                |id: usize| assoc_map(s)[id],
            ));
        } else {
            assert(w == wi);
            assert(assoc_map(w) =~= Map::new(
                |id: usize| assoc_map(s).contains_key(id) && sel(assoc_map(s)[id]),
                |id: usize| assoc_map(s)[id],
            ));
        }
    }
}

/// A directed multigraph/// A directed multigraph/// A directed multigraph with attributed nodes and edges.
pub struct DataGraph {
    nodes: Vec<Node>,
    edges: Vec<Edge>,
    next_edge_index: usize,
}

impl DataGraph {
    /// The node entries' mathematical values, in storage order.
    pub closed spec fn nodes_seq(&self) -> Seq<(AttributeKeyView, AttrMap)> {
        Seq::new(self.nodes@.len(), |i: int| (self.nodes@[i].index@, self.nodes@[i].attributes@))
    }

    /// The edge entries' mathematical values, in storage order.
    pub closed spec fn edges_seq(&self) -> Seq<(usize, EdgeInfo)> {
        Seq::new(
            self.edges@.len(),
            |i: int|
                (
                    self.edges@[i].index.0,
                    EdgeInfo {
                        source: self.edges@[i].source@,
                        target: self.edges@[i].target@,
                        attributes: self.edges@[i].attributes@,
                    },
                ),
        )
    }

    /// Node index to attribute contents.
    pub open spec fn nodes_map(&self) -> Map<AttributeKeyView, AttrMap> {
        assoc_map(self.nodes_seq())
    }

    /// Edge index to endpoints and attribute contents.
    pub open spec fn edges_map(&self) -> Map<usize, EdgeInfo> {
        assoc_map(self.edges_seq())
    }

    /// The next edge index the graph will assign.
    pub closed spec fn next_edge(&self) -> usize {
        self.next_edge_index
    }

    /// Well-formed: node indices are unique; edge indices are strictly
    /// increasing in storage order and all below the next to be assigned;
    /// every edge endpoint names a present node; every attribute map is
    /// well formed.
    pub closed spec fn wf(&self) -> bool {
        &&& distinct_keys(self.nodes_seq())
        &&& (forall|i: int|
            0 <= i < self.nodes@.len() ==> (#[trigger] self.nodes@[i]).attributes.wf())
        &&& (forall|i: int, j: int|
            0 <= i < j < self.edges@.len() ==> (#[trigger] self.edges@[i].index.0) < (
            #[trigger] self.edges@[j].index.0))
        &&& (forall|i: int|
            0 <= i < self.edges@.len() ==> (#[trigger] self.edges@[i]).index.0
                < self.next_edge_index)
        &&& (forall|i: int|
            0 <= i < self.edges@.len() ==> (#[trigger] self.edges@[i]).attributes.wf())
        &&& (forall|i: int|
            0 <= i < self.edges@.len() ==> self.nodes_map().contains_key(
                (#[trigger] self.edges@[i]).source@,
            ) && self.nodes_map().contains_key(self.edges@[i].target@))
    }

    proof fn lemma_edges_distinct(&self)
        requires
            self.wf(),
        ensures
            distinct_keys(self.edges_seq()),
    {
    }

    /// An empty graph.
    pub fn new() -> (g: Self)
        ensures
            g.wf(),
            g.nodes_map() == Map::<AttributeKeyView, AttrMap>::empty(),
            g.edges_map() == Map::<usize, EdgeInfo>::empty(),
            g.next_edge() == 0,
    {
        let g = DataGraph { nodes: Vec::new(), edges: Vec::new(), next_edge_index: 0 };
        proof {
            assert(g.nodes_seq() =~= Seq::empty());
            assert(g.edges_seq() =~= Seq::empty());
        }
        g
    }

    /// The position of a node in storage, if present.
    fn find_node(&self, key: &AttributeKey) -> (r: Option<usize>)
        requires
            self.wf(),
        ensures
            match r {
                Some(i) => i < self.nodes@.len() && self.nodes@[i as int].index@ == key@
                    && self.nodes_map().contains_key(key@),
                None => !self.nodes_map().contains_key(key@),
            },
    {
        let mut i: usize = 0;
        while i < self.nodes.len()
            invariant
                self.wf(),
                i <= self.nodes@.len(),
                forall|j: int| 0 <= j < i ==> (#[trigger] self.nodes@[j]).index@ != key@,
            decreases self.nodes@.len() - i,
        {
            if self.nodes[i].index.key_eq(key) {
                proof {
                    lemma_assoc_map_dom(self.nodes_seq());
                    assert(self.nodes_seq()[i as int].0 == key@);
                }
                return Some(i);
            }
            i += 1;
        }
        proof {
            lemma_assoc_map_dom(self.nodes_seq());
        }
        None
    }

    /// The position of an edge in storage, if present.
    fn find_edge(&self, index: EdgeIndex) -> (r: Option<usize>)
        requires
            self.wf(),
        ensures
            match r {
                Some(i) => i < self.edges@.len() && self.edges@[i as int].index == index
                    && self.edges_map().contains_key(index.0),
                None => !self.edges_map().contains_key(index.0),
            },
    {
        let mut i: usize = 0;
        while i < self.edges.len()
            invariant
                self.wf(),
                i <= self.edges@.len(),
                forall|j: int| 0 <= j < i ==> (#[trigger] self.edges@[j]).index.0 != index.0,
            decreases self.edges@.len() - i,
        {
            if self.edges[i].index.0 == index.0 {
                proof {
                    lemma_assoc_map_dom(self.edges_seq());
                    assert(self.edges_seq()[i as int].0 == index.0);
                }
                return Some(i);
            }
            i += 1;
        }
        proof {
            lemma_assoc_map_dom(self.edges_seq());
        }
        None
    }

    /// Whether a node index is present; never fails.
    pub fn contains_node(&self, node_index: AttributeKey) -> (r: bool)
        requires
            self.wf(),
        ensures
            r == self.nodes_map().contains_key(node_index@),
    {
        self.find_node(&node_index).is_some()
    }

    /// Whether an edge index is present; never fails.
    pub fn contains_edge(&self, edge_index: EdgeIndex) -> (r: bool)
        requires
            self.wf(),
        ensures
            r == self.edges_map().contains_key(edge_index.0),
    {
        self.find_edge(edge_index).is_some()
    }

    /// How many nodes the graph holds.
    pub fn node_count(&self) -> (n: usize)
        requires
            self.wf(),
        ensures
            n == self.nodes_map().len(),
    {
        proof {
            lemma_assoc_map_len(self.nodes_seq());
        }
        self.nodes.len()
    }

    /// How many edges the graph holds.
    pub fn edge_count(&self) -> (n: usize)
        requires
            self.wf(),
        ensures
            n == self.edges_map().len(),
    {
        proof {
            self.lemma_edges_distinct();
            lemma_assoc_map_len(self.edges_seq());
        }
        self.edges.len()
    }

    /// Adds a node.  Fails with [`GraphError::NodeAlreadyExists`] if the
    /// index is present; the existing node is never overwritten.
    pub fn add_node(&mut self, node_index: AttributeKey, attributes: Attributes) -> (r: Result<
        (),
        GraphError,
    >)
        requires
            old(self).wf(),
            attributes.wf(),
        ensures
            final(self).wf(),
            final(self).edges_map() == old(self).edges_map(),
            final(self).next_edge() == old(self).next_edge(),
            match r {
                Ok(_) => {
                    &&& !old(self).nodes_map().contains_key(node_index@)
                    &&& final(self).nodes_map() == old(self).nodes_map().insert(
                        node_index@,
                        attributes@,
                    )
                },
                Err(e) => {
                    &&& old(self).nodes_map().contains_key(node_index@)
                    &&& e matches GraphError::NodeAlreadyExists(k) && k@ == node_index@
                    &&& final(self).nodes_map() == old(self).nodes_map()
                },
            },
    {
        match self.find_node(&node_index) {
            Some(_) => Err(GraphError::NodeAlreadyExists(node_index)),
            None => {
                let ghost old_nseq = self.nodes_seq();
                self.nodes.push(Node { index: node_index, attributes });
                proof {
                    assert(self.nodes_seq() =~= old_nseq.push((node_index@, attributes@)));
                    assert(self.edges_seq() =~= old(self).edges_seq());
                    lemma_assoc_map_push(old_nseq, (node_index@, attributes@));
                    lemma_assoc_map_dom(old_nseq);
                }
                Ok(())
            }
        }
    }

    /// Adds an edge between two present nodes and returns its newly
    /// assigned index, which is strictly greater than every index the
    /// graph has ever assigned.  Fails with [`GraphError::NodeNotFound`]
    /// if either endpoint is absent, naming the source first.
    pub fn add_edge(
        &mut self,
        source_node_index: AttributeKey,
        target_node_index: AttributeKey,
        attributes: Attributes,
    ) -> (r: Result<EdgeIndex, GraphError>)
        requires
            old(self).wf(),
            attributes.wf(),
            old(self).next_edge() < usize::MAX,
        ensures
            final(self).wf(),
            final(self).nodes_map() == old(self).nodes_map(),
            match r {
                Ok(e) => {
                    &&& old(self).nodes_map().contains_key(source_node_index@)
                    &&& old(self).nodes_map().contains_key(target_node_index@)
                    &&& e.0 == old(self).next_edge()
                    &&& final(self).next_edge() == old(self).next_edge() + 1
                    &&& final(self).edges_map() == old(self).edges_map().insert(
                        e.0,
                        EdgeInfo {
                            source: source_node_index@,
                            target: target_node_index@,
                            attributes: attributes@,
                        },
                    )
                },
                Err(e) => {
                    &&& e matches GraphError::NodeNotFound(k)
                    &&& (if !old(self).nodes_map().contains_key(source_node_index@) {
                        k@ == source_node_index@
                    } else {
                        !old(self).nodes_map().contains_key(target_node_index@) && k@
                            == target_node_index@
                    })
                    &&& final(self).edges_map() == old(self).edges_map()
                    &&& final(self).next_edge() == old(self).next_edge()
                },
            },
    {
        if self.find_node(&source_node_index).is_none() {
            return Err(GraphError::NodeNotFound(source_node_index));
        }
        if self.find_node(&target_node_index).is_none() {
            return Err(GraphError::NodeNotFound(target_node_index));
        }
        let index = EdgeIndex(self.next_edge_index);
        let ghost old_eseq = self.edges_seq();
        self.next_edge_index = self.next_edge_index + 1;
        self.edges.push(
            Edge { index, source: source_node_index, target: target_node_index, attributes },
        );
        proof {
            assert(self.nodes_seq() =~= old(self).nodes_seq());
            assert(self.edges_seq() =~= old_eseq.push(
                (
                    index.0,
                    EdgeInfo {
                        source: source_node_index@,
                        target: target_node_index@,
                        attributes: attributes@,
                    },
                ),
            ));
            lemma_assoc_map_push(
                old_eseq,
                (
                    index.0,
                    EdgeInfo {
                        source: source_node_index@,
                        target: target_node_index@,
                        attributes: attributes@,
                    },
                ),
            );
        }
        Ok(index)
    }

    /// A fresh, independent copy of a node's attributes.  Fails with
    /// [`GraphError::NodeNotFound`] if the index is absent.
    pub fn node_attributes(&self, node_index: AttributeKey) -> (r: Result<Attributes, GraphError>)
        requires
            self.wf(),
        ensures
            match r {
                Ok(a) => {
                    &&& self.nodes_map().contains_key(node_index@)
                    &&& a.wf()
                    &&& a@ == self.nodes_map()[node_index@]
                },
                Err(e) => {
                    &&& !self.nodes_map().contains_key(node_index@)
                    &&& e matches GraphError::NodeNotFound(k) && k@ == node_index@
                },
            },
    {
        match self.find_node(&node_index) {
            None => Err(GraphError::NodeNotFound(node_index)),
            Some(i) => {
                proof {
                    lemma_assoc_map_index(self.nodes_seq(), i as int);
                }
                Ok(self.nodes[i].attributes.clone())
            }
        }
    }

    /// A fresh, independent copy of an edge's attributes.  Fails with
    /// [`GraphError::EdgeNotFound`] if the index is absent.
    pub fn edge_attributes(&self, edge_index: EdgeIndex) -> (r: Result<Attributes, GraphError>)
        requires
            self.wf(),
        ensures
            match r {
                Ok(a) => {
                    &&& self.edges_map().contains_key(edge_index.0)
                    &&& a.wf()
                    &&& a@ == self.edges_map()[edge_index.0].attributes
                },
                Err(e) => {
                    &&& !self.edges_map().contains_key(edge_index.0)
                    &&& e matches GraphError::EdgeNotFound(ei) && ei == edge_index
                },
            },
    {
        match self.find_edge(edge_index) {
            None => Err(GraphError::EdgeNotFound(edge_index)),
            Some(i) => {
                proof {
                    self.lemma_edges_distinct();
                    lemma_assoc_map_index(self.edges_seq(), i as int);
                }
                Ok(self.edges[i].attributes.clone())
            }
        }
    }

    /// Every node index, in engine-defined order; never fails.
    pub fn node_indices(&self) -> (r: Vec<AttributeKey>)
        requires
            self.wf(),
        ensures
            r@.len() == self.nodes_map().len(),
            forall|i: int|
                0 <= i < r@.len() ==> self.nodes_map().contains_key((#[trigger] r@[i])@),
            forall|k: AttributeKeyView|
                #[trigger] self.nodes_map().contains_key(k) ==> exists|i: int|
                    0 <= i < r@.len() && r@[i]@ == k,
    {
        let mut r: Vec<AttributeKey> = Vec::new();
        let mut i: usize = 0;
        while i < self.nodes.len()
            invariant
                self.wf(),
                i <= self.nodes@.len(),
                r@.len() == i,
                forall|j: int| 0 <= j < i ==> (#[trigger] r@[j])@ == self.nodes_seq()[j].0,
            decreases self.nodes@.len() - i,
        {
            r.push(self.nodes[i].index.clone());
            i += 1;
        }
        proof {
            lemma_assoc_map_dom(self.nodes_seq());
            lemma_assoc_map_len(self.nodes_seq());
            assert forall|k: AttributeKeyView| #[trigger]
                self.nodes_map().contains_key(k) implies exists|i: int|
                0 <= i < r@.len() && r@[i]@ == k by {
                let j = choose|j: int|
                    0 <= j < self.nodes_seq().len() && self.nodes_seq()[j].0 == k;
                assert(r@[j]@ == k);
            }
        }
        r
    }

    /// Every edge index, in engine-defined order; never fails.
    pub fn edge_indices(&self) -> (r: Vec<EdgeIndex>)
        requires
            self.wf(),
        ensures
            r@.len() == self.edges_map().len(),
            forall|i: int|
                0 <= i < r@.len() ==> self.edges_map().contains_key((#[trigger] r@[i]).0),
            forall|id: usize|
                #[trigger] self.edges_map().contains_key(id) ==> exists|i: int|
                    0 <= i < r@.len() && r@[i].0 == id,
    {
        let mut r: Vec<EdgeIndex> = Vec::new();
        let mut i: usize = 0;
        while i < self.edges.len()
            invariant
                self.wf(),
                i <= self.edges@.len(),
                r@.len() == i,
                forall|j: int| 0 <= j < i ==> (#[trigger] r@[j]).0 == self.edges_seq()[j].0,
            decreases self.edges@.len() - i,
        {
            r.push(self.edges[i].index);
            i += 1;
        }
        proof {
            self.lemma_edges_distinct();
            lemma_assoc_map_dom(self.edges_seq());
            lemma_assoc_map_len(self.edges_seq());
            assert forall|id: usize| #[trigger]
                self.edges_map().contains_key(id) implies exists|i: int|
                0 <= i < r@.len() && r@[i].0 == id by {
                let j = choose|j: int|
                    0 <= j < self.edges_seq().len() && self.edges_seq()[j].0 == id;
                assert(r@[j].0 == id);
            }
        }
        r
    }

    /// Adds a batch of nodes, fail-fast with no partial commit: the first
    /// element whose key is already bound, or repeats an earlier element's
    /// key, fails the whole call with [`GraphError::NodeAlreadyExists`] and
    /// the graph is left unchanged.
    pub fn add_nodes(&mut self, nodes: Vec<(AttributeKey, Attributes)>) -> (r: Result<
        (),
        GraphError,
    >)
        requires
            old(self).wf(),
            forall|i: int| 0 <= i < nodes@.len() ==> (#[trigger] nodes@[i]).1.wf(),
        ensures
            final(self).wf(),
            final(self).edges_map() == old(self).edges_map(),
            final(self).next_edge() == old(self).next_edge(),
            match r {
                Ok(_) => {
                    &&& forall|i: int|
                        0 <= i < nodes@.len() ==> !node_conflict_at(
                            old(self).nodes_map(),
                            node_batch_views(nodes@),
                            i,
                        )
                    &&& final(self).nodes_map() == insert_all(
                        old(self).nodes_map(),
                        node_batch_views(nodes@),
                    )
                },
                Err(e) => {
                    &&& final(self).nodes_map() == old(self).nodes_map()
                    &&& e matches GraphError::NodeAlreadyExists(k) && exists|i: int|
                        {
                            &&& 0 <= i < nodes@.len()
                            &&& #[trigger] node_conflict_at(
                                old(self).nodes_map(),
                                node_batch_views(nodes@),
                                i,
                            )
                            &&& forall|j: int|
                                0 <= j < i ==> !node_conflict_at(
                                    old(self).nodes_map(),
                                    node_batch_views(nodes@),
                                    j,
                                )
                            &&& k@ == node_batch_views(nodes@)[i].0
                        }
                },
            },
    {
        let ghost views = node_batch_views(nodes@);
        let mut i: usize = 0;
        while i < nodes.len()
            invariant
                self == old(self),
                self.wf(),
                views == node_batch_views(nodes@),
                i <= nodes@.len(),
                forall|j: int| 0 <= j < i ==> !node_conflict_at(self.nodes_map(), views, j),
            decreases nodes@.len() - i,
        {
            if self.find_node(&nodes[i].0).is_some() {
                proof {
                    assert(node_conflict_at(self.nodes_map(), views, i as int));
                }
                return Err(GraphError::NodeAlreadyExists(nodes[i].0.clone()));
            }
            let mut j: usize = 0;
            while j < i
                invariant
                    self == old(self),
                    self.wf(),
                    views == node_batch_views(nodes@),
                    j <= i < nodes@.len(),
                    forall|j2: int| 0 <= j2 < i ==> !node_conflict_at(self.nodes_map(), views, j2),
                    forall|j2: int| 0 <= j2 < j ==> views[j2].0 != views[i as int].0,
                decreases i - j,
            {
                if nodes[j].0.key_eq(&nodes[i].0) {
                    proof {
                        assert(views[j as int].0 == views[i as int].0);
                        assert(node_conflict_at(self.nodes_map(), views, i as int));
                    }
                    return Err(GraphError::NodeAlreadyExists(nodes[i].0.clone()));
                }
                j += 1;
            }
            i += 1;
        }
        let mut i: usize = 0;
        while i < nodes.len()
            invariant
                self.wf(),
                views == node_batch_views(nodes@),
                i <= nodes@.len(),
                forall|i2: int| 0 <= i2 < nodes@.len() ==> (#[trigger] nodes@[i2]).1.wf(),
                forall|j: int|
                    0 <= j < nodes@.len() ==> !node_conflict_at(old(self).nodes_map(), views, j),
                self.edges_map() == old(self).edges_map(),
                self.next_edge() == old(self).next_edge(),
                self.nodes_map() == insert_all(old(self).nodes_map(), views.take(i as int)),
            decreases nodes@.len() - i,
        {
            proof {
                lemma_insert_all_dom(old(self).nodes_map(), views.take(i as int));
                assert(!node_conflict_at(old(self).nodes_map(), views, i as int));
                assert(!self.nodes_map().contains_key(views[i as int].0));
            }
            let res = self.add_node(nodes[i].0.clone(), nodes[i].1.clone());
            proof {
                assert(views.take(i as int).push(views[i as int]) =~= views.take(i as int + 1));
                lemma_insert_all_push(old(self).nodes_map(), views.take(i as int), views[i as int]);
            }
            match res {
                Ok(_) => {}
                Err(_) => {
                    proof {
                        assert(false);
                    }
                }
            }
            i += 1;
        }
        proof {
            assert(views.take(nodes@.len() as int) =~= views);
        }
        Ok(())
    }

    /// Adds a batch of edges, fail-fast with no partial commit: the first
    /// element referencing an absent endpoint (source checked before
    /// target) fails the whole call with [`GraphError::NodeNotFound`] and
    /// the graph is left unchanged.  On success the returned indices are
    /// consecutive and positionally correspond to the input list.
    pub fn add_edges(&mut self, edges: Vec<(AttributeKey, AttributeKey, Attributes)>) -> (r:
        Result<Vec<EdgeIndex>, GraphError>)
        requires
            old(self).wf(),
            forall|i: int| 0 <= i < edges@.len() ==> (#[trigger] edges@[i]).2.wf(),
            old(self).next_edge() + edges@.len() <= usize::MAX,
        ensures
            final(self).wf(),
            final(self).nodes_map() == old(self).nodes_map(),
            match r {
                Ok(out) => {
                    &&& forall|i: int|
                        0 <= i < edges@.len() ==> !edge_missing_at(
                            old(self).nodes_map(),
                            edge_batch_views(edges@),
                            i,
                        )
                    &&& out@.len() == edges@.len()
                    &&& forall|i: int|
                        0 <= i < out@.len() ==> (#[trigger] out@[i]).0 == old(self).next_edge() + i
                    &&& final(self).next_edge() == old(self).next_edge() + edges@.len()
                    &&& final(self).edges_map() == edges_appended(
                        old(self).edges_map(),
                        edge_batch_views(edges@),
                        old(self).next_edge() as int,
                    )
                },
                Err(e) => {
                    &&& final(self).edges_map() == old(self).edges_map()
                    &&& final(self).next_edge() == old(self).next_edge()
                    &&& e matches GraphError::NodeNotFound(k) && exists|i: int|
                        {
                            &&& 0 <= i < edges@.len()
                            &&& #[trigger] edge_missing_at(
                                old(self).nodes_map(),
                                edge_batch_views(edges@),
                                i,
                            )
                            &&& forall|j: int|
                                0 <= j < i ==> !edge_missing_at(
                                    old(self).nodes_map(),
                                    edge_batch_views(edges@),
                                    j,
                                )
                            &&& (if !old(self).nodes_map().contains_key(
                                edge_batch_views(edges@)[i].0,
                            ) {
                                k@ == edge_batch_views(edges@)[i].0
                            } else {
                                k@ == edge_batch_views(edges@)[i].1
                            })
                        }
                },
            },
    {
        let ghost views = edge_batch_views(edges@);
        let mut i: usize = 0;
        while i < edges.len()
            invariant
                self == old(self),
                self.wf(),
                views == edge_batch_views(edges@),
                i <= edges@.len(),
                forall|j: int| 0 <= j < i ==> !edge_missing_at(self.nodes_map(), views, j),
            decreases edges@.len() - i,
        {
            if self.find_node(&edges[i].0).is_none() {
                proof {
                    assert(views[i as int].0 == edges@[i as int].0@);
                    assert(edge_missing_at(self.nodes_map(), views, i as int));
                }
                return Err(GraphError::NodeNotFound(edges[i].0.clone()));
            }
            if self.find_node(&edges[i].1).is_none() {
                proof {
                    assert(views[i as int].1 == edges@[i as int].1@);
                    assert(edge_missing_at(self.nodes_map(), views, i as int));
                }
                return Err(GraphError::NodeNotFound(edges[i].1.clone()));
            }
            i += 1;
        }
        let ghost base = old(self).next_edge() as int;
        let mut out: Vec<EdgeIndex> = Vec::new();
        let mut i: usize = 0;
        while i < edges.len()
            invariant
                self.wf(),
                views == edge_batch_views(edges@),
                i <= edges@.len(),
                forall|i2: int| 0 <= i2 < edges@.len() ==> (#[trigger] edges@[i2]).2.wf(),
                forall|j: int|
                    0 <= j < edges@.len() ==> !edge_missing_at(old(self).nodes_map(), views, j),
                base == old(self).next_edge() as int,
                base + edges@.len() <= usize::MAX,
                self.nodes_map() == old(self).nodes_map(),
                self.next_edge() == base + i,
                out@.len() == i,
                forall|j: int| 0 <= j < i ==> (#[trigger] out@[j]).0 == base + j,
                self.edges_map() == edges_appended(
                    old(self).edges_map(),
                    views.take(i as int),
                    base,
                ),
            decreases edges@.len() - i,
        {
            let res = self.add_edge(edges[i].0.clone(), edges[i].1.clone(), edges[i].2.clone());
            match res {
                Ok(e) => {
                    proof {
                        assert(edges_appended(old(self).edges_map(), views.take(i as int), base)
                            .insert(
                            (base + i) as usize,
                            EdgeInfo {
                                source: views[i as int].0,
                                target: views[i as int].1,
                                attributes: views[i as int].2,
                            },
                        ) =~= edges_appended(old(self).edges_map(), views.take(i as int + 1), base));
                    }
                    out.push(e);
                }
                Err(_) => {
                    proof {
                        assert(!edge_missing_at(old(self).nodes_map(), views, i as int));
                        assert(false);
                    }
                }
            }
            i += 1;
        }
        proof {
            assert(views.take(edges@.len() as int) =~= views);
        }
        Ok(out)
    }

    /// Bulk construction from a node list alone; a repeated node index
    /// fails the whole call and no graph results.
    pub fn from_nodes(nodes: Vec<(AttributeKey, Attributes)>) -> (r: Result<DataGraph, GraphError>)
        requires
            forall|i: int| 0 <= i < nodes@.len() ==> (#[trigger] nodes@[i]).1.wf(),
        ensures
            match r {
                Ok(g) => {
                    &&& g.wf()
                    &&& forall|i: int|
                        0 <= i < nodes@.len() ==> !node_conflict_at(
                            Map::empty(),
                            node_batch_views(nodes@),
                            i,
                        )
                    &&& g.nodes_map() == insert_all(Map::empty(), node_batch_views(nodes@))
                    &&& g.edges_map() == Map::<usize, EdgeInfo>::empty()
                    &&& g.next_edge() == 0
                },
                Err(e) => {
                    &&& e matches GraphError::NodeAlreadyExists(k) && exists|i: int|
                        {
                            &&& 0 <= i < nodes@.len()
                            &&& #[trigger] node_conflict_at(
                                Map::empty(),
                                node_batch_views(nodes@),
                                i,
                            )
                            &&& forall|j: int|
                                0 <= j < i ==> !node_conflict_at(
                                    Map::empty(),
                                    node_batch_views(nodes@),
                                    j,
                                )
                            &&& k@ == node_batch_views(nodes@)[i].0
                        }
                },
            },
    {
        let mut g = DataGraph::new();
        match g.add_nodes(nodes) {
            Ok(_) => Ok(g),
            Err(e) => Err(e),
        }
    }

    /// Bulk construction from node and edge lists.  A repeated node index,
    /// or an edge referencing a node index absent from the supplied node
    /// list, fails the whole call: no partial graph results.  Node
    /// duplicates are reported before missing endpoints; on success the
    /// edges receive the consecutive indices starting at zero, in input
    /// order.
    pub fn from_nodes_and_edges(
        nodes: Vec<(AttributeKey, Attributes)>,
        edges: Vec<(AttributeKey, AttributeKey, Attributes)>,
    ) -> (r: Result<DataGraph, GraphError>)
        requires
            forall|i: int| 0 <= i < nodes@.len() ==> (#[trigger] nodes@[i]).1.wf(),
            forall|i: int| 0 <= i < edges@.len() ==> (#[trigger] edges@[i]).2.wf(),
        ensures
            ({
                let node_map = insert_all(Map::empty(), node_batch_views(nodes@));
                match r {
                    Ok(g) => {
                        &&& g.wf()
                        &&& forall|i: int|
                            0 <= i < nodes@.len() ==> !node_conflict_at(
                                Map::empty(),
                                node_batch_views(nodes@),
                                i,
                            )
                        &&& forall|i: int|
                            0 <= i < edges@.len() ==> !edge_missing_at(
                                node_map,
                                edge_batch_views(edges@),
                                i,
                            )
                        &&& g.nodes_map() == node_map
                        &&& g.edges_map() == edges_appended(
                            Map::empty(),
                            edge_batch_views(edges@),
                            0,
                        )
                        &&& g.next_edge() == edges@.len()
                    },
                    Err(e) => {
                        ||| (e matches GraphError::NodeAlreadyExists(k) && exists|i: int|
                            {
                                &&& 0 <= i < nodes@.len()
                                &&& #[trigger] node_conflict_at(
                                    Map::empty(),
                                    node_batch_views(nodes@),
                                    i,
                                )
                                &&& forall|j: int|
                                    0 <= j < i ==> !node_conflict_at(
                                        Map::empty(),
                                        node_batch_views(nodes@),
                                        j,
                                    )
                                &&& k@ == node_batch_views(nodes@)[i].0
                            })
                        ||| (e matches GraphError::NodeNotFound(k) && exists|i: int|
                            {
                                &&& 0 <= i < edges@.len()
                                &&& #[trigger] edge_missing_at(
                                    node_map,
                                    edge_batch_views(edges@),
                                    i,
                                )
                                &&& forall|j: int|
                                    0 <= j < i ==> !edge_missing_at(
                                        node_map,
                                        edge_batch_views(edges@),
                                        j,
                                    )
                                &&& (if !node_map.contains_key(edge_batch_views(edges@)[i].0) {
                                    k@ == edge_batch_views(edges@)[i].0
                                } else {
                                    k@ == edge_batch_views(edges@)[i].1
                                })
                            })
                    },
                }
            }),
    {
        let mut g = DataGraph::new();
        let edge_list_len = edges.len();
        match g.add_nodes(nodes) {
            Ok(_) => {}
            Err(e) => {
                return Err(e);
            }
        }
        proof {
            assert(g.next_edge() + edges@.len() <= usize::MAX) by {
                assert(edge_list_len == edges@.len());
            }
        }
        match g.add_edges(edges) {
            Ok(_) => {}
            Err(e) => {
                return Err(e);
            }
        }
        Ok(g)
    }

    /// Removes an edge and returns its former attributes.  Fails with
    /// [`GraphError::EdgeNotFound`] if the index is absent; the index is
    /// never assigned again either way.
    pub fn remove_edge(&mut self, edge_index: EdgeIndex) -> (r: Result<Attributes, GraphError>)
        requires
            old(self).wf(),
        ensures
            final(self).wf(),
            final(self).nodes_map() == old(self).nodes_map(),
            final(self).next_edge() == old(self).next_edge(),
            match r {
                Ok(a) => {
                    &&& old(self).edges_map().contains_key(edge_index.0)
                    &&& a.wf()
                    &&& a@ == old(self).edges_map()[edge_index.0].attributes
                    &&& final(self).edges_map() == old(self).edges_map().remove(edge_index.0)
                },
                Err(e) => {
                    &&& !old(self).edges_map().contains_key(edge_index.0)
                    &&& e matches GraphError::EdgeNotFound(ei) && ei == edge_index
                    &&& final(self).edges_map() == old(self).edges_map()
                },
            },
    {
        match self.find_edge(edge_index) {
            None => Err(GraphError::EdgeNotFound(edge_index)),
            Some(i) => {
                proof {
                    self.lemma_edges_distinct();
                    lemma_assoc_map_index(self.edges_seq(), i as int);
                }
                let ghost old_eseq = self.edges_seq();
                let e = self.edges.remove(i);
                proof {
                    assert(self.edges_seq() =~= old_eseq.remove(i as int));
                    lemma_assoc_map_remove(old_eseq, i as int);
                    assert(self.nodes_seq() =~= old(self).nodes_seq());
                }
                Ok(e.attributes)
            }
        }
    }

    /// Removes a node together with every incident edge and returns the
    /// node's former attributes.  Fails with [`GraphError::NodeNotFound`]
    /// if the index is absent; the failed call changes nothing.
    #[verifier::rlimit(100)]
    #[verifier::spinoff_prover]
    pub fn remove_node(&mut self, node_index: AttributeKey) -> (r: Result<Attributes, GraphError>)
        requires
            old(self).wf(),
        ensures
            final(self).wf(),
            final(self).next_edge() == old(self).next_edge(),
            match r {
                Ok(a) => {
                    &&& old(self).nodes_map().contains_key(node_index@)
                    &&& a.wf()
                    &&& a@ == old(self).nodes_map()[node_index@]
                    &&& final(self).nodes_map() == old(self).nodes_map().remove(node_index@)
                    &&& final(self).edges_map() == edges_without_node(
                        old(self).edges_map(),
                        node_index@,
                    )
                },
                Err(e) => {
                    &&& !old(self).nodes_map().contains_key(node_index@)
                    &&& e matches GraphError::NodeNotFound(k) && k@ == node_index@
                    &&& final(self).nodes_map() == old(self).nodes_map()
                    &&& final(self).edges_map() == old(self).edges_map()
                },
            },
    {
        let i = match self.find_node(&node_index) {
            None => {
                return Err(GraphError::NodeNotFound(node_index));
            }
            Some(i) => i,
        };
        proof {
            lemma_assoc_map_index(self.nodes_seq(), i as int);
            self.lemma_edges_distinct();
        }
        let ghost old_nseq = self.nodes_seq();
        let ghost old_eseq = self.edges_seq();
        let node = self.nodes.remove(i);
        proof {
            assert(self.nodes_seq() =~= old_nseq.remove(i as int));
            lemma_assoc_map_remove(old_nseq, i as int);
            assert(self.edges_seq() =~= old_eseq);
            assert forall|p: int, q: int| 0 <= p < q < self.edges@.len() implies (
            #[trigger] self.edges_seq()[p].0) < (#[trigger] self.edges_seq()[q].0) by {
                assert(self.edges_seq()[p].0 == self.edges@[p].index.0);
                assert(self.edges_seq()[q].0 == self.edges@[q].index.0);
                assert(self.edges@[p] == old(self).edges@[p]);
                assert(self.edges@[q] == old(self).edges@[q]);
            }
        }
        let ghost mid = *self;
        self.drop_incident_edges(&node_index);
        proof {
            assert(self.nodes@ == mid.nodes@);
            assert(self.nodes_seq() =~= mid.nodes_seq());
            assert(mid.edges_seq() == old_eseq);
            assert(self.edges_map() == edges_without_node(old(self).edges_map(), node_index@));
            assert forall|p: int| 0 <= p < self.nodes@.len() implies (
            #[trigger] self.nodes@[p]).attributes.wf() by {
                assert(self.nodes@ == old(self).nodes@.remove(i as int));
                if p < i {
                    assert(self.nodes@[p] == old(self).nodes@[p]);
                } else {
                    assert(self.nodes@[p] == old(self).nodes@[p + 1]);
                }
            }
            assert forall|p: int, q: int|
                0 <= p < q < self.nodes_seq().len() implies self.nodes_seq()[p].0
                != self.nodes_seq()[q].0 by {
                assert(self.nodes_seq()[p] == old_nseq.remove(i as int)[p]);
                assert(self.nodes_seq()[q] == old_nseq.remove(i as int)[q]);
                if p < i {
                    assert(old_nseq.remove(i as int)[p] == old_nseq[p]);
                } else {
                    assert(old_nseq.remove(i as int)[p] == old_nseq[p + 1]);
                }
                if q < i {
                    assert(old_nseq.remove(i as int)[q] == old_nseq[q]);
                } else {
                    assert(old_nseq.remove(i as int)[q] == old_nseq[q + 1]);
                }
            }
            assert(distinct_keys(self.nodes_seq()));
            let final_eseq = self.edges_seq();
            assert(entries_increasing(final_eseq));
            lemma_assoc_map_dom(old_eseq);
            assert forall|p: int| 0 <= p < self.edges@.len() implies (
            #[trigger] self.edges@[p]).index.0 < self.next_edge_index && self.nodes_map(
            ).contains_key(self.edges@[p].source@) && self.nodes_map().contains_key(
                self.edges@[p].target@,
            ) by {
                assert(final_eseq[p] == (
                    self.edges@[p].index.0,
                    EdgeInfo {
                        source: self.edges@[p].source@,
                        target: self.edges@[p].target@,
                        attributes: self.edges@[p].attributes@,
                    },
                ));
                let idp = final_eseq[p].0;
                lemma_assoc_map_index(final_eseq, p);
                assert(self.edges_map().contains_key(idp));
                assert(self.edges_map()[idp] == final_eseq[p].1);
                assert(old(self).edges_map().contains_key(idp));
                assert(!incident(old(self).edges_map()[idp], node_index@));
                assert(old(self).edges_map()[idp] == final_eseq[p].1);
                let q = choose|q: int| 0 <= q < old_eseq.len() && old_eseq[q].0 == idp;
                lemma_assoc_map_index(old_eseq, q);
                assert(old_eseq[q].1 == final_eseq[p].1);
                assert(old_eseq[q].0 == old(self).edges@[q].index.0);
                assert(old_eseq[q].1.source == old(self).edges@[q].source@);
                assert(old_eseq[q].1.target == old(self).edges@[q].target@);
                assert(old(self).edges@[q].index.0 < old(self).next_edge());
                assert(old(self).nodes_map().contains_key(old(self).edges@[q].source@));
                assert(old(self).nodes_map().contains_key(old(self).edges@[q].target@));
                assert(self.edges@[p].source@ == old_eseq[q].1.source);
                assert(self.edges@[p].target@ == old_eseq[q].1.target);
                assert(self.edges@[p].source@ != node_index@);
                assert(self.edges@[p].target@ != node_index@);
            }
            assert forall|p: int, q: int| 0 <= p < q < self.edges@.len() implies (
            #[trigger] self.edges@[p].index.0) < (#[trigger] self.edges@[q].index.0) by {
                assert(final_eseq[p].0 == self.edges@[p].index.0);
                assert(final_eseq[q].0 == self.edges@[q].index.0);
            }
        }
        Ok(node.attributes)
    }

    /// Drops every edge incident to the named node, in place; the node
    /// store and the next index are untouched, and the kept edges stay in
    /// order, unchanged.
    #[verifier::rlimit(100)]
    #[verifier::spinoff_prover]
    fn drop_incident_edges(&mut self, node_index: &AttributeKey)
        requires
            entries_increasing(old(self).edges_seq()),
            forall|p: int|
                0 <= p < old(self).edges@.len() ==> (
                #[trigger] old(self).edges@[p]).attributes.wf(),
        ensures
            final(self).nodes@ == old(self).nodes@,
            final(self).next_edge_index == old(self).next_edge_index,
            final(self).edges_map() == edges_without_node(old(self).edges_map(), node_index@),
            entries_increasing(final(self).edges_seq()),
            forall|p: int|
                0 <= p < final(self).edges@.len() ==> (
                #[trigger] final(self).edges@[p]).attributes.wf(),
    {
        let ghost old_eseq = self.edges_seq();
        proof {
            assert(edge_entries(self.edges@) =~= old_eseq);
        }
        let mut kept: Vec<Edge> = Vec::new();
        let ghost sel = sel_remaining(node_index@);
        let mut j: usize = 0;
        while j < self.edges.len()
            invariant
                j <= self.edges@.len(),
                edge_entries(self.edges@) == old_eseq,
                old_eseq.len() == self.edges@.len(),
                sel == sel_remaining(node_index@),
                forall|p: int|
                    0 <= p < self.edges@.len() ==> (#[trigger] self.edges@[p]).attributes.wf(),
                forall|p: int|
                    0 <= p < kept@.len() ==> (#[trigger] kept@[p]).attributes.wf(),
                edge_entries(kept@) == selected_entries(old_eseq.take(j as int), sel),
            decreases self.edges@.len() - j,
        {
            let ghost prev = kept@;
            let keep = !(self.edges[j].source.key_eq(node_index) || self.edges[j].target.key_eq(
                node_index,
            ));
            if keep {
                kept.push(self.edges[j].clone_edge());
                proof {
                    assert forall|p: int| 0 <= p < prev.len() implies edge_entries(kept@)[p]
                        == edge_entries(prev)[p] by {
                        assert(kept@[p] == prev[p]);
                    }
                    assert(edge_entries(kept@)[prev.len() as int] == old_eseq[j as int]);
                    assert(edge_entries(kept@) =~= edge_entries(prev).push(old_eseq[j as int]));
                    assert(old_eseq.take(j as int + 1).drop_last() =~= old_eseq.take(j as int));
                    assert(old_eseq.take(j as int + 1).last() == old_eseq[j as int]);
                    assert(sel(old_eseq[j as int].1));
                }
            } else {
                proof {
                    assert(old_eseq.take(j as int + 1).drop_last() =~= old_eseq.take(j as int));
                    assert(old_eseq.take(j as int + 1).last() == old_eseq[j as int]);
                    assert(!sel(old_eseq[j as int].1));
                }
            }
            j += 1;
        }
        let ghost kept_views = edge_entries(kept@);
        self.edges = kept;
        proof {
            assert(old_eseq.take(old_eseq.len() as int) =~= old_eseq);
            assert(kept_views == selected_entries(old_eseq, sel));
            assert(self.edges_seq() =~= kept_views);
            lemma_selected_entries(old_eseq, sel);
            assert(edges_without_node(assoc_map(old_eseq), node_index@) =~= Map::new(
                |id: usize| assoc_map(old_eseq).contains_key(id) && sel(assoc_map(old_eseq)[id]),
                |id: usize| assoc_map(old_eseq)[id],
            ));
        }
    }

    /// Every edge whose target is the named node, as strictly increasing
    /// edge indices enumerating exactly the matching edges.  Fails with
    /// [`GraphError::NodeNotFound`] if the node is absent.
    #[verifier::rlimit(100)]
    #[verifier::spinoff_prover]
    pub fn incoming_edge_indices(&self, node_index: AttributeKey) -> (r: Result<
        Vec<EdgeIndex>,
        GraphError,
    >)
        requires
            self.wf(),
        ensures
            match r {
                Ok(v) => {
                    &&& self.nodes_map().contains_key(node_index@)
                    &&& id_set(v@) == matching_ids(self.edges_map(), sel_incoming(node_index@))
                    &&& ids_increasing(v@)
                },
                Err(e) => {
                    &&& !self.nodes_map().contains_key(node_index@)
                    &&& e matches GraphError::NodeNotFound(k) && k@ == node_index@
                },
            },
    {
        if self.find_node(&node_index).is_none() {
            return Err(GraphError::NodeNotFound(node_index));
        }
        let ghost eseq = self.edges_seq();
        let ghost sel = sel_incoming(node_index@);
        proof {
            assert forall|p: int, q: int| 0 <= p < q < eseq.len() implies (#[trigger] eseq[p].0)
                < (#[trigger] eseq[q].0) by {
                assert(eseq[p].0 == self.edges@[p].index.0);
                assert(eseq[q].0 == self.edges@[q].index.0);
            }
        }
        let mut v: Vec<EdgeIndex> = Vec::new();
        let mut j: usize = 0;
        while j < self.edges.len()
            invariant
                j <= eseq.len(),
                eseq == self.edges_seq(),
                eseq.len() == self.edges@.len(),
                sel == sel_incoming(node_index@),
                v@ == selected_ids(eseq.take(j as int), sel),
            decreases self.edges@.len() - j,
        {
            if self.edges[j].target.key_eq(&node_index) {
                v.push(self.edges[j].index);
                proof {
                    assert(self.edges@[j as int].index == EdgeIndex(eseq[j as int].0));
                    assert(eseq.take(j as int + 1).drop_last() =~= eseq.take(j as int));
                    assert(eseq.take(j as int + 1).last() == eseq[j as int]);
                    assert(sel(eseq[j as int].1));
                }
            } else {
                proof {
                    assert(eseq.take(j as int + 1).drop_last() =~= eseq.take(j as int));
                    assert(eseq.take(j as int + 1).last() == eseq[j as int]);
                    assert(!sel(eseq[j as int].1));
                }
            }
            j += 1;
        }
        proof {
            assert(eseq.take(eseq.len() as int) =~= eseq);
            lemma_selected_ids(eseq, sel);
        }
        Ok(v)
    }

    /// Every edge whose source is the named node, as strictly increasing
    /// edge indices enumerating exactly the matching edges.  Fails with
    /// [`GraphError::NodeNotFound`] if the node is absent.
    #[verifier::rlimit(100)]
    #[verifier::spinoff_prover]
    pub fn outgoing_edge_indices(&self, node_index: AttributeKey) -> (r: Result<
        Vec<EdgeIndex>,
        GraphError,
    >)
        requires
            self.wf(),
        ensures
            match r {
                Ok(v) => {
                    &&& self.nodes_map().contains_key(node_index@)
                    &&& id_set(v@) == matching_ids(self.edges_map(), sel_outgoing(node_index@))
                    &&& ids_increasing(v@)
                },
                Err(e) => {
                    &&& !self.nodes_map().contains_key(node_index@)
                    &&& e matches GraphError::NodeNotFound(k) && k@ == node_index@
                },
            },
    {
        if self.find_node(&node_index).is_none() {
            return Err(GraphError::NodeNotFound(node_index));
        }
        let ghost eseq = self.edges_seq();
        let ghost sel = sel_outgoing(node_index@);
        proof {
            assert forall|p: int, q: int| 0 <= p < q < eseq.len() implies (#[trigger] eseq[p].0)
                < (#[trigger] eseq[q].0) by {
                assert(eseq[p].0 == self.edges@[p].index.0);
                assert(eseq[q].0 == self.edges@[q].index.0);
            }
        }
        let mut v: Vec<EdgeIndex> = Vec::new();
        let mut j: usize = 0;
        while j < self.edges.len()
            invariant
                j <= eseq.len(),
                eseq == self.edges_seq(),
                eseq.len() == self.edges@.len(),
                sel == sel_outgoing(node_index@),
                v@ == selected_ids(eseq.take(j as int), sel),
            decreases self.edges@.len() - j,
        {
            if self.edges[j].source.key_eq(&node_index) {
                v.push(self.edges[j].index);
                proof {
                    assert(self.edges@[j as int].index == EdgeIndex(eseq[j as int].0));
                    assert(eseq.take(j as int + 1).drop_last() =~= eseq.take(j as int));
                    assert(eseq.take(j as int + 1).last() == eseq[j as int]);
                    assert(sel(eseq[j as int].1));
                }
            } else {
                proof {
                    assert(eseq.take(j as int + 1).drop_last() =~= eseq.take(j as int));
                    assert(eseq.take(j as int + 1).last() == eseq[j as int]);
                    assert(!sel(eseq[j as int].1));
                }
            }
            j += 1;
        }
        proof {
            assert(eseq.take(eseq.len() as int) =~= eseq);
            lemma_selected_ids(eseq, sel);
        }
        Ok(v)
    }

    /// Every edge whose ordered (source, target) pair matches exactly, as
    /// strictly increasing edge indices enumerating exactly the matching
    /// edges; direction-sensitive, so reverse edges are not included.
    /// Fails with [`GraphError::NodeNotFound`] if either node is absent,
    /// naming the source first.
    #[verifier::rlimit(100)]
    #[verifier::spinoff_prover]
    pub fn edges_connecting(
        &self,
        source_node_index: AttributeKey,
        target_node_index: AttributeKey,
    ) -> (r: Result<Vec<EdgeIndex>, GraphError>)
        requires
            self.wf(),
        ensures
            match r {
                Ok(v) => {
                    &&& self.nodes_map().contains_key(source_node_index@)
                    &&& self.nodes_map().contains_key(target_node_index@)
                    &&& id_set(v@) == matching_ids(
                        self.edges_map(),
                        sel_connecting(source_node_index@, target_node_index@),
                    )
                    &&& ids_increasing(v@)
                },
                Err(e) => {
                    &&& e matches GraphError::NodeNotFound(k)
                    &&& (if !self.nodes_map().contains_key(source_node_index@) {
                        k@ == source_node_index@
                    } else {
                        !self.nodes_map().contains_key(target_node_index@) && k@
                            == target_node_index@
                    })
                },
            },
    {
        if self.find_node(&source_node_index).is_none() {
            return Err(GraphError::NodeNotFound(source_node_index));
        }
        if self.find_node(&target_node_index).is_none() {
            return Err(GraphError::NodeNotFound(target_node_index));
        }
        let ghost eseq = self.edges_seq();
        let ghost sel = sel_connecting(source_node_index@, target_node_index@);
        proof {
            assert forall|p: int, q: int| 0 <= p < q < eseq.len() implies (#[trigger] eseq[p].0)
                < (#[trigger] eseq[q].0) by {
                assert(eseq[p].0 == self.edges@[p].index.0);
                assert(eseq[q].0 == self.edges@[q].index.0);
            }
        }
        let mut v: Vec<EdgeIndex> = Vec::new();
        let mut j: usize = 0;
        while j < self.edges.len()
            invariant
                j <= eseq.len(),
                eseq == self.edges_seq(),
                eseq.len() == self.edges@.len(),
                sel == sel_connecting(source_node_index@, target_node_index@),
                v@ == selected_ids(eseq.take(j as int), sel),
            decreases self.edges@.len() - j,
        {
            if self.edges[j].source.key_eq(&source_node_index) && self.edges[j].target.key_eq(
                &target_node_index,
            ) {
                v.push(self.edges[j].index);
                proof {
                    assert(self.edges@[j as int].index == EdgeIndex(eseq[j as int].0));
                    assert(eseq.take(j as int + 1).drop_last() =~= eseq.take(j as int));
                    assert(eseq.take(j as int + 1).last() == eseq[j as int]);
                    assert(sel(eseq[j as int].1));
                }
            } else {
                proof {
                    assert(eseq.take(j as int + 1).drop_last() =~= eseq.take(j as int));
                    assert(eseq.take(j as int + 1).last() == eseq[j as int]);
                    assert(!sel(eseq[j as int].1));
                }
            }
            j += 1;
        }
        proof {
            assert(eseq.take(eseq.len() as int) =~= eseq);
            lemma_selected_ids(eseq, sel);
        }
        Ok(v)
    }

}

/// Freshness of edge indices: in a well-formed graph every edge index is
/// strictly below the next to be assigned, so an index the graph hands out
/// later is strictly greater than every index it holds, and an index
/// removed earlier is never assigned again.
pub proof fn lemma_edge_indices_below_next(g: DataGraph)
    requires
        g.wf(),
    ensures
        forall|id: usize| #[trigger] g.edges_map().contains_key(id) ==> id < g.next_edge(),
{
    g.lemma_edges_distinct();
    lemma_assoc_map_dom(g.edges_seq());
    assert forall|id: usize| #[trigger] g.edges_map().contains_key(id) implies id
        < g.next_edge() by {
        let q = choose|q: int| 0 <= q < g.edges_seq().len() && g.edges_seq()[q].0 == id;
        lemma_assoc_map_index(g.edges_seq(), q);
    }
}

/// An edge index at or above the next to be assigned is absent from the
/// graph.  The index an addition hands out equals the next, so it was never
/// held before; and since no operation ever decreases the next index, an
/// index is assigned at most once over a graph's lifetime and never
/// reassigned after removal.
pub proof fn lemma_fresh_edge_index_unassigned(g: DataGraph, id: usize)
    requires
        g.wf(),
        id >= g.next_edge(),
    ensures
        !g.edges_map().contains_key(id),
{
    lemma_edge_indices_below_next(g);
}

/// Cascading removal, counted: removing a node with exactly two incident
/// edges removes exactly those two edge indices and no other, so the edge
/// count drops by exactly two.
pub proof fn lemma_remove_node_incident_count(
    m: Map<usize, EdgeInfo>,
    k: AttributeKeyView,
    i1: usize,
    i2: usize,
)
    requires
        m.dom().finite(),
        i1 != i2,
        m.contains_key(i1),
        m.contains_key(i2),
        incident(m[i1], k),
        incident(m[i2], k),
        forall|id: usize|
            #[trigger] m.contains_key(id) && id != i1 && id != i2 ==> !incident(m[id], k),
    ensures
        !edges_without_node(m, k).contains_key(i1),
        !edges_without_node(m, k).contains_key(i2),
        edges_without_node(m, k).dom().len() == m.dom().len() - 2,
{
    assert(edges_without_node(m, k).dom() =~= m.dom().remove(i1).remove(i2));
    assert(m.dom().remove(i1).len() == m.dom().len() - 1);
    assert(m.dom().remove(i1).remove(i2).len() == m.dom().len() - 2);
}

} // verus!
