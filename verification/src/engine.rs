//! The placement-and-resolution engine: an ordered collection of edge nodes,
//! a least-loaded placement policy under capacity constraints, and a
//! resolution scan that finds which node holds a given content identity.

use vstd::prelude::*;

verus! {

/// An immutable description of a cacheable item: its identity and its size.
#[derive(Clone, Debug)]
pub struct Content {
    pub id: String,
    pub size: usize,
}

/// A storage unit with finite capacity that caches content. `capacity` is
/// the remaining free space; `stored_content` only grows.
#[derive(Debug)]
pub struct EdgeNode {
    pub id: String,
    pub capacity: usize,
    pub stored_content: Vec<Content>,
}

/// An ephemeral resolution request: which content is wanted, and by whom.
#[derive(Debug)]
pub struct Request {
    pub content_id: String,
    pub origin: String,
}

/// The outcome of one placement call: the identity of the node that received
/// the content, or the explicit signal that no node could fit it.
#[derive(Debug, PartialEq, Eq)]
pub enum PlacementOutcome {
    Placed(String),
    NotPlaced,
}

/// The engine. It owns the node collection exclusively: nodes are appended
/// through `add_edge_node` and mutated only by placement.
pub struct CDN {
    edge_nodes: Vec<EdgeNode>,
}

/// A node can take the content iff its remaining capacity covers the size.
pub open spec fn eligible(node: EdgeNode, size: usize) -> bool {
    node.capacity >= size
}

/// How loaded a node is: the number of stored items, not their bytes.
pub open spec fn load(node: EdgeNode) -> nat {
    node.stored_content@.len()
}

/// The index of the node the placement policy picks for content of the given
/// size: the first eligible node with the fewest stored items, or `None` when
/// no node is eligible. A later node displaces an earlier candidate only with
/// a strictly smaller load, so ties go to the earlier node.
pub open spec fn chosen_node(nodes: Seq<EdgeNode>, size: usize) -> Option<int>
    decreases nodes.len(),
{
    if nodes.len() == 0 {
        None
    } else {
        let rest = chosen_node(nodes.drop_last(), size);
        if eligible(nodes.last(), size) && (rest is None || load(nodes.last()) < load(
            nodes[rest.unwrap()],
        )) {
            Some(nodes.len() - 1)
        } else {
            rest
        }
    }
}

/// Whether a node stores a content item with the given identity.
pub open spec fn node_has(node: EdgeNode, id: Seq<char>) -> bool {
    exists|k: int| 0 <= k < node.stored_content@.len() && node.stored_content@[k].id@ == id
}

/// The index of the node a resolution scan finds for the given content
/// identity: the first node, in the collection's order, that stores an item
/// with that identity; `None` when no node does.
pub open spec fn first_holder(nodes: Seq<EdgeNode>, id: Seq<char>) -> Option<int>
    decreases nodes.len(),
{
    if nodes.len() == 0 {
        None
    } else {
        let rest = first_holder(nodes.drop_last(), id);
        if rest is Some {
            rest
        } else if node_has(nodes.last(), id) {
            Some(nodes.len() - 1)
        } else {
            None
        }
    }
}

/// Resolution finds a node that stores the identity, and no node before it
/// does; it comes up empty exactly when no node stores the identity.
pub proof fn lemma_first_holder_properties(nodes: Seq<EdgeNode>, id: Seq<char>)
    ensures
        first_holder(nodes, id) is None <==> (forall|j: int|
            0 <= j < nodes.len() ==> !node_has(nodes[j], id)),
        first_holder(nodes, id) matches Some(i) ==> {
            &&& 0 <= i < nodes.len()
            &&& node_has(nodes[i], id)
            &&& forall|j: int| 0 <= j < i ==> !node_has(nodes[j], id)
        },
    decreases nodes.len(),
{
    if nodes.len() > 0 {
        lemma_first_holder_properties(nodes.drop_last(), id);
        assert(forall|j: int| 0 <= j < nodes.len() - 1 ==> nodes.drop_last()[j] == nodes[j]);
    }
}

/// A scan that has already found a holder is not changed by the nodes that
/// come after it.
proof fn lemma_first_holder_extend(nodes: Seq<EdgeNode>, id: Seq<char>, k: int)
    requires
        0 <= k <= nodes.len(),
        first_holder(nodes.take(k), id) is Some,
    ensures
        first_holder(nodes, id) == first_holder(nodes.take(k), id),
    decreases nodes.len() - k,
{
    if k < nodes.len() {
        assert(nodes.take(k + 1).drop_last() =~= nodes.take(k));
        lemma_first_holder_extend(nodes, id, k + 1);
    } else {
        assert(nodes.take(k) =~= nodes);
    }
}

/// The resolution scan is pinned down by its two defining facts: a node that
/// stores the identity, with no earlier node storing it, is exactly the node
/// that resolution finds.
pub proof fn lemma_first_holder_is_first(nodes: Seq<EdgeNode>, id: Seq<char>, i: int)
    requires
        0 <= i < nodes.len(),
        node_has(nodes[i], id),
        forall|j: int| 0 <= j < i ==> !node_has(nodes[j], id),
    ensures
        first_holder(nodes, id) == Some(i),
{
    lemma_first_holder_properties(nodes.take(i), id);
    assert(forall|j: int| 0 <= j < i ==> nodes.take(i)[j] == nodes[j]);
    assert(first_holder(nodes.take(i), id) is None);
    assert(nodes.take(i + 1).drop_last() =~= nodes.take(i));
    assert(nodes.take(i + 1).last() == nodes[i]);
    assert(first_holder(nodes.take(i + 1), id) == Some(i));
    lemma_first_holder_extend(nodes, id, i + 1);
}

/// Whether the node stores an item whose identity equals `id`.
fn node_holds(node: &EdgeNode, id: &String) -> (r: bool)
    ensures
        r == node_has(*node, id@),
{
    let n = node.stored_content.len();
    let mut k: usize = 0;
    while k < n
        invariant
            n == node.stored_content@.len(),
            k <= n,
            forall|m: int| 0 <= m < k ==> node.stored_content@[m].id@ != id@,
        decreases n - k,
    {
        let c = &node.stored_content[k];
        if c.id == *id {
            return true;
        }
        k = k + 1;
    }
    false
}

/// Placing content on the node the policy chose makes it resolvable: when no
/// node stored the content's identity before the placement, the resolution
/// scan over the committed state finds exactly the chosen node. (When some
/// node already stored the identity, the scan finds the first such node
/// instead, which is why that case is left out here.)
pub proof fn lemma_resolve_after_placement(
    before: Seq<EdgeNode>,
    after: Seq<EdgeNode>,
    content: Content,
    i: int,
)
    requires
        chosen_node(before, content.size) == Some(i),
        after.len() == before.len(),
        after[i].id == before[i].id,
        after[i].stored_content@ == before[i].stored_content@.push(content),
        forall|j: int| 0 <= j < before.len() && j != i ==> after[j] == before[j],
        forall|j: int| 0 <= j < before.len() ==> !node_has(before[j], content.id@),
    ensures
        0 <= i < after.len(),
        first_holder(after, content.id@) == Some(i),
        after[i].id == before[i].id,
{
    lemma_chosen_node_properties(before, content.size);
    let w = before[i].stored_content@.len() as int;
    assert(after[i].stored_content@[w].id@ == content.id@);
    assert(node_has(after[i], content.id@));
    lemma_first_holder_is_first(after, content.id@, i);
}

/// The total number of bytes a sequence of content items occupies.
pub open spec fn sum_sizes(contents: Seq<Content>) -> int
    decreases contents.len(),
{
    if contents.len() == 0 {
        0
    } else {
        sum_sizes(contents.drop_last()) + contents.last().size
    }
}

/// A node's storage budget: its remaining capacity plus the bytes already
/// stored. Placement moves bytes from capacity to storage, so the budget is
/// constant over the node's life; with an unsigned capacity this is exactly
/// "capacity equals the initial capacity minus the bytes placed, and never
/// goes negative".
pub open spec fn node_budget(node: EdgeNode) -> int {
    node.capacity + sum_sizes(node.stored_content@)
}

/// The policy picks only eligible nodes, always one with the least load, and
/// on a tie on load always the earliest such node in the collection's order;
/// it comes up empty exactly when no node is eligible. Together these pin the
/// choice to a single node, so repeated runs over the same collection pick
/// the same node.
pub proof fn lemma_chosen_node_properties(nodes: Seq<EdgeNode>, size: usize)
    ensures
        chosen_node(nodes, size) is None <==> (forall|j: int|
            0 <= j < nodes.len() ==> !eligible(nodes[j], size)),
        chosen_node(nodes, size) matches Some(i) ==> {
            &&& 0 <= i < nodes.len()
            &&& eligible(nodes[i], size)
            &&& forall|j: int|
                0 <= j < nodes.len() && eligible(nodes[j], size) ==> load(nodes[i]) <= load(
                    nodes[j],
                )
            &&& forall|j: int| 0 <= j < i && eligible(nodes[j], size) ==> load(nodes[i]) < load(
                nodes[j],
            )
        },
    decreases nodes.len(),
{
    if nodes.len() > 0 {
        lemma_chosen_node_properties(nodes.drop_last(), size);
        assert(forall|j: int| 0 <= j < nodes.len() - 1 ==> nodes.drop_last()[j] == nodes[j]);
    }
}

impl View for CDN {
    type V = Seq<EdgeNode>;

    closed spec fn view(&self) -> Seq<EdgeNode> {
        self.edge_nodes@
    }
}

impl CDN {
    pub fn new() -> (r: CDN)
        ensures
            r@ == Seq::<EdgeNode>::empty(),
    {
        CDN { edge_nodes: Vec::new() }
    }

    pub fn add_edge_node(&mut self, node: EdgeNode)
        ensures
            final(self)@ == old(self)@.push(node),
    {
        self.edge_nodes.push(node);
    }

    pub fn node_count(&self) -> (r: usize)
        ensures
            r == self@.len(),
    {
        self.edge_nodes.len()
    }

    fn best_index(&self, size: usize) -> (r: Option<usize>)
        ensures
            match r {
                Some(i) => i < self@.len() && chosen_node(self@, size) == Some(i as int),
                None => chosen_node(self@, size) is None,
            },
    {
        let n = self.edge_nodes.len();
        let mut best: Option<usize> = None;
        let mut i: usize = 0;
        while i < n
            invariant
                n == self@.len(),
                i <= n,
                match best {
                    Some(b) => b < i && chosen_node(self@.take(i as int), size) == Some(b as int),
                    None => chosen_node(self@.take(i as int), size) is None,
                },
            decreases n - i,
        {
            let candidate = &self.edge_nodes[i];
            let better = if candidate.capacity >= size {
                match best {
                    Some(b) => self.edge_nodes[b].stored_content.len()
                        > candidate.stored_content.len(),
                    None => true,
                }
            } else {
                false
            };
            proof {
                assert(self@.take(i as int + 1).drop_last() =~= self@.take(i as int));
                assert(self@.take(i as int + 1).last() == self@[i as int]);
                if let Some(b) = best {
                    assert(self@.take(i as int + 1)[b as int] == self@[b as int]);
                }
            }
            if better {
                best = Some(i);
            }
            i = i + 1;
        }
        proof {
            assert(self@.take(n as int) =~= self@);
        }
        best
    }

    /// The placement policy as a pure query: among the nodes whose remaining
    /// capacity covers `content.size`, the first one with the fewest stored
    /// items; `None` when no node fits the content.
    pub fn choose_best_node(&self, content: &Content) -> (r: Option<&EdgeNode>)
        ensures
            match r {
                Some(node) => {
                    &&& chosen_node(self@, content.size) matches Some(i) && *node == self@[i]
                    &&& eligible(*node, content.size)
                },
                None => {
                    &&& chosen_node(self@, content.size) is None
                    &&& forall|j: int|
                        0 <= j < self@.len() ==> !eligible(self@[j], content.size)
                },
            },
    {
        proof {
            lemma_chosen_node_properties(self@, content.size);
        }
        match self.best_index(content.size) {
            Some(i) => Some(&self.edge_nodes[i]),
            None => None,
        }
    }

    /// Run the placement policy and commit the result: the content is
    /// appended to the chosen node, whose capacity drops by the content's
    /// size; when no node is eligible, nothing changes and the outcome says
    /// so. Every node's storage budget is preserved, so no placement ever
    /// overcommits a node.
    pub fn optimized_distribute_content(&mut self, content: Content) -> (r: PlacementOutcome)
        ensures
            match chosen_node(old(self)@, content.size) {
                Some(i) => {
                    &&& (r matches PlacementOutcome::Placed(id) && id == old(self)@[i].id)
                    &&& final(self)@.len() == old(self)@.len()
                    &&& final(self)@[i].id == old(self)@[i].id
                    &&& final(self)@[i].capacity == old(self)@[i].capacity - content.size
                    &&& final(self)@[i].stored_content@ == old(self)@[i].stored_content@.push(
                        content,
                    )
                    &&& forall|j: int|
                        0 <= j < old(self)@.len() && j != i ==> final(self)@[j] == old(self)@[j]
                },
                None => r == PlacementOutcome::NotPlaced && final(self)@ == old(self)@,
            },
            (r == PlacementOutcome::NotPlaced) <==> (forall|j: int|
                0 <= j < old(self)@.len() ==> !eligible(old(self)@[j], content.size)),
            forall|j: int|
                0 <= j < old(self)@.len() ==> node_budget(final(self)@[j]) == node_budget(
                    old(self)@[j],
                ),
    {
        proof {
            lemma_chosen_node_properties(self@, content.size);
        }
        let size = content.size;
        match self.best_index(size) {
            Some(i) => {
                let id = self.edge_nodes[i].id.clone();
                let node = &mut self.edge_nodes[i];
                node.stored_content.push(content);
                node.capacity = node.capacity - size;
                proof {
                    assert(self@[i as int].stored_content@.drop_last()
                        =~= old(self)@[i as int].stored_content@);
                }
                PlacementOutcome::Placed(id)
            },
            None => PlacementOutcome::NotPlaced,
        }
    }

    /// Resolve a request: scan the nodes in the collection's order and
    /// return the identity of the first node that stores the requested
    /// content identity, or `None` when no node does.
    pub fn handle_request(&self, request: Request) -> (r: Option<String>)
        ensures
            match r {
                Some(name) => {
                    &&& first_holder(self@, request.content_id@) matches Some(i) && name
                        == self@[i].id
                },
                None => {
                    &&& first_holder(self@, request.content_id@) is None
                    &&& forall|j: int|
                        0 <= j < self@.len() ==> !node_has(self@[j], request.content_id@)
                },
            },
    {
        let n = self.edge_nodes.len();
        let mut i: usize = 0;
        while i < n
            invariant
                n == self@.len(),
                i <= n,
                first_holder(self@.take(i as int), request.content_id@) is None,
            decreases n - i,
        {
            proof {
                assert(self@.take(i as int + 1).drop_last() =~= self@.take(i as int));
                assert(self@.take(i as int + 1).last() == self@[i as int]);
            }
            if node_holds(&self.edge_nodes[i], &request.content_id) {
                proof {
                    lemma_first_holder_extend(self@, request.content_id@, i as int + 1);
                }
                return Some(self.edge_nodes[i].id.clone());
            }
            i = i + 1;
        }
        proof {
            assert(self@.take(n as int) =~= self@);
            lemma_first_holder_properties(self@, request.content_id@);
        }
        None
    }

    pub fn node(&self, i: usize) -> (r: &EdgeNode)
        requires
            i < self@.len(),
        ensures
            *r == self@[i as int],
    {
        &self.edge_nodes[i]
    }
}

} // verus!
