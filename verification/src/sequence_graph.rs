//! Directed action graph for one session.
//!
//! Nodes are tool calls; an edge means the output of one call reached the
//! input of another. The graph is what lets a later check ask whether a
//! *sequence* of calls is normal, not only each call on its own.

use vstd::prelude::*;

use crate::strings::{decimal, lemma_decimal_injective, owned, str_eq, usize_to_decimal};
use crate::taint::{merge_spec, sat_add, wf_labels, LabelView, TaintSet};

verus! {

/// Identifier of a node within one session's graph.
pub type NodeId = String;

/// Nodes one session's graph will hold; the count is attacker-drivable.
pub const MAX_NODES: usize = 4096;

/// Rejections that leave the graph untouched.
#[derive(Debug, Clone, PartialEq, Eq)]
pub enum GraphError {
    /// An edge was requested from a node this graph does not hold.
    UnknownInput(NodeId),
    /// The graph is at [`MAX_NODES`].
    Full,
}

#[verifier::external_type_specification]
#[verifier::external_body]
pub struct ExJsonValue(serde_json::Value);

/// `Value::clone` (derived): a deep copy, equal to the original.
pub assume_specification[ <serde_json::Value as Clone>::clone ](v: &serde_json::Value) -> (r: serde_json::Value)
    ensures
        r == *v,
;

/// SHA-256 of a byte string.
pub uninterp spec fn sha256_spec(data: Seq<u8>) -> Seq<u8>;

/// The bytes `serde_json::to_vec` gives for a value, or none when encoding
/// fails.
pub uninterp spec fn json_bytes(value: serde_json::Value) -> Seq<u8>;

/// Canonical JSON encoding of a value (`serde_json::to_vec`), or nothing when
/// encoding fails.
#[verifier::external_body]
fn json_encode(value: &serde_json::Value) -> (r: Vec<u8>)
    ensures
        r@ == json_bytes(*value),
{
    serde_json::to_vec(value).unwrap_or_default()
}

/// `sha2::Sha256::digest`: the SHA-256 digest of `data`, 32 bytes long.
#[verifier::external_body]
pub(crate) fn sha256_digest(data: &[u8]) -> (r: Vec<u8>)
    ensures
        r@ == sha256_spec(data@),
        r@.len() == 32,
{
    <sha2::Sha256 as sha2::Digest>::digest(data).to_vec()
}

/// The lower-case hexadecimal digit of a nibble.
pub open spec fn hex_digit(n: u8) -> char {
    if n < 10 {
        (('0' as u8) + n) as char
    } else {
        (('a' as u8) + (n - 10)) as char
    }
}

/// Lower-case hexadecimal encoding, two digits per byte.
pub open spec fn hex_lower(data: Seq<u8>) -> Seq<char>
    decreases data.len(),
{
    if data.len() == 0 {
        Seq::empty()
    } else {
        hex_lower(data.drop_last()) + seq![hex_digit(data.last() / 16), hex_digit(data.last() % 16)]
    }
}

/// `hex::encode`: lower-case hexadecimal text of `data`.
#[verifier::external_body]
pub(crate) fn hex_encode(data: &[u8]) -> (r: String)
    ensures
        r@ == hex_lower(data@),
{
    hex::encode(data)
}

/// SHA-256 over the JSON encoding of a call's parameters, as hex.
/// `serde_json::Value` orders object keys, so structurally equal parameter
/// sets digest alike.
pub fn params_digest(params: &serde_json::Value) -> (r: String)
    ensures
        r@ == hex_lower(sha256_spec(json_bytes(*params))),
{
    let canonical = json_encode(params);
    let digest = sha256_digest(canonical.as_slice());
    hex_encode(digest.as_slice())
}

/// One tool call.
#[derive(Debug, Clone, PartialEq, Eq)]
pub struct SequenceNode {
    pub id: NodeId,
    pub tool_name: String,
    /// Digest of the call parameters.
    pub params_hash: String,
    /// Taint the call handled, after inputs were merged in.
    pub taint: TaintSet,
    /// Nodes whose output flowed into this one.
    pub inputs: Vec<NodeId>,
}

/// The id of the node at a position: `n<position>`.
pub open spec fn node_id_spec(position: int) -> Seq<char> {
    "n"@ + decimal(position as nat)
}

pub open spec fn id_views(ids: Seq<String>) -> Seq<Seq<char>> {
    ids.map_values(|s: String| s@)
}

/// Node ids follow positions, every input names an earlier node, and every
/// node's taint is well formed.
pub open spec fn wf_nodes(nodes: Seq<SequenceNode>) -> bool {
    &&& nodes.len() <= MAX_NODES
    &&& forall|i: int| 0 <= i < nodes.len() ==> (#[trigger] nodes[i]).id@ == node_id_spec(i)
    &&& forall|i: int| 0 <= i < nodes.len() ==> (#[trigger] nodes[i]).taint.wf()
    &&& forall|i: int, j: int|
        0 <= i < nodes.len() && 0 <= j < nodes[i].inputs@.len() ==> refers_to_earlier(
            (#[trigger] nodes[i].inputs@[j])@,
            i,
        )
}

/// `id` names a node before position `i`.
pub open spec fn refers_to_earlier(id: Seq<char>, i: int) -> bool {
    exists|k: int| 0 <= k < i && id == #[trigger] node_id_spec(k)
}

/// Whether some node has id `id`.
pub open spec fn holds_node(nodes: Seq<SequenceNode>, id: Seq<char>) -> bool {
    exists|i: int| 0 <= i < nodes.len() && (#[trigger] nodes[i]).id@ == id
}

/// Position of a node with id `id`.
pub open spec fn node_index_of(nodes: Seq<SequenceNode>, id: Seq<char>) -> int {
    choose|i: int| 0 <= i < nodes.len() && (#[trigger] nodes[i]).id@ == id
}

/// The node with id `id`.
pub open spec fn node_with_id(nodes: Seq<SequenceNode>, id: Seq<char>) -> SequenceNode {
    nodes[node_index_of(nodes, id)]
}

/// Taint flowing from a list of node ids: the union of their taints, in order.
pub open spec fn flowing_spec(nodes: Seq<SequenceNode>, ids: Seq<Seq<char>>) -> Seq<LabelView>
    decreases ids.len(),
{
    if ids.len() == 0 {
        Seq::empty()
    } else {
        merge_spec(flowing_spec(nodes, ids.drop_last()), node_with_id(nodes, ids.last()).taint@)
    }
}

/// Every edge `(from, to)`, node by node.
pub open spec fn edges_spec(nodes: Seq<SequenceNode>) -> Seq<(Seq<char>, Seq<char>)>
    decreases nodes.len(),
{
    if nodes.len() == 0 {
        Seq::empty()
    } else {
        edges_spec(nodes.drop_last()) + id_views(nodes.last().inputs@).map_values(
            |input: Seq<char>| (input, nodes.last().id@),
        )
    }
}

/// Ids of a well-formed graph are distinct, so an id names exactly one node.
pub proof fn lemma_node_ids_unique(nodes: Seq<SequenceNode>, i: int, j: int)
    requires
        wf_nodes(nodes),
        0 <= i < nodes.len(),
        0 <= j < nodes.len(),
        nodes[i].id@ == nodes[j].id@,
    ensures
        i == j,
{
    reveal_strlit("n");
    let a = node_id_spec(i);
    let b = node_id_spec(j);
    assert(decimal(i as nat) =~= a.drop_first());
    assert(decimal(j as nat) =~= b.drop_first());
    lemma_decimal_injective(i as nat, j as nat);
}

/// In a well-formed graph, the node with the id of position `i` is node `i`.
pub proof fn lemma_node_with_id(nodes: Seq<SequenceNode>, i: int)
    requires
        wf_nodes(nodes),
        0 <= i < nodes.len(),
    ensures
        holds_node(nodes, node_id_spec(i)),
        node_with_id(nodes, node_id_spec(i)) == nodes[i],
{
    assert(nodes[i].id@ == node_id_spec(i));
    let k = node_index_of(nodes, node_id_spec(i));
    assert(0 <= k < nodes.len() && nodes[k].id@ == node_id_spec(i));
    lemma_node_ids_unique(nodes, i, k);
}

/// In a well-formed graph every edge runs from an earlier node to a later one,
/// so the graph has no cycle.
pub proof fn lemma_edges_run_forward(nodes: Seq<SequenceNode>, e: int)
    requires
        wf_nodes(nodes),
        0 <= e < edges_spec(nodes).len(),
    ensures
        exists|a: int, b: int|
            0 <= a < b < nodes.len() && edges_spec(nodes)[e].0 == #[trigger] node_id_spec(a)
                && edges_spec(nodes)[e].1 == #[trigger] node_id_spec(b),
    decreases nodes.len(),
{
    let n = nodes.len() - 1;
    let p = nodes.drop_last();
    assert(wf_nodes(p)) by {
        assert forall|i: int| 0 <= i < p.len() implies (#[trigger] p[i]).id@ == node_id_spec(i) && p[i].taint.wf() by {
            assert(p[i] == nodes[i]);
        }
        assert forall|i: int, j: int| 0 <= i < p.len() && 0 <= j < p[i].inputs@.len() implies refers_to_earlier(
            (#[trigger] p[i].inputs@[j])@,
            i,
        ) by {
            assert(p[i] == nodes[i]);
        }
    }
    let before = edges_spec(p);
    let last = nodes.last();
    let part = id_views(last.inputs@).map_values(|input: Seq<char>| (input, last.id@));
    assert(edges_spec(nodes) == before + part);
    if e < before.len() {
        lemma_edges_run_forward(p, e);
        assert(edges_spec(nodes)[e] == before[e]);
        let (a, b) = choose|a: int, b: int|
            0 <= a < b < p.len() && before[e].0 == #[trigger] node_id_spec(a) && before[e].1
                == #[trigger] node_id_spec(b);
        assert(edges_spec(nodes)[e].0 == node_id_spec(a) && edges_spec(nodes)[e].1 == node_id_spec(b));
    } else {
        let x = e - before.len();
        assert(edges_spec(nodes)[e] == part[x]);
        assert(last == nodes[n]);
        assert(part[x] == (last.inputs@[x]@, last.id@));
        assert(refers_to_earlier(nodes[n].inputs@[x]@, n));
        let k = choose|k: int| 0 <= k < n && nodes[n].inputs@[x]@ == #[trigger] node_id_spec(k);
        assert(edges_spec(nodes)[e].0 == node_id_spec(k) && edges_spec(nodes)[e].1 == node_id_spec(n));
    }
}

/// Both ends of every edge of a well-formed graph are nodes of it, the
/// source listed before the target, so following edges never returns to a
/// node: the graph has no cycle.
pub proof fn lemma_edge_ends_are_ordered_nodes(nodes: Seq<SequenceNode>, e: int)
    requires
        wf_nodes(nodes),
        0 <= e < edges_spec(nodes).len(),
    ensures
        holds_node(nodes, edges_spec(nodes)[e].0),
        holds_node(nodes, edges_spec(nodes)[e].1),
        node_index_of(nodes, edges_spec(nodes)[e].0) < node_index_of(nodes, edges_spec(nodes)[e].1),
{
    lemma_edges_run_forward(nodes, e);
    let (a, b) = choose|a: int, b: int|
        0 <= a < b < nodes.len() && edges_spec(nodes)[e].0 == #[trigger] node_id_spec(a) && edges_spec(nodes)[e].1
            == #[trigger] node_id_spec(b);
    lemma_node_with_id(nodes, a);
    lemma_node_with_id(nodes, b);
    let ia = node_index_of(nodes, node_id_spec(a));
    let ib = node_index_of(nodes, node_id_spec(b));
    lemma_node_ids_unique(nodes, a, ia);
    lemma_node_ids_unique(nodes, b, ib);
}

/// Accumulates a session's graph as calls complete.
#[derive(Debug, Clone, Default)]
pub struct SequenceGraphBuilder {
    nodes: Vec<SequenceNode>,
    /// Calls refused at [`MAX_NODES`]; non-zero means the graph is a prefix.
    truncated_nodes: u32,
}

impl SequenceGraphBuilder {
    pub closed spec fn node_seq(&self) -> Seq<SequenceNode> {
        self.nodes@
    }

    pub closed spec fn truncated(&self) -> u32 {
        self.truncated_nodes
    }

    pub open spec fn wf(&self) -> bool {
        wf_nodes(self.node_seq())
    }

    pub fn new() -> (g: SequenceGraphBuilder)
        ensures
            g.wf(),
            g.node_seq() == Seq::<SequenceNode>::empty(),
            g.truncated() == 0,
    {
        SequenceGraphBuilder { nodes: Vec::new(), truncated_nodes: 0 }
    }

    pub fn len(&self) -> (n: usize)
        ensures
            n == self.node_seq().len(),
    {
        self.nodes.len()
    }

    pub fn is_empty(&self) -> (r: bool)
        ensures
            r == (self.node_seq().len() == 0),
    {
        self.nodes.len() == 0
    }

    pub fn nodes(&self) -> (r: &[SequenceNode])
        ensures
            r@ == self.node_seq(),
    {
        self.nodes.as_slice()
    }

    /// Calls this graph could not record.
    pub fn truncated_nodes(&self) -> (n: u32)
        ensures
            n == self.truncated(),
    {
        self.truncated_nodes
    }

    /// The node with id `id`.
    pub fn node(&self, id: &str) -> (r: Option<&SequenceNode>)
        requires
            self.wf(),
        ensures
            match r {
                Some(n) => holds_node(self.node_seq(), id@) && *n == node_with_id(self.node_seq(), id@),
                None => !holds_node(self.node_seq(), id@),
            },
    {
        let mut i: usize = 0;
        while i < self.nodes.len()
            invariant
                i <= self.nodes.len(),
                self.wf(),
                forall|j: int| 0 <= j < i ==> (#[trigger] self.nodes@[j]).id@ != id@,
            decreases self.nodes.len() - i,
        {
            if str_eq(self.nodes[i].id.as_str(), id) {
                proof {
                    let k = node_index_of(self.nodes@, id@);
                    assert(self.nodes@[i as int].id@ == id@);
                    lemma_node_ids_unique(self.nodes@, i as int, k);
                }
                return Some(&self.nodes[i]);
            }
            i = i + 1;
        }
        None
    }

    /// Every data-flow edge as `(from, to)`.
    pub fn edges(&self) -> (r: Vec<(String, String)>)
        ensures
            r@.map_values(|e: (String, String)| (e.0@, e.1@)) == edges_spec(self.node_seq()),
    {
        let mut r: Vec<(String, String)> = Vec::new();
        let mut i: usize = 0;
        while i < self.nodes.len()
            invariant
                i <= self.nodes.len(),
                r@.map_values(|e: (String, String)| (e.0@, e.1@)) == edges_spec(self.nodes@.take(i as int)),
            decreases self.nodes.len() - i,
        {
            let node = &self.nodes[i];
            let ghost base = r@.map_values(|e: (String, String)| (e.0@, e.1@));
            let ghost part = id_views(node.inputs@).map_values(|input: Seq<char>| (input, node.id@));
            assert(self.nodes@.take(i + 1).drop_last() =~= self.nodes@.take(i as int));
            let mut j: usize = 0;
            while j < node.inputs.len()
                invariant
                    j <= node.inputs.len(),
                    part == id_views(node.inputs@).map_values(|input: Seq<char>| (input, node.id@)),
                    r@.map_values(|e: (String, String)| (e.0@, e.1@)) == base + part.take(j as int),
                decreases node.inputs.len() - j,
            {
                let ghost before = r@;
                r.push((node.inputs[j].clone(), node.id.clone()));
                assert(r@.map_values(|e: (String, String)| (e.0@, e.1@)) =~= before.map_values(
                    |e: (String, String)| (e.0@, e.1@),
                ).push(part[j as int]));
                assert(part.take(j + 1) =~= part.take(j as int).push(part[j as int]));
                j = j + 1;
            }
            assert(part.take(node.inputs.len() as int) =~= part);
            i = i + 1;
        }
        assert(self.nodes@.take(self.nodes.len() as int) =~= self.nodes@);
        r
    }

    /// Union of the taint held by the named nodes; an unknown name is an
    /// error, never an empty contribution.
    pub fn taint_flowing_from(&self, inputs: &[NodeId]) -> (r: Result<TaintSet, GraphError>)
        requires
            self.wf(),
        ensures
            match r {
                Ok(s) => {
                    &&& forall|k: int| 0 <= k < inputs@.len() ==> holds_node(self.node_seq(), #[trigger] inputs@[k]@)
                    &&& s.wf()
                    &&& s@ == flowing_spec(self.node_seq(), id_views(inputs@))
                },
                Err(e) => exists|k: int|
                    0 <= k < inputs@.len() && !holds_node(self.node_seq(), #[trigger] inputs@[k]@)
                        && (forall|m: int| 0 <= m < k ==> holds_node(self.node_seq(), #[trigger] inputs@[m]@))
                        && (e matches GraphError::UnknownInput(x) && x@ == inputs@[k]@),
            },
    {
        let mut flowing = TaintSet::new();
        let mut i: usize = 0;
        while i < inputs.len()
            invariant
                i <= inputs.len(),
                self.wf(),
                flowing.wf(),
                flowing@ == flowing_spec(self.node_seq(), id_views(inputs@.take(i as int))),
                forall|m: int| 0 <= m < i ==> holds_node(self.node_seq(), #[trigger] inputs@[m]@),
            decreases inputs.len() - i,
        {
            assert(id_views(inputs@.take(i + 1)).drop_last() =~= id_views(inputs@.take(i as int)));
            match self.node(inputs[i].as_str()) {
                Some(node) => {
                    flowing.merge(&node.taint);
                },
                None => {
                    return Err(GraphError::UnknownInput(inputs[i].clone()));
                },
            }
            i = i + 1;
        }
        assert(inputs@.take(inputs.len() as int) =~= inputs@);
        Ok(flowing)
    }

    /// Append a completed call. The node is validated in full before anything
    /// is mutated, so a rejected call leaves the graph exactly as it was.
    pub fn push(
        &mut self,
        tool_name: &str,
        params: &serde_json::Value,
        inputs: &[NodeId],
        taint: TaintSet,
    ) -> (r: Result<NodeId, GraphError>)
        requires
            old(self).wf(),
            taint.wf(),
        ensures
            final(self).wf(),
            match r {
                Ok(id) => {
                    &&& forall|k: int| 0 <= k < inputs@.len() ==> holds_node(old(self).node_seq(), #[trigger] inputs@[k]@)
                    &&& old(self).node_seq().len() < MAX_NODES
                    &&& id@ == node_id_spec(old(self).node_seq().len() as int)
                    &&& final(self).node_seq().len() == old(self).node_seq().len() + 1
                    &&& final(self).node_seq().drop_last() == old(self).node_seq()
                    &&& final(self).node_seq().last().id@ == id@
                    &&& final(self).node_seq().last().tool_name@ == tool_name@
                    &&& final(self).node_seq().last().taint@ == taint@
                    &&& id_views(final(self).node_seq().last().inputs@) == id_views(inputs@)
                    &&& final(self).node_seq().last().params_hash@ == hex_lower(sha256_spec(json_bytes(*params)))
                    &&& final(self).truncated() == old(self).truncated()
                },
                Err(GraphError::UnknownInput(x)) => {
                    &&& exists|k: int|
                        0 <= k < inputs@.len() && x@ == inputs@[k]@ && !holds_node(old(self).node_seq(), #[trigger] inputs@[k]@)
                            && (forall|m: int| 0 <= m < k ==> holds_node(old(self).node_seq(), #[trigger] inputs@[m]@))
                    &&& final(self).node_seq() == old(self).node_seq()
                    &&& final(self).truncated() == old(self).truncated()
                },
                Err(GraphError::Full) => {
                    &&& forall|k: int| 0 <= k < inputs@.len() ==> holds_node(old(self).node_seq(), #[trigger] inputs@[k]@)
                    &&& old(self).node_seq().len() >= MAX_NODES
                    &&& final(self).node_seq() == old(self).node_seq()
                    &&& final(self).truncated() == sat_add(old(self).truncated(), 1)
                },
            },
    {
        let mut i: usize = 0;
        while i < inputs.len()
            invariant
                i <= inputs.len(),
                self.wf(),
                forall|m: int| 0 <= m < i ==> holds_node(self.node_seq(), #[trigger] inputs@[m]@),
            decreases inputs.len() - i,
        {
            if self.node(inputs[i].as_str()).is_none() {
                return Err(GraphError::UnknownInput(inputs[i].clone()));
            }
            i = i + 1;
        }
        if self.nodes.len() >= MAX_NODES {
            self.truncated_nodes = self.truncated_nodes.saturating_add(1);
            return Err(GraphError::Full);
        }
        let position = self.nodes.len();
        let id = owned("n").concat(usize_to_decimal(position).as_str());
        let mut node_inputs: Vec<NodeId> = Vec::new();
        let mut j: usize = 0;
        while j < inputs.len()
            invariant
                j <= inputs.len(),
                id_views(node_inputs@) == id_views(inputs@.take(j as int)),
            decreases inputs.len() - j,
        {
            let ghost before = node_inputs@;
            node_inputs.push(inputs[j].clone());
            assert(id_views(node_inputs@) =~= id_views(before).push(inputs@[j as int]@));
            assert(inputs@.take(j + 1) =~= inputs@.take(j as int).push(inputs@[j as int]));
            assert(id_views(inputs@.take(j + 1)) =~= id_views(inputs@.take(j as int)).push(inputs@[j as int]@));
            j = j + 1;
        }
        assert(inputs@.take(inputs.len() as int) =~= inputs@);
        let ghost ni = node_inputs@;
        let node = SequenceNode {
            id: id.clone(),
            tool_name: owned(tool_name),
            params_hash: params_digest(params),
            taint,
            inputs: node_inputs,
        };
        let ghost old_nodes = self.nodes@;
        assert(wf_nodes(old_nodes));
        assert(forall|m: int| 0 <= m < inputs@.len() ==> holds_node(old_nodes, #[trigger] inputs@[m]@));
        self.nodes.push(node);
        proof {
            reveal_strlit("n");
            assert(self.nodes@.drop_last() =~= old_nodes);
            let nodes = self.nodes@;
            assert forall|a: int, b: int|
                0 <= a < nodes.len() && 0 <= b < nodes[a].inputs@.len() implies refers_to_earlier(
                (#[trigger] nodes[a].inputs@[b])@,
                a,
            ) by {
                if a < old_nodes.len() {
                    assert(nodes[a] == old_nodes[a]);
                    assert(refers_to_earlier(old_nodes[a].inputs@[b]@, a));
                } else {
                    assert(a == old_nodes.len());
                    assert(nodes[a].inputs@ == ni);
                    assert(id_views(ni)[b] == id_views(inputs@)[b]);
                    assert(id_views(ni)[b] == ni[b]@);
                    assert(id_views(inputs@)[b] == inputs@[b]@);
                    assert(holds_node(old_nodes, inputs@[b]@));
                    let k = choose|k: int| 0 <= k < old_nodes.len() && (#[trigger] old_nodes[k]).id@ == inputs@[b]@;
                    assert(old_nodes[k].id@ == node_id_spec(k));
                    assert(0 <= k < a && nodes[a].inputs@[b]@ == node_id_spec(k));
                }
            }
            assert forall|a: int| 0 <= a < nodes.len() implies (#[trigger] nodes[a]).id@ == node_id_spec(a) by {
                if a < old_nodes.len() {
                    assert(nodes[a] == old_nodes[a]);
                }
            }
            assert(nodes.len() <= MAX_NODES);
            assert forall|a: int| 0 <= a < nodes.len() implies (#[trigger] nodes[a]).taint.wf() by {
                if a < old_nodes.len() {
                    assert(nodes[a] == old_nodes[a]);
                } else {
                    assert(nodes[a].taint == taint);
                }
            }
            assert(wf_nodes(nodes));
        }
        Ok(id)
    }
}

} // verus!
