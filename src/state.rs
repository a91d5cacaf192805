//! The partial world state that a witness supports: its trie nodes, kept
//! under their Keccak-256 hashes, and the root that reconstruction starts
//! from. A node that the witness lacks is never made up: asking for it is
//! the fatal `WitnessIncomplete` error.
use vstd::prelude::*;
use crate::bytes::{bytes_eq, copy_bytes};
use crate::hashing::{keccak, keccak_of};
use crate::header::{all_decode, parent_root_result, parent_state_root, rlp_header_fields, AncestorError};

verus! {

/// The node that a lookup of `h` finds among `nodes`: the first one whose
/// hash is `h`, if any.
pub open spec fn resolve_in(nodes: Seq<Seq<u8>>, h: Seq<u8>) -> Option<Seq<u8>>
    decreases nodes.len(),
{
    if nodes.len() == 0 {
        None
    } else if keccak_of(nodes[0]) == h {
        Some(nodes[0])
    } else {
        resolve_in(nodes.drop_first(), h)
    }
}

/// A referenced trie node or bytecode is absent from the witness.
#[derive(Debug, Clone, Copy, PartialEq, Eq, Structural)]
pub struct WitnessIncomplete;

/// Trie nodes of a witness, each stored with its hash.
pub struct NodeStore {
    hashes: Vec<Vec<u8>>,
    nodes: Vec<Vec<u8>>,
}

impl NodeStore {
    /// The stored nodes, in witness order.
    pub closed spec fn view_nodes(&self) -> Seq<Seq<u8>> {
        self.nodes.deep_view()
    }

    pub closed spec fn wf(&self) -> bool {
        &&& self.hashes@.len() == self.nodes@.len()
        &&& forall|i: int|
            0 <= i < self.nodes@.len() ==> (#[trigger] self.hashes@[i])@ == keccak_of(
                self.nodes@[i]@,
            )
    }

    /// Stores every node of a witness under its hash.
    pub fn from_nodes(nodes: &Vec<Vec<u8>>) -> (r: NodeStore)
        ensures
            r.wf(),
            r.view_nodes() == nodes.deep_view(),
    {
        let mut hashes: Vec<Vec<u8>> = Vec::new();
        let mut kept: Vec<Vec<u8>> = Vec::new();
        let mut i: usize = 0;
        while i < nodes.len()
            invariant
                i <= nodes@.len(),
                hashes@.len() == i,
                kept@.len() == i,
                kept.deep_view() == nodes.deep_view().take(i as int),
                forall|j: int|
                    0 <= j < i ==> (#[trigger] hashes@[j])@ == keccak_of(kept@[j]@),
            decreases nodes@.len() - i,
        {
            let node = copy_bytes(nodes[i].as_slice());
            hashes.push(keccak(node.as_slice()));
            kept.push(node);
            assert(kept.deep_view() =~= nodes.deep_view().take(i + 1));
            i = i + 1;
        }
        assert(nodes.deep_view().take(i as int) == nodes.deep_view());
        let r = NodeStore { hashes, nodes: kept };
        assert forall|j: int| 0 <= j < r.nodes@.len() implies (#[trigger] r.hashes@[j])@
            == keccak_of(r.nodes@[j]@) by {
            assert(r.nodes@[j]@ == kept.deep_view()[j]);
        }
        r
    }

    /// Appends the framed list of stored nodes.
    pub fn push_nodes_framed(&self, out: &mut Vec<u8>)
        ensures
            final(out)@ == old(out)@ + crate::framing::frame_list(self.view_nodes()),
    {
        crate::framing::push_frame_list(out, &self.nodes);
    }

    /// The node whose hash is `hash`, or `WitnessIncomplete` when the
    /// witness holds none.
    pub fn resolve(&self, hash: &[u8]) -> (r: Result<&Vec<u8>, WitnessIncomplete>)
        requires
            self.wf(),
        ensures
            r matches Ok(n) ==> resolve_in(self.view_nodes(), hash@) == Some(n@),
            r is Err ==> resolve_in(self.view_nodes(), hash@) is None,
    {
        let ghost all = self.view_nodes();
        let mut i: usize = 0;
        assert(all.skip(0) == all);
        while i < self.nodes.len()
            invariant
                self.wf(),
                all == self.view_nodes(),
                i <= all.len(),
                resolve_in(all, hash@) == resolve_in(all.skip(i as int), hash@),
            decreases all.len() - i,
        {
            assert(all.skip(i as int)[0] == self.nodes@[i as int]@);
            if bytes_eq(self.hashes[i].as_slice(), hash) {
                return Ok(&self.nodes[i]);
            }
            assert(all.skip(i as int).drop_first() == all.skip(i + 1));
            i = i + 1;
        }
        Err(WitnessIncomplete)
    }
}

/// Every witness node can be looked up by its hash, and the lookup finds a
/// witness node with that hash.
pub proof fn lemma_witness_node_resolves(nodes: Seq<Seq<u8>>, k: int)
    requires
        0 <= k < nodes.len(),
    ensures
        resolve_in(nodes, keccak_of(nodes[k])) is Some,
        keccak_of(resolve_in(nodes, keccak_of(nodes[k]))->Some_0) == keccak_of(nodes[k]),
        nodes.contains(resolve_in(nodes, keccak_of(nodes[k]))->Some_0),
    decreases nodes.len(),
{
    if keccak_of(nodes[0]) != keccak_of(nodes[k]) {
        lemma_witness_node_resolves(nodes.drop_first(), k - 1);
        let n = resolve_in(nodes.drop_first(), keccak_of(nodes[k]))->Some_0;
        let j = choose|j: int| 0 <= j < nodes.drop_first().len() && nodes.drop_first()[j] == n;
        assert(nodes[j + 1] == n);
    } else {
        assert(nodes[0] == nodes[0]);
    }
}

/// Where no two witness nodes share a hash, looking a node up by its hash
/// finds exactly that node.
pub proof fn lemma_distinct_node_resolves_to_itself(nodes: Seq<Seq<u8>>, k: int)
    requires
        0 <= k < nodes.len(),
        forall|i: int, j: int|
            0 <= i < nodes.len() && 0 <= j < nodes.len() && i != j ==> keccak_of(
                #[trigger] nodes[i],
            ) != keccak_of(#[trigger] nodes[j]),
    ensures
        resolve_in(nodes, keccak_of(nodes[k])) == Some(nodes[k]),
    decreases nodes.len(),
{
    if k > 0 {
        assert(keccak_of(nodes[0]) != keccak_of(nodes[k]));
        let rest = nodes.drop_first();
        assert forall|i: int, j: int|
            0 <= i < rest.len() && 0 <= j < rest.len() && i != j implies keccak_of(
                #[trigger] rest[i],
            ) != keccak_of(#[trigger] rest[j]) by {
            assert(rest[i] == nodes[i + 1] && rest[j] == nodes[j + 1]);
        }
        lemma_distinct_node_resolves_to_itself(rest, k - 1);
    }
}

/// A lookup finds nothing when no node of the witness has the hash sought.
pub proof fn lemma_absent_hash_unresolvable(nodes: Seq<Seq<u8>>, h: Seq<u8>)
    requires
        forall|i: int| 0 <= i < nodes.len() ==> keccak_of(#[trigger] nodes[i]) != h,
    ensures
        resolve_in(nodes, h) is None,
    decreases nodes.len(),
{
    if nodes.len() > 0 {
        assert(keccak_of(nodes[0]) != h);
        assert forall|i: int| 0 <= i < nodes.drop_first().len() implies keccak_of(
            #[trigger] nodes.drop_first()[i],
        ) != h by {
            assert(nodes.drop_first()[i] == nodes[i + 1]);
        }
        lemma_absent_hash_unresolvable(nodes.drop_first(), h);
    }
}

/// Removing from a witness the one node with a given hash makes every lookup
/// of that hash fail, rather than yield some other value.
pub proof fn lemma_removed_node_unresolvable(nodes: Seq<Seq<u8>>, k: int)
    requires
        0 <= k < nodes.len(),
        forall|i: int|
            0 <= i < nodes.len() && i != k ==> keccak_of(#[trigger] nodes[i]) != keccak_of(
                nodes[k],
            ),
    ensures
        resolve_in(nodes.remove(k), keccak_of(nodes[k])) is None,
{
    let rest = nodes.remove(k);
    assert forall|i: int| 0 <= i < rest.len() implies keccak_of(#[trigger] rest[i]) != keccak_of(
        nodes[k],
    ) by {
        if i < k {
            assert(rest[i] == nodes[i]);
        } else {
            assert(rest[i] == nodes[i + 1]);
        }
    }
    lemma_absent_hash_unresolvable(rest, keccak_of(nodes[k]));
}

/// Why state reconstruction failed.
#[derive(Debug, Clone, Copy, PartialEq, Eq, Structural)]
pub enum ReconstructError {
    /// The ancestor headers give no trusted root.
    Ancestors(AncestorError),
    /// The root node itself is absent from the witness.
    Incomplete(WitnessIncomplete),
}

/// The world state before a block, as far as its witness supports it.
pub struct PartialState {
    pub root: Vec<u8>,
    pub store: NodeStore,
}

impl PartialState {
    pub open spec fn wf(&self) -> bool {
        self.store.wf()
    }

    /// Reconstructs the pre-state of a block from the trie nodes and the
    /// ancestor headers of its witness. The root is the state root of the
    /// earliest ancestor header, trusted only once that header hashes to
    /// `parent_hash`; the root node must be among the nodes.
    pub fn reconstruct(state: &Vec<Vec<u8>>, headers: &Vec<Vec<u8>>, parent_hash: &[u8]) -> (r:
        Result<PartialState, ReconstructError>)
        ensures
            r matches Ok(p) ==> {
                &&& p.wf()
                &&& p.store.view_nodes() == state.deep_view()
                &&& parent_root_result(headers.deep_view(), parent_hash@) == Ok::<
                    Seq<u8>,
                    AncestorError,
                >(p.root@)
            },
            r is Ok <==> Self::reconstructs(
                state.deep_view(),
                headers.deep_view(),
                parent_hash@,
            ),
            r matches Err(e) ==> Self::reconstruct_fails_with(
                state.deep_view(),
                headers.deep_view(),
                parent_hash@,
                e,
            ),
    {
        let root = match parent_state_root(headers, parent_hash) {
            Ok(root) => root,
            Err(e) => {
                proof {
                    if let AncestorError::Undecodable { index } = e {
                        assert(headers.deep_view()[index as int] == headers@[index as int]@);
                    }
                }
                return Err(ReconstructError::Ancestors(e));
            },
        };
        let store = NodeStore::from_nodes(state);
        match store.resolve(root.as_slice()) {
            Ok(_) => {},
            Err(e) => {
                return Err(ReconstructError::Incomplete(e));
            },
        }
        Ok(PartialState { root, store })
    }

    /// Whether `reconstruct` succeeds on these arguments.
    pub open spec fn reconstructs(
        state: Seq<Seq<u8>>,
        headers: Seq<Seq<u8>>,
        parent_hash: Seq<u8>,
    ) -> bool {
        &&& all_decode(headers)
        &&& parent_root_result(headers, parent_hash) is Ok
        &&& resolve_in(state, parent_root_result(headers, parent_hash)->Ok_0) is Some
    }

    /// Whether `reconstruct` may fail with `e` on these arguments.
    pub open spec fn reconstruct_fails_with(
        state: Seq<Seq<u8>>,
        headers: Seq<Seq<u8>>,
        parent_hash: Seq<u8>,
        e: ReconstructError,
    ) -> bool {
        match e {
            ReconstructError::Incomplete(_) => {
                &&& all_decode(headers)
                &&& parent_root_result(headers, parent_hash) is Ok
                &&& resolve_in(state, parent_root_result(headers, parent_hash)->Ok_0) is None
            },
            ReconstructError::Ancestors(AncestorError::Undecodable { index }) => index
                < headers.len() && rlp_header_fields(headers[index as int]) is None,
            ReconstructError::Ancestors(a) => all_decode(headers) && parent_root_result(
                headers,
                parent_hash,
            ) == Err::<Seq<u8>, AncestorError>(a),
        }
    }

    /// The trie node under `hash`; `WitnessIncomplete` where the witness
    /// lacks it.
    pub fn node(&self, hash: &[u8]) -> (r: Result<&Vec<u8>, WitnessIncomplete>)
        requires
            self.wf(),
        ensures
            r matches Ok(n) ==> resolve_in(self.store.view_nodes(), hash@) == Some(n@),
            r is Err ==> resolve_in(self.store.view_nodes(), hash@) is None,
    {
        self.store.resolve(hash)
    }
}

/// Removing from a witness the only node that hashes to the trusted root
/// makes reconstruction fail as incomplete, whatever else the witness holds.
pub proof fn lemma_missing_root_node_is_incomplete(
    state: Seq<Seq<u8>>,
    headers: Seq<Seq<u8>>,
    parent_hash: Seq<u8>,
    k: int,
)
    requires
        PartialState::reconstructs(state, headers, parent_hash),
        0 <= k < state.len(),
        keccak_of(state[k]) == parent_root_result(headers, parent_hash)->Ok_0,
        forall|i: int|
            0 <= i < state.len() && i != k ==> keccak_of(#[trigger] state[i]) != keccak_of(state[k]),
    ensures
        !PartialState::reconstructs(state.remove(k), headers, parent_hash),
        PartialState::reconstruct_fails_with(
            state.remove(k),
            headers,
            parent_hash,
            ReconstructError::Incomplete(WitnessIncomplete),
        ),
{
    lemma_removed_node_unresolvable(state, k);
}

} // verus!
