//! Point lookups in the Merkle-Patricia tries of a witness. Nodes are
//! decoded by alloy-trie; the descent from a root along a key's nibbles is
//! checked here, and a node that the witness lacks ends it with
//! `TrieError::Incomplete`, never with a default value.
use vstd::prelude::*;
use crate::bytes::bytes_eq;
use crate::hashing::{keccak, keccak_of};
use crate::state::{lemma_removed_node_unresolvable, resolve_in, NodeStore, PartialState};
use alloy_trie::nodes::TrieNode;

verus! {

/// A decoded trie node: children of a branch are raw references, empty
/// where the branch has none.
pub enum TrieNodeFields {
    Empty,
    Branch { children: Vec<Vec<u8>> },
    Extension { path: Vec<u8>, child: Vec<u8> },
    Leaf { path: Vec<u8>, value: Vec<u8> },
}

pub enum TrieNodeView {
    Empty,
    Branch { children: Seq<Seq<u8>> },
    Extension { path: Seq<u8>, child: Seq<u8> },
    Leaf { path: Seq<u8>, value: Seq<u8> },
}

impl View for TrieNodeFields {
    type V = TrieNodeView;

    open spec fn view(&self) -> TrieNodeView {
        match self {
            TrieNodeFields::Empty => TrieNodeView::Empty,
            TrieNodeFields::Branch { children } => TrieNodeView::Branch {
                children: children.deep_view(),
            },
            TrieNodeFields::Extension { path, child } => TrieNodeView::Extension {
                path: path@,
                child: child@,
            },
            TrieNodeFields::Leaf { path, value } => TrieNodeView::Leaf {
                path: path@,
                value: value@,
            },
        }
    }
}

/// The node that an RLP byte string decodes to, if it decodes.
pub uninterp spec fn trie_node_of(b: Seq<u8>) -> Option<TrieNodeView>;

pub open spec fn nibble_path(p: Seq<u8>) -> bool {
    forall|i: int| 0 <= i < p.len() ==> #[trigger] p[i] < 16
}

/// Where the first item of an RLP list starts.
pub open spec fn first_item_offset(b: Seq<u8>) -> int {
    if b[0] <= 0xf7 {
        1
    } else {
        1 + (b[0] - 0xf7)
    }
}

/// Whether the first item of a node, read as a compact-encoded key, unpacks
/// to at most 64 nibbles: a string of at most 32 bytes, or of 33 bytes whose
/// flag nibble marks an even key. Other nodes pass.
pub open spec fn compact_key_fits(b: Seq<u8>) -> bool {
    if b.len() == 0 || b[0] < 0xc0 {
        true
    } else {
        let o = first_item_offset(b);
        if o >= b.len() || b[o] < 0x80 || b[o] >= 0xc0 {
            true
        } else if b[o] > 0xb7 {
            false
        } else if b[o] - 0x80 <= 32 {
            true
        } else if b[o] - 0x80 == 33 {
            o + 1 >= b.len() || (b[o + 1] / 16) % 2 == 0
        } else {
            false
        }
    }
}

fn key_fits(b: &[u8]) -> (r: bool)
    ensures
        r == compact_key_fits(b@),
{
    if b.len() == 0 || b[0] < 0xc0 {
        return true;
    }
    let o: usize = if b[0] <= 0xf7 {
        1
    } else {
        1 + (b[0] - 0xf7) as usize
    };
    if o >= b.len() || b[o] < 0x80 || b[o] >= 0xc0 {
        true
    } else if b[o] > 0xb7 {
        false
    } else if b[o] - 0x80 <= 32 {
        true
    } else if b[o] - 0x80 == 33 {
        o + 1 >= b.len() || (b[o + 1] / 16) % 2 == 0
    } else {
        false
    }
}

/// Relies on `<alloy_trie::nodes::TrieNode as alloy_rlp::Decodable>::decode`:
/// the outcome depends on the bytes alone; a branch lists its sixteen
/// children in nibble order; keys are unpacked to nibbles. A key of more
/// than 64 nibbles would make it panic, which `compact_key_fits` excludes.
#[verifier::external_body]
fn decode_trie_node(b: &[u8]) -> (r: Option<TrieNodeFields>)
    requires
        compact_key_fits(b@),
    ensures
        r matches Some(n) ==> trie_node_of(b@) == Some(n@),
        r is None ==> trie_node_of(b@) is None,
        r matches Some(TrieNodeFields::Branch { children }) ==> children@.len() == 16,
        r matches Some(TrieNodeFields::Extension { path, child }) ==> nibble_path(path@),
        r matches Some(TrieNodeFields::Leaf { path, value }) ==> nibble_path(path@),
{
    let mut buf = b;
    match <TrieNode as alloy_rlp::Decodable>::decode(&mut buf) {
        Ok(TrieNode::EmptyRoot) => Some(TrieNodeFields::Empty),
        Ok(TrieNode::Branch(n)) => {
            let node = n.as_ref();
            let children = node.children().map(|(_, c)| c.map(|r| r.to_vec()).unwrap_or_default());
            Some(TrieNodeFields::Branch { children: children.collect() })
        },
        Ok(TrieNode::Extension(n)) => {
            Some(TrieNodeFields::Extension { path: n.key.to_vec(), child: n.child.to_vec() })
        },
        Ok(TrieNode::Leaf(n)) => Some(TrieNodeFields::Leaf { path: n.key.to_vec(), value: n.value }),
        Err(_) => None,
    }
}

/// Why a lookup stopped without an answer.
#[derive(Debug, Clone, Copy, PartialEq, Eq, Structural)]
pub enum TrieError {
    /// A node on the path is absent from the witness.
    Incomplete,
    /// A node on the path is not a well-formed trie node.
    Malformed,
}

/// The root hash of an empty trie, Keccak-256 of the RLP empty string.
pub open spec fn empty_root_hash() -> Seq<u8> {
    seq![
        0x56u8, 0xe8u8, 0x1fu8, 0x17u8, 0x1bu8, 0xccu8, 0x55u8, 0xa6u8,
        0xffu8, 0x83u8, 0x45u8, 0xe6u8, 0x92u8, 0xc0u8, 0xf8u8, 0x6eu8,
        0x5bu8, 0x48u8, 0xe0u8, 0x1bu8, 0x99u8, 0x6cu8, 0xadu8, 0xc0u8,
        0x01u8, 0x62u8, 0x2fu8, 0xb5u8, 0xe3u8, 0x63u8, 0xb4u8, 0x21u8,
    ]
}

/// A child reference by hash: the RLP string of a 32-byte hash.
pub open spec fn is_hash_ref(r: Seq<u8>) -> bool {
    r.len() == 33 && r[0] == 0xa0u8
}

/// The node a child reference stands for: looked up by hash, or the
/// reference itself when the child is small enough to be inlined.
pub open spec fn child_node(nodes: Seq<Seq<u8>>, r: Seq<u8>) -> Result<Seq<u8>, TrieError> {
    if is_hash_ref(r) {
        match resolve_in(nodes, r.skip(1)) {
            Some(n) => Ok(n),
            None => Err(TrieError::Incomplete),
        }
    } else {
        Ok(r)
    }
}

/// What looking up the rest `path` of a key from `node` finds.
pub open spec fn walk(nodes: Seq<Seq<u8>>, node: Seq<u8>, path: Seq<u8>) -> Result<
    Option<Seq<u8>>,
    TrieError,
>
    decreases path.len(),
{
    if !compact_key_fits(node) {
        Err(TrieError::Malformed)
    } else {
    match trie_node_of(node) {
        None => Err(TrieError::Malformed),
        Some(TrieNodeView::Empty) => Ok(None),
        Some(TrieNodeView::Leaf { path: p, value }) => if p == path {
            Ok(Some(value))
        } else {
            Ok(None)
        },
        Some(TrieNodeView::Extension { path: p, child }) => if p.len() == 0 {
            Err(TrieError::Malformed)
        } else if p.len() <= path.len() && path.take(p.len() as int) == p {
            match child_node(nodes, child) {
                Err(e) => Err(e),
                Ok(n) => walk(nodes, n, path.skip(p.len() as int)),
            }
        } else {
            Ok(None)
        },
        Some(TrieNodeView::Branch { children }) => if path.len() == 0 || children.len() != 16
            || path[0] >= 16 {
            Err(TrieError::Malformed)
        } else if children[path[0] as int].len() == 0 {
            Ok(None)
        } else {
            match child_node(nodes, children[path[0] as int]) {
                Err(e) => Err(e),
                Ok(n) => walk(nodes, n, path.skip(1)),
            }
        },
    }
    }
}

/// What looking up `path` in the trie with root hash `root` finds.
pub open spec fn lookup(nodes: Seq<Seq<u8>>, root: Seq<u8>, path: Seq<u8>) -> Result<
    Option<Seq<u8>>,
    TrieError,
> {
    if root == empty_root_hash() {
        Ok(None)
    } else {
        match resolve_in(nodes, root) {
            None => Err(TrieError::Incomplete),
            Some(n) => walk(nodes, n, path),
        }
    }
}

/// The nibbles of a byte string, high nibble first.
pub open spec fn nibbles_of(b: Seq<u8>) -> Seq<u8> {
    Seq::new(
        2 * b.len(),
        |i: int|
            if i % 2 == 0 {
                (b[i / 2] / 16) as u8
            } else {
                (b[i / 2] % 16) as u8
            },
    )
}

pub fn nibbles(b: &[u8]) -> (r: Vec<u8>)
    requires
        b@.len() <= usize::MAX / 2,
    ensures
        r@ == nibbles_of(b@),
{
    let mut out: Vec<u8> = Vec::new();
    let mut i: usize = 0;
    while i < b.len()
        invariant
            i <= b@.len(),
            out@ == nibbles_of(b@.take(i as int)),
        decreases b@.len() - i,
    {
        let ghost before = out@;
        out.push(b[i] / 16);
        out.push(b[i] % 16);
        assert(out@ =~= nibbles_of(b@.take(i + 1))) by {
            assert forall|k: int| 0 <= k < 2 * i implies #[trigger] out@[k] == nibbles_of(
                b@.take(i + 1),
            )[k] by {
                assert(before[k] == nibbles_of(b@.take(i as int))[k]);
            }
        }
        i = i + 1;
    }
    assert(b@.take(i as int) == b@);
    out
}

fn is_empty_root(h: &[u8]) -> (r: bool)
    ensures
        r == (h@ == empty_root_hash()),
{
    let e: [u8; 32] = [
        0x56, 0xe8, 0x1f, 0x17, 0x1b, 0xcc, 0x55, 0xa6, 0xff, 0x83, 0x45, 0xe6, 0x92, 0xc0, 0xf8,
        0x6e, 0x5b, 0x48, 0xe0, 0x1b, 0x99, 0x6c, 0xad, 0xc0, 0x01, 0x62, 0x2f, 0xb5, 0xe3, 0x63,
        0xb4, 0x21,
    ];
    assert(e@ =~= empty_root_hash());
    bytes_eq(h, &e)
}

/// Whether `path` continues at `pos` with `p`.
fn continues_with(path: &[u8], pos: usize, p: &[u8]) -> (r: bool)
    requires
        pos <= path@.len(),
    ensures
        r == (p@.len() <= path@.len() - pos && path@.skip(pos as int).take(p@.len() as int)
            == p@),
{
    if p.len() > path.len() - pos {
        return false;
    }
    let part = &path[pos..pos + p.len()];
    assert(part@ == path@.skip(pos as int).take(p@.len() as int));
    bytes_eq(part, p)
}

impl NodeStore {
    fn child(&self, r: &Vec<u8>) -> (c: Result<Vec<u8>, TrieError>)
        requires
            self.wf(),
        ensures
            c matches Ok(n) ==> child_node(self.view_nodes(), r@) == Ok::<Seq<u8>, TrieError>(
                n@,
            ),
            c matches Err(e) ==> child_node(self.view_nodes(), r@) == Err::<Seq<u8>, TrieError>(
                e,
            ),
    {
        if r.len() == 33 && r[0] == 0xa0u8 {
            let h = &r.as_slice()[1..33];
            assert(h@ == r@.skip(1));
            match self.resolve(h) {
                Ok(n) => Ok(n.clone()),
                Err(_) => Err(TrieError::Incomplete),
            }
        } else {
            Ok(r.clone())
        }
    }

    /// Looks up a key path (nibbles) in the trie whose root hash is `root`.
    pub fn lookup(&self, root: &[u8], path: &Vec<u8>) -> (r: Result<Option<Vec<u8>>, TrieError>)
        requires
            self.wf(),
        ensures
            r matches Ok(v) ==> lookup(self.view_nodes(), root@, path@) == Ok::<
                Option<Seq<u8>>,
                TrieError,
            >(
                match v {
                    Some(x) => Some(x@),
                    None => None,
                },
            ),
            r matches Err(e) ==> lookup(self.view_nodes(), root@, path@) == Err::<
                Option<Seq<u8>>,
                TrieError,
            >(e),
    {
        let ghost nodes = self.view_nodes();
        if is_empty_root(root) {
            return Ok(None);
        }
        let mut cur: Vec<u8> = match self.resolve(root) {
            Ok(n) => n.clone(),
            Err(_) => {
                return Err(TrieError::Incomplete);
            },
        };
        let mut pos: usize = 0;
        assert(path@.skip(0) == path@);
        loop
            invariant
                self.wf(),
                nodes == self.view_nodes(),
                pos <= path@.len(),
                lookup(nodes, root@, path@) == walk(nodes, cur@, path@.skip(pos as int)),
            decreases path@.len() - pos,
        {
            let ghost rest = path@.skip(pos as int);
            if !key_fits(cur.as_slice()) {
                return Err(TrieError::Malformed);
            }
            match decode_trie_node(cur.as_slice()) {
                None => {
                    return Err(TrieError::Malformed);
                },
                Some(TrieNodeFields::Empty) => {
                    return Ok(None);
                },
                Some(TrieNodeFields::Leaf { path: p, value }) => {
                    let tail = &path.as_slice()[pos..path.len()];
                    assert(tail@ == rest);
                    if bytes_eq(p.as_slice(), tail) {
                        return Ok(Some(value));
                    } else {
                        return Ok(None);
                    }
                },
                Some(TrieNodeFields::Extension { path: p, child }) => {
                    if p.len() == 0 {
                        return Err(TrieError::Malformed);
                    }
                    let ps = path.as_slice();
                    assert(ps@ == path@);
                    if !continues_with(ps, pos, p.as_slice()) {
                        return Ok(None);
                    }
                    let plen = p.len();
                    let total = path.len();
                    assert(pos + plen <= total);
                    let next = pos + plen;
                    assert(rest.skip(p@.len() as int) == path@.skip(pos + p@.len()));
                    cur = self.child(&child)?;
                    pos = next;
                },
                Some(TrieNodeFields::Branch { children }) => {
                    if pos == path.len() || children.len() != 16 || path[pos] >= 16 {
                        return Err(TrieError::Malformed);
                    }
                    let k = path[pos] as usize;
                    assert(rest[0] == path@[pos as int]);
                    assert(children.deep_view()[k as int] == children@[k as int]@);
                    if children[k].len() == 0 {
                        return Ok(None);
                    }
                    assert(rest.skip(1) == path@.skip(pos + 1));
                    cur = self.child(&children[k])?;
                    pos = pos + 1;
                },
            }
        }
    }
}

/// The fields of an account as the account trie stores them; the balance
/// as a 32-byte big-endian word.
pub struct Account {
    pub nonce: u64,
    pub balance: Vec<u8>,
    pub storage_root: Vec<u8>,
    pub code_hash: Vec<u8>,
}

pub struct AccountView {
    pub nonce: u64,
    pub balance: Seq<u8>,
    pub storage_root: Seq<u8>,
    pub code_hash: Seq<u8>,
}

impl View for Account {
    type V = AccountView;

    open spec fn view(&self) -> AccountView {
        AccountView {
            nonce: self.nonce,
            balance: self.balance@,
            storage_root: self.storage_root@,
            code_hash: self.code_hash@,
        }
    }
}

/// The account that an RLP byte string decodes to, if it decodes.
pub uninterp spec fn trie_account_of(b: Seq<u8>) -> Option<AccountView>;

/// Relies on `<alloy_trie::TrieAccount as alloy_rlp::Decodable>::decode`:
/// the outcome depends on the bytes alone; the fields are moved out, the
/// balance as its 32 big-endian bytes.
#[verifier::external_body]
fn decode_account_rlp(b: &[u8]) -> (r: Option<Account>)
    ensures
        r matches Some(a) ==> trie_account_of(b@) == Some(a@),
        r is None ==> trie_account_of(b@) is None,
{
    let mut buf = b;
    match <alloy_trie::TrieAccount as alloy_rlp::Decodable>::decode(&mut buf) {
        Ok(a) => Some(Account {
            nonce: a.nonce,
            balance: a.balance.to_be_bytes::<32>().to_vec(),
            storage_root: a.storage_root.to_vec(),
            code_hash: a.code_hash.to_vec(),
        }),
        Err(_) => None,
    }
}

/// The 32-byte big-endian word that an RLP-encoded integer decodes to.
pub uninterp spec fn rlp_word_of(b: Seq<u8>) -> Option<Seq<u8>>;

/// Relies on `<alloy_primitives::U256 as alloy_rlp::Decodable>::decode`:
/// the outcome depends on the bytes alone; the value is given as its 32
/// big-endian bytes.
#[verifier::external_body]
fn decode_word_rlp(b: &[u8]) -> (r: Option<Vec<u8>>)
    ensures
        r matches Some(w) ==> rlp_word_of(b@) == Some(w@),
        r is None ==> rlp_word_of(b@) is None,
{
    let mut buf = b;
    match <alloy_primitives::U256 as alloy_rlp::Decodable>::decode(&mut buf) {
        Ok(v) => Some(v.to_be_bytes::<32>().to_vec()),
        Err(_) => None,
    }
}

/// The account stored under `address` in the trie with root `root`.
pub open spec fn account_result(nodes: Seq<Seq<u8>>, root: Seq<u8>, address: Seq<u8>) -> Result<
    Option<AccountView>,
    TrieError,
> {
    match lookup(nodes, root, nibbles_of(keccak_of(address))) {
        Err(e) => Err(e),
        Ok(None) => Ok(None),
        Ok(Some(v)) => match trie_account_of(v) {
            None => Err(TrieError::Malformed),
            Some(a) => Ok(Some(a)),
        },
    }
}

/// The value of storage slot `slot` of the account under `address`; `None`
/// where the account or the slot is absent from the tries, which the
/// tries prove.
pub open spec fn storage_result(
    nodes: Seq<Seq<u8>>,
    root: Seq<u8>,
    address: Seq<u8>,
    slot: Seq<u8>,
) -> Result<Option<Seq<u8>>, TrieError> {
    match account_result(nodes, root, address) {
        Err(e) => Err(e),
        Ok(None) => Ok(None),
        Ok(Some(a)) => match lookup(nodes, a.storage_root, nibbles_of(keccak_of(slot))) {
            Err(e) => Err(e),
            Ok(None) => Ok(None),
            Ok(Some(v)) => match rlp_word_of(v) {
                None => Err(TrieError::Malformed),
                Some(w) => Ok(Some(w)),
            },
        },
    }
}

impl PartialState {
    /// The account under `address`, read from the witness nodes alone.
    pub fn account(&self, address: &[u8]) -> (r: Result<Option<Account>, TrieError>)
        requires
            self.wf(),
        ensures
            r matches Ok(v) ==> account_result(self.store.view_nodes(), self.root@, address@)
                == Ok::<Option<AccountView>, TrieError>(
                match v {
                    Some(a) => Some(a@),
                    None => None,
                },
            ),
            r matches Err(e) ==> account_result(self.store.view_nodes(), self.root@, address@)
                == Err::<Option<AccountView>, TrieError>(e),
    {
        let key = keccak(address);
        let path = nibbles(key.as_slice());
        match self.store.lookup(self.root.as_slice(), &path) {
            Err(e) => Err(e),
            Ok(None) => Ok(None),
            Ok(Some(v)) => match decode_account_rlp(v.as_slice()) {
                None => Err(TrieError::Malformed),
                Some(a) => Ok(Some(a)),
            },
        }
    }

    /// The value in storage slot `slot` of the account under `address`, as
    /// a 32-byte big-endian word, read from the witness nodes alone.
    pub fn storage(&self, address: &[u8], slot: &[u8]) -> (r: Result<Option<Vec<u8>>, TrieError>)
        requires
            self.wf(),
        ensures
            r matches Ok(v) ==> storage_result(
                self.store.view_nodes(),
                self.root@,
                address@,
                slot@,
            ) == Ok::<Option<Seq<u8>>, TrieError>(
                match v {
                    Some(w) => Some(w@),
                    None => None,
                },
            ),
            r matches Err(e) ==> storage_result(
                self.store.view_nodes(),
                self.root@,
                address@,
                slot@,
            ) == Err::<Option<Seq<u8>>, TrieError>(e),
    {
        let account = match self.account(address) {
            Err(e) => {
                return Err(e);
            },
            Ok(None) => {
                return Ok(None);
            },
            Ok(Some(a)) => a,
        };
        let key = keccak(slot);
        let path = nibbles(key.as_slice());
        match self.store.lookup(account.storage_root.as_slice(), &path) {
            Err(e) => Err(e),
            Ok(None) => Ok(None),
            Ok(Some(v)) => match decode_word_rlp(v.as_slice()) {
                None => Err(TrieError::Malformed),
                Some(w) => Ok(Some(w)),
            },
        }
    }
}

/// Whether following child reference `c` on the rest `path` of a key
/// resolves the node with hash `h`, at `c` itself or further down.
pub open spec fn child_resolves(nodes: Seq<Seq<u8>>, c: Seq<u8>, path: Seq<u8>, h: Seq<u8>) -> bool
    decreases path.len(), 1nat,
{
    (is_hash_ref(c) && c.skip(1) == h) || (child_node(nodes, c) is Ok && walk_resolves(
        nodes,
        child_node(nodes, c)->Ok_0,
        path,
        h,
    ))
}

/// Whether the descent for `path` from `node` resolves the node with hash
/// `h` on its way.
pub open spec fn walk_resolves(nodes: Seq<Seq<u8>>, node: Seq<u8>, path: Seq<u8>, h: Seq<u8>) -> bool
    decreases path.len(), 0nat,
{
    compact_key_fits(node) && match trie_node_of(node) {
        Some(TrieNodeView::Extension { path: p, child }) => {
            &&& p.len() > 0
            &&& p.len() <= path.len()
            &&& path.take(p.len() as int) == p
            &&& child_resolves(nodes, child, path.skip(p.len() as int), h)
        },
        Some(TrieNodeView::Branch { children }) => {
            &&& path.len() > 0
            &&& children.len() == 16
            &&& path[0] < 16
            &&& children[path[0] as int].len() != 0
            &&& child_resolves(nodes, children[path[0] as int], path.skip(1), h)
        },
        _ => false,
    }
}

/// Whether looking up `path` under `root` resolves the node with hash `h`.
pub open spec fn lookup_resolves(nodes: Seq<Seq<u8>>, root: Seq<u8>, path: Seq<u8>, h: Seq<u8>) -> bool {
    &&& root != empty_root_hash()
    &&& (root == h || (resolve_in(nodes, root) is Some && walk_resolves(
        nodes,
        resolve_in(nodes, root)->Some_0,
        path,
        h,
    )))
}

/// Removing a node leaves every lookup of another hash as it was.
pub proof fn lemma_remove_keeps_other_hashes(nodes: Seq<Seq<u8>>, k: int, g: Seq<u8>)
    requires
        0 <= k < nodes.len(),
        keccak_of(nodes[k]) != g,
    ensures
        resolve_in(nodes.remove(k), g) == resolve_in(nodes, g),
    decreases nodes.len(),
{
    if k == 0 {
        assert(nodes.remove(0) == nodes.drop_first());
    } else {
        let rest = nodes.remove(k);
        assert(rest[0] == nodes[0]);
        assert(rest.drop_first() == nodes.drop_first().remove(k - 1));
        lemma_remove_keeps_other_hashes(nodes.drop_first(), k - 1, g);
    }
}

proof fn lemma_child_without_node(nodes: Seq<Seq<u8>>, k: int, c: Seq<u8>, path: Seq<u8>)
    requires
        0 <= k < nodes.len(),
        forall|i: int|
            0 <= i < nodes.len() && i != k ==> keccak_of(#[trigger] nodes[i]) != keccak_of(
                nodes[k],
            ),
        child_resolves(nodes, c, path, keccak_of(nodes[k])),
    ensures
        match child_node(nodes.remove(k), c) {
            Err(e) => e == TrieError::Incomplete,
            Ok(n) => walk(nodes.remove(k), n, path) == Err::<Option<Seq<u8>>, TrieError>(
                TrieError::Incomplete,
            ),
        },
    decreases path.len(), 1nat,
{
    let h = keccak_of(nodes[k]);
    if is_hash_ref(c) && c.skip(1) == h {
        lemma_removed_node_unresolvable(nodes, k);
    } else {
        if is_hash_ref(c) {
            lemma_remove_keeps_other_hashes(nodes, k, c.skip(1));
        }
        assert(child_node(nodes.remove(k), c) == child_node(nodes, c));
        lemma_walk_without_node(nodes, k, child_node(nodes, c)->Ok_0, path);
    }
}

proof fn lemma_walk_without_node(nodes: Seq<Seq<u8>>, k: int, node: Seq<u8>, path: Seq<u8>)
    requires
        0 <= k < nodes.len(),
        forall|i: int|
            0 <= i < nodes.len() && i != k ==> keccak_of(#[trigger] nodes[i]) != keccak_of(
                nodes[k],
            ),
        walk_resolves(nodes, node, path, keccak_of(nodes[k])),
    ensures
        walk(nodes.remove(k), node, path) == Err::<Option<Seq<u8>>, TrieError>(
            TrieError::Incomplete,
        ),
    decreases path.len(), 0nat,
{
    match trie_node_of(node) {
        Some(TrieNodeView::Extension { path: p, child }) => {
            lemma_child_without_node(nodes, k, child, path.skip(p.len() as int));
        },
        Some(TrieNodeView::Branch { children }) => {
            lemma_child_without_node(nodes, k, children[path[0] as int], path.skip(1));
        },
        _ => {},
    }
}

/// Removing from a witness the one node that a lookup resolves on its way
/// makes that lookup fail as incomplete: it never yields a default value.
pub proof fn lemma_lookup_without_path_node(nodes: Seq<Seq<u8>>, k: int, root: Seq<u8>, path: Seq<u8>)
    requires
        0 <= k < nodes.len(),
        forall|i: int|
            0 <= i < nodes.len() && i != k ==> keccak_of(#[trigger] nodes[i]) != keccak_of(
                nodes[k],
            ),
        lookup_resolves(nodes, root, path, keccak_of(nodes[k])),
    ensures
        lookup(nodes.remove(k), root, path) == Err::<Option<Seq<u8>>, TrieError>(
            TrieError::Incomplete,
        ),
{
    let h = keccak_of(nodes[k]);
    if root == h {
        lemma_removed_node_unresolvable(nodes, k);
    } else {
        lemma_remove_keeps_other_hashes(nodes, k, root);
        lemma_walk_without_node(nodes, k, resolve_in(nodes, root)->Some_0, path);
    }
}

/// Further nodes never change what a lookup by hash already finds.
pub proof fn lemma_extra_nodes_keep_resolution(nodes: Seq<Seq<u8>>, extra: Seq<Seq<u8>>, h: Seq<u8>)
    requires
        resolve_in(nodes, h) is Some,
    ensures
        resolve_in(nodes + extra, h) == resolve_in(nodes, h),
    decreases nodes.len(),
{
    assert((nodes + extra)[0] == nodes[0]);
    if keccak_of(nodes[0]) != h {
        assert((nodes + extra).drop_first() == nodes.drop_first() + extra);
        lemma_extra_nodes_keep_resolution(nodes.drop_first(), extra, h);
    }
}

proof fn lemma_extra_nodes_keep_walk(
    nodes: Seq<Seq<u8>>,
    extra: Seq<Seq<u8>>,
    node: Seq<u8>,
    path: Seq<u8>,
)
    requires
        walk(nodes, node, path) is Ok,
    ensures
        walk(nodes + extra, node, path) == walk(nodes, node, path),
    decreases path.len(),
{
    let all = nodes + extra;
    match trie_node_of(node) {
        Some(TrieNodeView::Extension { path: p, child }) => {
            if p.len() > 0 && p.len() <= path.len() && path.take(p.len() as int) == p {
                if is_hash_ref(child) {
                    lemma_extra_nodes_keep_resolution(nodes, extra, child.skip(1));
                }
                assert(child_node(all, child) == child_node(nodes, child));
                lemma_extra_nodes_keep_walk(
                    nodes,
                    extra,
                    child_node(nodes, child)->Ok_0,
                    path.skip(p.len() as int),
                );
            }
        },
        Some(TrieNodeView::Branch { children }) => {
            if !(path.len() == 0 || children.len() != 16 || path[0] >= 16)
                && children[path[0] as int].len() != 0 {
                let c = children[path[0] as int];
                if is_hash_ref(c) {
                    lemma_extra_nodes_keep_resolution(nodes, extra, c.skip(1));
                }
                assert(child_node(all, c) == child_node(nodes, c));
                lemma_extra_nodes_keep_walk(nodes, extra, child_node(nodes, c)->Ok_0, path.skip(1));
            }
        },
        _ => {},
    }
}

/// A lookup that the witness answers is answered by the nodes on its path:
/// adding further nodes to the witness leaves the answer as it was.
pub proof fn lemma_answer_fixed_by_witness(
    nodes: Seq<Seq<u8>>,
    extra: Seq<Seq<u8>>,
    root: Seq<u8>,
    path: Seq<u8>,
)
    requires
        lookup(nodes, root, path) is Ok,
    ensures
        lookup(nodes + extra, root, path) == lookup(nodes, root, path),
{
    if root != empty_root_hash() {
        lemma_extra_nodes_keep_resolution(nodes, extra, root);
        lemma_extra_nodes_keep_walk(nodes, extra, resolve_in(nodes, root)->Some_0, path);
    }
}

} // verus!
