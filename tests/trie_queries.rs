use alloy_consensus::Header;
use alloy_primitives::{keccak256, B256, U256};
use alloy_trie::nodes::{BranchNode, LeafNode, RlpNode, TrieNode};
use alloy_trie::{Nibbles, TrieAccount, TrieMask, EMPTY_ROOT_HASH, KECCAK_EMPTY};
use zkbench::state::PartialState;
use zkbench::trie::{nibbles, TrieError};

fn enc(n: &TrieNode) -> Vec<u8> {
    alloy_rlp::encode(n)
}

fn first_nibble(address: &[u8]) -> u8 {
    keccak256(address)[0] >> 4
}

fn leaf(key: &[u8], value: Vec<u8>, skip: usize) -> Vec<u8> {
    let path = Nibbles::unpack(keccak256(key)).slice(skip..);
    enc(&TrieNode::Leaf(LeafNode::new(path, value)))
}

struct World {
    nodes: Vec<Vec<u8>>,
    header: Vec<u8>,
    a: Vec<u8>,
    b: Vec<u8>,
    absent: Vec<u8>,
    storage_leaf: Vec<u8>,
    leaf_a: Vec<u8>,
    storage_root: B256,
}

fn world() -> World {
    let a = vec![0x11u8; 20];
    let na = first_nibble(&a);
    let b = (0x12u8..=0xff).map(|x| vec![x; 20]).find(|x| first_nibble(x) != na).unwrap();
    let nb = first_nibble(&b);
    let absent = (0x12u8..=0xff)
        .map(|x| vec![x; 20])
        .find(|x| first_nibble(x) != na && first_nibble(x) != nb)
        .unwrap();

    let slot = [0u8; 32];
    let storage_leaf = leaf(&slot, alloy_rlp::encode(U256::from(42u64)), 0);
    let storage_root = keccak256(&storage_leaf);

    let account_a = TrieAccount {
        nonce: 7,
        balance: U256::from(1000u64),
        storage_root,
        code_hash: KECCAK_EMPTY,
    };
    let account_b = TrieAccount {
        nonce: 1,
        balance: U256::from(5u64),
        storage_root: EMPTY_ROOT_HASH,
        code_hash: KECCAK_EMPTY,
    };
    let leaf_a = leaf(&a, alloy_rlp::encode(account_a), 1);
    let leaf_b = leaf(&b, alloy_rlp::encode(account_b), 1);
    let (first, second) = if na < nb { (&leaf_a, &leaf_b) } else { (&leaf_b, &leaf_a) };
    let branch = enc(&TrieNode::Branch(BranchNode::new(
        vec![RlpNode::from_rlp(first), RlpNode::from_rlp(second)],
        TrieMask::new((1u16 << na) | (1u16 << nb)),
    )));
    let root = keccak256(&branch);
    let header = alloy_rlp::encode(Header { number: 5, state_root: root, ..Default::default() });
    World {
        nodes: vec![branch, leaf_a.clone(), leaf_b, storage_leaf.clone()],
        header,
        a,
        b,
        absent,
        storage_leaf,
        leaf_a,
        storage_root,
    }
}

fn state_of(w: &World, nodes: &Vec<Vec<u8>>) -> PartialState {
    let parent_hash = keccak256(&w.header).to_vec();
    PartialState::reconstruct(nodes, &vec![w.header.clone()], &parent_hash).unwrap()
}

fn word(v: u64) -> Vec<u8> {
    U256::from(v).to_be_bytes::<32>().to_vec()
}

#[test]
fn nibbles_split_bytes() {
    assert_eq!(nibbles(&[0xab, 0x01]), vec![0xa, 0xb, 0x0, 0x1]);
    assert!(nibbles(&[]).is_empty());
}

#[test]
fn accounts_read_from_witness() {
    let w = world();
    let s = state_of(&w, &w.nodes);
    let a = s.account(&w.a).unwrap().unwrap();
    assert_eq!(a.nonce, 7);
    assert_eq!(a.balance, word(1000));
    assert_eq!(a.storage_root, w.storage_root.to_vec());
    assert_eq!(a.code_hash, KECCAK_EMPTY.to_vec());
    let b = s.account(&w.b).unwrap().unwrap();
    assert_eq!(b.nonce, 1);
    assert_eq!(b.balance, word(5));
    assert!(s.account(&w.absent).unwrap().is_none());
}

#[test]
fn storage_read_from_witness() {
    let w = world();
    let s = state_of(&w, &w.nodes);
    assert_eq!(s.storage(&w.a, &[0u8; 32]), Ok(Some(word(42))));
    let mut other = [0u8; 32];
    other[31] = 1;
    assert_eq!(s.storage(&w.a, &other), Ok(None));
    assert_eq!(s.storage(&w.b, &[0u8; 32]), Ok(None));
    assert_eq!(s.storage(&w.absent, &[0u8; 32]), Ok(None));
}

#[test]
fn missing_account_leaf_is_incomplete() {
    let w = world();
    let nodes: Vec<Vec<u8>> = w.nodes.iter().filter(|n| **n != w.leaf_a).cloned().collect();
    let s = state_of(&w, &nodes);
    assert!(matches!(s.account(&w.a), Err(TrieError::Incomplete)));
    assert!(matches!(s.storage(&w.a, &[0u8; 32]), Err(TrieError::Incomplete)));
    assert_eq!(s.account(&w.b).unwrap().unwrap().nonce, 1);
}

#[test]
fn missing_storage_leaf_is_incomplete() {
    let w = world();
    let nodes: Vec<Vec<u8>> = w.nodes.iter().filter(|n| **n != w.storage_leaf).cloned().collect();
    let s = state_of(&w, &nodes);
    assert_eq!(s.storage(&w.a, &[0u8; 32]), Err(TrieError::Incomplete));
    assert_eq!(s.account(&w.a).unwrap().unwrap().nonce, 7);
}

#[test]
fn malformed_node_is_reported() {
    let w = world();
    let lone = vec![0xc3u8, 0x01, 0x02, 0x03];
    let h = alloy_rlp::encode(Header { state_root: keccak256(&lone), ..Default::default() });
    let p = PartialState::reconstruct(&vec![lone], &vec![h.clone()], keccak256(&h).as_slice()).unwrap();
    assert_eq!(p.account(&w.a).err(), Some(TrieError::Malformed));
}

#[test]
fn extra_nodes_leave_answers_unchanged() {
    let w = world();
    let mut nodes = w.nodes.clone();
    nodes.push(vec![0xc0]);
    nodes.push(vec![0x80]);
    nodes.push(alloy_rlp::encode(Header { number: 1, ..Default::default() }));
    let base = state_of(&w, &w.nodes);
    let more = state_of(&w, &nodes);
    assert_eq!(more.account(&w.a).unwrap().unwrap().balance, base.account(&w.a).unwrap().unwrap().balance);
    assert_eq!(more.storage(&w.a, &[0u8; 32]), base.storage(&w.a, &[0u8; 32]));
    assert!(more.account(&w.absent).unwrap().is_none());
}

#[test]
fn oversized_compact_key_is_malformed() {
    let w = world();
    // A two-item node whose key is a 34-byte string, then one whose 33-byte
    // key carries the odd flag: both would unpack to more than 64 nibbles.
    let mut long = vec![0xe4, 0xa2, 0x20];
    long.extend_from_slice(&[0u8; 33]);
    long.push(0x80);
    let mut odd = vec![0xe3, 0xa1, 0x3a];
    odd.extend_from_slice(&[0u8; 32]);
    odd.push(0x80);
    for node in [long, odd] {
        let h = alloy_rlp::encode(Header { state_root: keccak256(&node), ..Default::default() });
        let p = PartialState::reconstruct(&vec![node], &vec![h.clone()], keccak256(&h).as_slice())
            .unwrap();
        assert_eq!(p.account(&w.a).err(), Some(TrieError::Malformed));
    }
}
