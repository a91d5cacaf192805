use alloy_consensus::Header;
use alloy_primitives::B256;
use zkbench::header::{decode_header, parent_state_root, AncestorError};
use zkbench::state::{NodeStore, PartialState, ReconstructError, WitnessIncomplete};

fn keccak(b: &[u8]) -> Vec<u8> {
    alloy_primitives::keccak256(b).to_vec()
}

const EMPTY_KECCAK: &str = "c5d2460186f7233c927e7db2dcc703c0e500b653ca82273b7bfad8045d85a470";

fn header_rlp(number: u64, state_root: &[u8]) -> Vec<u8> {
    let h = Header {
        number,
        state_root: B256::from_slice(state_root),
        gas_limit: 30_000_000,
        timestamp: 1_710_338_135,
        ..Default::default()
    };
    alloy_rlp::encode(&h)
}

#[test]
fn keccak_of_empty_input() {
    assert_eq!(hex::encode(keccak(&[])), EMPTY_KECCAK);
}

#[test]
fn header_decodes_fields() {
    let root = keccak(&[0xc0]);
    let bytes = header_rlp(42, &root);
    let h = decode_header(&bytes).unwrap();
    assert_eq!(h.number, 42);
    assert_eq!(h.state_root, root);
    assert_eq!(h.parent_hash, vec![0u8; 32]);
    assert!(decode_header(&[0x01, 0x02]).is_none());
}

#[test]
fn header_round_trip() {
    let bytes = header_rlp(7, &keccak(b"root"));
    assert!(decode_header(&bytes).is_some());
    let decoded: Header = alloy_rlp::Decodable::decode(&mut bytes.as_slice()).unwrap();
    assert_eq!(alloy_rlp::encode(&decoded), bytes);
}

#[test]
fn parent_root_checks_the_parent_hash() {
    let node = vec![0xc0];
    let root = keccak(&node);
    let parent = header_rlp(99, &root);
    let parent_hash = keccak(&parent);
    assert_eq!(parent_state_root(&vec![parent.clone()], &parent_hash), Ok(root.clone()));
    let mut wrong = parent_hash.clone();
    wrong[0] ^= 1;
    assert_eq!(parent_state_root(&vec![parent.clone()], &wrong), Err(AncestorError::NotParent));
    assert_eq!(parent_state_root(&vec![], &parent_hash), Err(AncestorError::NoHeaders));
    assert_eq!(
        parent_state_root(&vec![parent, vec![0x05]], &parent_hash),
        Err(AncestorError::Undecodable { index: 1 })
    );
}

#[test]
fn store_resolves_each_node() {
    let nodes = vec![vec![0xc0], vec![0xc1, 0x80], vec![0xc2, 0x80, 0x80]];
    let store = NodeStore::from_nodes(&nodes);
    for n in &nodes {
        assert_eq!(store.resolve(&keccak(n)), Ok(n));
    }
    assert_eq!(store.resolve(&keccak(b"absent")), Err(WitnessIncomplete));
}

#[test]
fn removed_node_is_witness_incomplete() {
    let mut nodes = vec![vec![0xc0], vec![0xc1, 0x80], vec![0xc2, 0x80, 0x80]];
    let gone = nodes.remove(1);
    let store = NodeStore::from_nodes(&nodes);
    assert_eq!(store.resolve(&keccak(&gone)), Err(WitnessIncomplete));
}

#[test]
fn reconstruct_from_witness() {
    let root_node = vec![0xc2, 0x80, 0x80];
    let root = keccak(&root_node);
    let parent = header_rlp(10, &root);
    let parent_hash = keccak(&parent);
    let state = vec![vec![0xc0], root_node.clone()];
    let p = PartialState::reconstruct(&state, &vec![parent.clone()], &parent_hash).unwrap();
    assert_eq!(p.root, root);
    assert_eq!(p.node(&root), Ok(&root_node));
    assert_eq!(p.node(&keccak(b"x")), Err(WitnessIncomplete));

    let missing = PartialState::reconstruct(&vec![vec![0xc0]], &vec![parent.clone()], &parent_hash);
    assert!(matches!(missing, Err(ReconstructError::Incomplete(WitnessIncomplete))));

    let not_parent = PartialState::reconstruct(&state, &vec![parent], &root);
    assert!(matches!(not_parent, Err(ReconstructError::Ancestors(AncestorError::NotParent))));
}
