use alloy_consensus::Header;
use alloy_primitives::B256;
use zkbench::backend::{check_proof, verify, Backend, VerifyError};
use zkbench::input::{distinct_codes, Block, ChainConfig, InputError, ProgramInput};
use zkbench::runner::{Action, Run, Stage, StageEvent};
use zkbench::witness::Witness;

fn keccak(b: &[u8]) -> Vec<u8> {
    alloy_primitives::keccak256(b).to_vec()
}

fn sample(parent_ok: bool, transactions: Vec<Vec<u8>>) -> (Block, Witness) {
    let root_node = vec![0xc2, 0x80, 0x80];
    let h = Header {
        number: 20,
        state_root: B256::from_slice(&keccak(&root_node)),
        ..Default::default()
    };
    let parent = alloy_rlp::encode(&h);
    let parent_hash = if parent_ok { keccak(&parent) } else { vec![0u8; 32] };
    let target = Header {
        number: 21,
        parent_hash: B256::from_slice(&parent_hash),
        gas_limit: 30_000_000,
        timestamp: 1_746_612_400,
        ..Default::default()
    };
    let block = Block {
        header: alloy_rlp::encode(&target),
        transactions,
        ommers: vec![],
        withdrawals: vec![vec![0xd8, 0x01, 0x02]],
    };
    let witness = Witness {
        state: vec![root_node],
        codes: vec![vec![0x60, 0x01], vec![0x00], vec![0x60, 0x01]],
        headers: vec![parent],
        keys: vec![],
    };
    (block, witness)
}

#[test]
fn mainnet_configuration() {
    let c = ChainConfig::for_chain(1).unwrap();
    assert_eq!(c.chain_id, 1);
    assert_eq!(c.shanghai_time, 1681338455);
    assert_eq!(c.cancun_time, 1710338135);
    assert_eq!(c.prague_time, 1746612311);
    assert_eq!(c.elasticity_multiplier, 2);
    assert!(ChainConfig::for_chain(17000).is_none());
}

#[test]
fn codes_deduplicated_in_order() {
    let codes = vec![vec![1], vec![2, 2], vec![1], vec![], vec![2, 2], vec![]];
    assert_eq!(distinct_codes(&codes), vec![vec![1], vec![2, 2], vec![]]);
    assert!(distinct_codes(&vec![]).is_empty());
}

#[test]
fn build_rejects_misaligned_signers() {
    let (block, witness) = sample(true, vec![vec![1], vec![2]]);
    let config = ChainConfig::for_chain(1).unwrap();
    let r = ProgramInput::build(block, vec![vec![9; 20]], witness, config);
    assert!(matches!(r, Err(InputError::SignerCount { transactions: 2, signers: 1 })));
}

#[test]
fn build_rejects_wrong_parent() {
    let (block, witness) = sample(false, vec![]);
    let config = ChainConfig::for_chain(1).unwrap();
    let r = ProgramInput::build(block, vec![], witness, config);
    assert!(matches!(r, Err(InputError::Reconstruct(_))));
    let (mut block, witness) = sample(true, vec![]);
    block.header = vec![0x01, 0x02];
    let r = ProgramInput::build(block, vec![], witness, config);
    assert!(matches!(r, Err(InputError::Header)));
}

#[test]
fn build_is_deterministic() {
    let config = ChainConfig::for_chain(1).unwrap();
    let txs = vec![vec![0x02, 0xf8]];
    let (b1, w1) = sample(true, txs.clone());
    let (b2, w2) = sample(true, txs.clone());
    let header = b1.header.clone();
    let signers = vec![vec![0x11; 20]];
    let p1 = ProgramInput::build(b1, signers.clone(), w1, config).unwrap();
    let p2 = ProgramInput::build(b2, signers, w2, config).unwrap();
    assert_eq!(p1.codes, vec![vec![0x60, 0x01], vec![0x00]]);
    assert_eq!(p1.block.header, header);
    assert_eq!(p1.block.transactions, txs);
    assert_eq!(p1.block.withdrawals, vec![vec![0xd8, 0x01, 0x02]]);
    assert_eq!(p1.info.hash, keccak(&header));
    assert_eq!(p1.info.number, 21);
    let bytes = p1.encode();
    assert_eq!(bytes, p2.encode());
    assert_eq!(bytes, p1.encode());
    assert_eq!(&bytes[0..8], &21u64.to_le_bytes());
    assert_eq!(&bytes[8..16], &32u64.to_le_bytes());
    assert_eq!(&bytes[bytes.len() - 8..], &2u64.to_le_bytes());
}

#[test]
fn proof_judgements() {
    let expected = vec![7u8; 32];
    assert_eq!(check_proof(true, &expected, &expected), Ok(()));
    assert_eq!(check_proof(false, &expected, &expected), Err(VerifyError::InvalidProof));
    assert_eq!(check_proof(true, &[7u8; 31], &expected), Err(VerifyError::CommitmentMismatch));
    assert_eq!(check_proof(true, &[7u8; 3], &[7u8; 3]), Ok(()));
    assert_eq!(check_proof(false, &[8u8; 3], &[7u8; 3]), Err(VerifyError::InvalidProof));
    assert_eq!(check_proof(true, &[8u8; 32], &expected), Err(VerifyError::CommitmentMismatch));
}

#[test]
fn verify_fails_on_any_mutated_byte() {
    let expected: Vec<u8> = (0u8..32).collect();
    assert!(verify(&expected, &expected));
    assert!(verify(&[], &[]));
    assert!(!verify(&expected[..31], &expected));
    for i in 0..32 {
        let mut changed = expected.clone();
        changed[i] ^= 0x80;
        assert!(!verify(&expected, &changed));
    }
}

#[test]
fn run_stages_in_order_and_total_is_sum() {
    let mut run = Run::new();
    let nanos = [1_999_999u64, 2_000_000, 3_500_000, 0, 10_000_000, 250_999_999, 1];
    let next = [
        Action::Start(Stage::Witness),
        Action::Start(Stage::BuildInput),
        Action::Start(Stage::Validate),
        Action::Start(Stage::Execute),
        Action::Start(Stage::Prove),
        Action::Start(Stage::Verify),
        Action::Report,
    ];
    for k in 0..7 {
        assert!(run.finish(1, 1, Backend::Risc0, 0).is_none());
        assert_eq!(run.step(StageEvent::Done { nanos: nanos[k] }), next[k]);
    }
    let r = run.finish(19_283_279, 1, Backend::Risc0, 12345).unwrap();
    assert_eq!(r.stage_ms, vec![1, 2, 3, 0, 10, 250, 0]);
    assert_eq!(r.total_ms, 266);
    assert_eq!(r.block_number, 19_283_279);
    assert_eq!(r.cycles, 12345);
    assert_eq!(r.backend, Backend::Risc0);
}

#[test]
fn run_aborts_naming_failed_stage() {
    let mut run = Run::new();
    assert_eq!(run.step(StageEvent::Done { nanos: 5 }), Action::Start(Stage::Witness));
    assert_eq!(run.step(StageEvent::Done { nanos: 5 }), Action::Start(Stage::BuildInput));
    assert_eq!(run.step(StageEvent::Failed), Action::Abort(Stage::BuildInput));
    assert!(run.finish(1, 1, Backend::Sp1, 0).is_none());
}

#[test]
fn default_result_file_names() {
    let mut run = Run::new();
    for _ in 0..7 {
        run.step(StageEvent::Done { nanos: 0 });
    }
    let r = run.finish(19_283_279, 1, Backend::Risc0, 0).unwrap();
    assert_eq!(r.default_file_name(), b"zeth_bench_19283279.json".to_vec());
    let r = run.finish(0, 1, Backend::Sp1, 0).unwrap();
    assert_eq!(r.default_file_name(), b"rsp_bench_0.json".to_vec());
    let r = run.finish(u64::MAX, 1, Backend::Sp1, 0).unwrap();
    assert_eq!(r.default_file_name(), b"rsp_bench_18446744073709551615.json".to_vec());
}
