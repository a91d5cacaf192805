use alloy_consensus::transaction::SignerRecoverable;
use alloy_consensus::{SignableTransaction, TxEnvelope, TxLegacy};
use alloy_eips::eip2718::Encodable2718;
use alloy_primitives::{Address, Signature, TxKind, U256};
use zkbench::input::{Block, ChainConfig, InputError, ProgramInput};
use zkbench::signer::recover_signers;
use zkbench::witness::Witness;

const GX: &str = "79be667ef9dcbbac55a06295ce870b07029bfcdb2dce28d959f2815b16f81798";

fn signed_tx(nonce: u64) -> (Vec<u8>, Vec<u8>) {
    let tx = TxLegacy {
        chain_id: Some(1),
        nonce,
        gas_price: 1_000_000_000,
        gas_limit: 21_000,
        to: TxKind::Call(Address::ZERO),
        value: U256::from(1u64),
        input: Default::default(),
    };
    let r = U256::from_be_slice(&hex::decode(GX).unwrap());
    let sig = Signature::new(r, U256::from(1u64), false);
    let envelope: TxEnvelope = tx.into_signed(sig).into();
    let signer = envelope.recover_signer().unwrap();
    (envelope.encoded_2718(), signer.to_vec())
}

#[test]
fn signers_recovered_in_order() {
    let (t0, s0) = signed_tx(0);
    let (t1, s1) = signed_tx(1);
    assert_eq!(s0.len(), 20);
    assert_ne!(s0, t0[..20].to_vec());
    assert_eq!(recover_signers(&vec![t0, t1]), Ok(vec![s0, s1]));
    assert_eq!(recover_signers(&vec![]), Ok(vec![]));
}

#[test]
fn unrecoverable_signer_is_reported() {
    let (t0, _) = signed_tx(0);
    assert_eq!(recover_signers(&vec![t0, vec![0x01, 0x02]]), Err(1));
    let block = Block {
        header: alloy_rlp::encode(alloy_consensus::Header::default()),
        transactions: vec![vec![0xff]],
        ommers: vec![],
        withdrawals: vec![],
    };
    let witness = Witness { state: vec![], codes: vec![], headers: vec![], keys: vec![] };
    let config = ChainConfig::for_chain(1).unwrap();
    let r = ProgramInput::build_recovering(block, witness, config);
    assert!(matches!(r, Err(InputError::Unrecoverable { index: 0 })));
}
