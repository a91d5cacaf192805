//! Transaction signers, recovered from each signature over the signing hash.
use vstd::prelude::*;

verus! {

/// The address that signed an EIP-2718 encoded transaction, if its
/// signature recovers.
pub uninterp spec fn signer_of(tx: Seq<u8>) -> Option<Seq<u8>>;

/// Relies on `Decodable2718::decode_2718` for `alloy_consensus::TxEnvelope`
/// followed by `SignerRecoverable::recover_signer`: the outcome depends on
/// the bytes alone, and an address is 20 bytes.
#[verifier::external_body]
fn recover_signer_of(tx: &[u8]) -> (r: Option<Vec<u8>>)
    ensures
        r matches Some(a) ==> signer_of(tx@) == Some(a@) && a@.len() == 20,
        r is None ==> signer_of(tx@) is None,
{
    let mut buf = tx;
    match <alloy_consensus::TxEnvelope as alloy_eips::eip2718::Decodable2718>::decode_2718(
        &mut buf,
    ) {
        Ok(envelope) => match alloy_consensus::transaction::SignerRecoverable::recover_signer(
            &envelope,
        ) {
            Ok(address) => Some(address.to_vec()),
            Err(_) => None,
        },
        Err(_) => None,
    }
}

/// The signer of every transaction, aligned by position; the position of
/// the first transaction whose signer does not recover otherwise.
pub fn recover_signers(txs: &Vec<Vec<u8>>) -> (r: Result<Vec<Vec<u8>>, usize>)
    ensures
        r matches Ok(v) ==> v@.len() == txs@.len() && forall|i: int|
            0 <= i < txs@.len() ==> signer_of(#[trigger] txs@[i]@) == Some(v@[i]@),
        r matches Err(k) ==> k < txs@.len() && signer_of(txs@[k as int]@) is None && forall|i: int|
            0 <= i < k ==> (#[trigger] signer_of(txs@[i]@)) is Some,
{
    let mut out: Vec<Vec<u8>> = Vec::new();
    let mut i: usize = 0;
    while i < txs.len()
        invariant
            i <= txs@.len(),
            out@.len() == i,
            forall|j: int| 0 <= j < i ==> signer_of(#[trigger] txs@[j]@) == Some(out@[j]@),
        decreases txs@.len() - i,
    {
        match recover_signer_of(txs[i].as_slice()) {
            Some(a) => out.push(a),
            None => {
                return Err(i);
            },
        }
        i = i + 1;
    }
    Ok(out)
}

} // verus!
