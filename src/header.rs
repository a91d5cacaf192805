//! Ancestor headers of an execution witness, RLP-encoded, earliest first.
use vstd::prelude::*;
use crate::bytes::bytes_eq;
use crate::hashing::{keccak, keccak_of};

verus! {

/// The fields of a block header that state reconstruction reads.
#[derive(Debug)]
pub struct HeaderFields {
    pub number: u64,
    pub parent_hash: Vec<u8>,
    pub state_root: Vec<u8>,
}

pub struct HeaderFieldsView {
    pub number: u64,
    pub parent_hash: Seq<u8>,
    pub state_root: Seq<u8>,
}

impl View for HeaderFields {
    type V = HeaderFieldsView;

    open spec fn view(&self) -> HeaderFieldsView {
        HeaderFieldsView {
            number: self.number,
            parent_hash: self.parent_hash@,
            state_root: self.state_root@,
        }
    }
}

/// The header that an RLP byte string decodes to, if it decodes.
pub uninterp spec fn rlp_header_fields(b: Seq<u8>) -> Option<HeaderFieldsView>;

/// Relies on `<alloy_consensus::Header as alloy_rlp::Decodable>::decode`:
/// decoding depends on the bytes alone; the fields are moved out unchanged.
#[verifier::external_body]
fn decode_header_rlp(b: &[u8]) -> (r: Option<HeaderFields>)
    ensures
        r matches Some(h) ==> rlp_header_fields(b@) == Some(h@),
        r is None ==> rlp_header_fields(b@) is None,
{
    let mut buf = b;
    match <alloy_consensus::Header as alloy_rlp::Decodable>::decode(&mut buf) {
        Ok(h) => Some(
            HeaderFields {
                number: h.number,
                parent_hash: h.parent_hash.to_vec(),
                state_root: h.state_root.to_vec(),
            },
        ),
        Err(_) => None,
    }
}

/// Decodes one RLP-encoded block header.
pub fn decode_header(b: &[u8]) -> (r: Option<HeaderFields>)
    ensures
        r matches Some(h) ==> rlp_header_fields(b@) == Some(h@),
        r is None ==> rlp_header_fields(b@) is None,
{
    decode_header_rlp(b)
}

/// Why the witness does not yield a root to reconstruct state from.
#[derive(Debug, Clone, Copy, PartialEq, Eq, Structural)]
pub enum AncestorError {
    /// The ancestor header at this position is not a valid RLP header.
    Undecodable { index: usize },
    /// The witness carries no ancestor header.
    NoHeaders,
    /// The earliest ancestor is not the parent that the block declares.
    NotParent,
}

pub open spec fn all_decode(hs: Seq<Seq<u8>>) -> bool {
    forall|i: int| 0 <= i < hs.len() ==> (#[trigger] rlp_header_fields(hs[i])) is Some
}

/// The state root that reconstruction starts from, given the ancestor
/// headers and the block's declared parent hash.
pub open spec fn parent_root_result(hs: Seq<Seq<u8>>, parent_hash: Seq<u8>) -> Result<
    Seq<u8>,
    AncestorError,
> {
    if hs.len() == 0 {
        Err(AncestorError::NoHeaders)
    } else if keccak_of(hs[0]) != parent_hash {
        Err(AncestorError::NotParent)
    } else {
        Ok(rlp_header_fields(hs[0])->Some_0.state_root)
    }
}

/// Decodes every ancestor header, checks that the earliest one hashes to the
/// block's declared parent hash, and returns that header's state root.
pub fn parent_state_root(headers: &Vec<Vec<u8>>, parent_hash: &[u8]) -> (r: Result<
    Vec<u8>,
    AncestorError,
>)
    ensures
        r matches Err(AncestorError::Undecodable { index }) ==> index < headers@.len()
            && rlp_header_fields(headers@[index as int]@) is None && all_decode(
            headers.deep_view().take(index as int),
        ),
        !(r is Err && r->Err_0 is Undecodable) ==> all_decode(headers.deep_view()),
        all_decode(headers.deep_view()) ==> match r {
            Ok(root) => parent_root_result(headers.deep_view(), parent_hash@) == Ok::<
                Seq<u8>,
                AncestorError,
            >(root@),
            Err(e) => parent_root_result(headers.deep_view(), parent_hash@) == Err::<
                Seq<u8>,
                AncestorError,
            >(e),
        },
{
    let ghost hs = headers.deep_view();
    let mut first: Option<HeaderFields> = None;
    let mut i: usize = 0;
    while i < headers.len()
        invariant
            hs == headers.deep_view(),
            i <= headers@.len(),
            all_decode(hs.take(i as int)),
            i > 0 ==> (first matches Some(h) && rlp_header_fields(hs[0]) == Some(h@)),
        decreases headers@.len() - i,
    {
        assert(hs[i as int] == headers@[i as int]@);
        match decode_header(headers[i].as_slice()) {
            Some(h) => {
                if i == 0 {
                    first = Some(h);
                }
            },
            None => {
                return Err(AncestorError::Undecodable { index: i });
            },
        }
        assert(all_decode(hs.take(i + 1))) by {
            assert forall|k: int| 0 <= k < i + 1 implies (#[trigger] rlp_header_fields(
                hs.take(i + 1)[k],
            )) is Some by {
                if k < i {
                    assert(hs.take(i + 1)[k] == hs.take(i as int)[k]);
                }
            }
        }
        i = i + 1;
    }
    assert(hs.take(i as int) == hs);
    if headers.len() == 0 {
        return Err(AncestorError::NoHeaders);
    }
    let earliest_hash = keccak(headers[0].as_slice());
    assert(hs[0] == headers@[0]@);
    if !bytes_eq(earliest_hash.as_slice(), parent_hash) {
        return Err(AncestorError::NotParent);
    }
    match first {
        Some(h) => Ok(h.state_root),
        None => Err(AncestorError::NoHeaders),
    }
}

} // verus!
