//! An execution witness and the block facts that go with it, decoded from
//! the hexadecimal text of a JSON-RPC payload.
use vstd::prelude::*;
use vstd::utf8::encode_utf8;
use crate::hexcodec::{data_result, decode_data, decode_data_list, parse_quantity, quantity_result, ParseError};

verus! {

/// Trie nodes, bytecodes, RLP ancestor headers (earliest first) and touched
/// keys, as raw bytes.
pub struct Witness {
    pub state: Vec<Vec<u8>>,
    pub codes: Vec<Vec<u8>>,
    pub headers: Vec<Vec<u8>>,
    pub keys: Vec<Vec<u8>>,
}

/// The list of a witness payload in which an entry did not decode.
#[derive(Debug, Clone, Copy, PartialEq, Eq, Structural)]
pub enum WitnessList {
    State,
    Codes,
    Headers,
    Keys,
}

/// An entry of a witness payload that is not a `0x`-prefixed byte string.
#[derive(Debug, Clone, Copy, PartialEq, Eq, Structural)]
pub struct WitnessParseError {
    pub list: WitnessList,
    pub index: usize,
    pub error: ParseError,
}

pub open spec fn list_decodes(items: Seq<String>) -> bool {
    forall|i: int| 0 <= i < items.len() ==> (#[trigger] data_result(encode_utf8(items[i]@))) is Ok
}

pub open spec fn list_decoded_as(items: Seq<String>, out: Seq<Seq<u8>>) -> bool {
    &&& out.len() == items.len()
    &&& forall|i: int|
        0 <= i < items.len() ==> data_result(encode_utf8(#[trigger] items[i]@)) == Ok::<
            Seq<u8>,
            ParseError,
        >(out[i])
}

pub open spec fn entry_fails(items: Seq<String>, index: usize, e: ParseError) -> bool {
    index < items.len() && data_result(encode_utf8(items[index as int]@)) == Err::<
        Seq<u8>,
        ParseError,
    >(e)
}

fn decode_list(items: &Vec<String>, list: WitnessList) -> (r: Result<Vec<Vec<u8>>, WitnessParseError>)
    ensures
        r is Ok <==> list_decodes(items@),
        r matches Ok(v) ==> list_decoded_as(items@, v.deep_view()),
        r matches Err(e) ==> e.list == list && entry_fails(items@, e.index, e.error),
{
    match decode_data_list(items) {
        Ok(v) => {
            assert(list_decoded_as(items@, v.deep_view())) by {
                assert forall|i: int| 0 <= i < items@.len() implies data_result(
                    encode_utf8(#[trigger] items@[i]@),
                ) == Ok::<Seq<u8>, ParseError>(v.deep_view()[i]) by {
                    assert(v.deep_view()[i] == v@[i]@);
                    assert(data_result(encode_utf8(items@[i]@)) == Ok::<Seq<u8>, ParseError>(
                        v@[i]@,
                    ));
                }
            }
            Ok(v)
        },
        Err((index, error)) => Err(WitnessParseError { list, index, error }),
    }
}

impl Witness {
    /// Decodes the four hexadecimal lists of a witness payload; the first
    /// entry, in list order, that does not decode is reported.
    pub fn from_hex_lists(
        state: &Vec<String>,
        codes: &Vec<String>,
        headers: &Vec<String>,
        keys: &Vec<String>,
    ) -> (r: Result<Witness, WitnessParseError>)
        ensures
            r is Ok <==> (list_decodes(state@) && list_decodes(codes@) && list_decodes(headers@)
                && list_decodes(keys@)),
            r matches Ok(w) ==> {
                &&& list_decoded_as(state@, w.state.deep_view())
                &&& list_decoded_as(codes@, w.codes.deep_view())
                &&& list_decoded_as(headers@, w.headers.deep_view())
                &&& list_decoded_as(keys@, w.keys.deep_view())
            },
            r matches Err(e) ==> match e.list {
                WitnessList::State => entry_fails(state@, e.index, e.error),
                WitnessList::Codes => list_decodes(state@) && entry_fails(codes@, e.index, e.error),
                WitnessList::Headers => list_decodes(state@) && list_decodes(codes@)
                    && entry_fails(headers@, e.index, e.error),
                WitnessList::Keys => list_decodes(state@) && list_decodes(codes@) && list_decodes(
                    headers@,
                ) && entry_fails(keys@, e.index, e.error),
            },
    {
        let state = decode_list(state, WitnessList::State)?;
        let codes = decode_list(codes, WitnessList::Codes)?;
        let headers = decode_list(headers, WitnessList::Headers)?;
        let keys = decode_list(keys, WitnessList::Keys)?;
        Ok(Witness { state, codes, headers, keys })
    }
}

/// The facts of the target block that the pipeline reads.
pub struct BlockInfo {
    pub number: u64,
    pub hash: Vec<u8>,
    pub parent_hash: Vec<u8>,
}

/// Which block field did not parse.
#[derive(Debug, Clone, Copy, PartialEq, Eq, Structural)]
pub enum BlockField {
    Number,
    Hash,
    ParentHash,
}

#[derive(Debug, Clone, Copy, PartialEq, Eq, Structural)]
pub struct BlockParseError {
    pub field: BlockField,
    pub error: ParseError,
}

impl BlockInfo {
    /// Reads the block number (a `0x` quantity) and the two hashes (`0x`
    /// byte strings) of a JSON-RPC block, in that order.
    pub fn from_rpc_fields(number: &str, hash: &str, parent_hash: &str) -> (r: Result<
        BlockInfo,
        BlockParseError,
    >)
        ensures
            r matches Ok(b) ==> {
                &&& quantity_result(encode_utf8(number@)) == Ok::<u64, ParseError>(b.number)
                &&& data_result(encode_utf8(hash@)) == Ok::<Seq<u8>, ParseError>(b.hash@)
                &&& data_result(encode_utf8(parent_hash@)) == Ok::<Seq<u8>, ParseError>(
                    b.parent_hash@,
                )
            },
            r matches Err(e) ==> match e.field {
                BlockField::Number => quantity_result(encode_utf8(number@)) == Err::<
                    u64,
                    ParseError,
                >(e.error),
                BlockField::Hash => quantity_result(encode_utf8(number@)) is Ok && data_result(
                    encode_utf8(hash@),
                ) == Err::<Seq<u8>, ParseError>(e.error),
                BlockField::ParentHash => quantity_result(encode_utf8(number@)) is Ok
                    && data_result(encode_utf8(hash@)) is Ok && data_result(
                    encode_utf8(parent_hash@),
                ) == Err::<Seq<u8>, ParseError>(e.error),
            },
    {
        let number = match parse_quantity(number) {
            Ok(n) => n,
            Err(error) => {
                return Err(BlockParseError { field: BlockField::Number, error });
            },
        };
        let hash = match decode_data(hash) {
            Ok(h) => h,
            Err(error) => {
                return Err(BlockParseError { field: BlockField::Hash, error });
            },
        };
        let parent_hash = match decode_data(parent_hash) {
            Ok(h) => h,
            Err(error) => {
                return Err(BlockParseError { field: BlockField::ParentHash, error });
            },
        };
        Ok(BlockInfo { number, hash, parent_hash })
    }
}

} // verus!
