//! The program input handed to a proving backend: the target block, its
//! ancestors, the reconstructed pre-state, the distinct bytecodes, the
//! transaction signers and the chain's configuration, framed as bytes.
use vstd::prelude::*;
use crate::bytes::bytes_eq;
use crate::hashing::{keccak, keccak_of};
use crate::header::{decode_header, parent_root_result, rlp_header_fields, AncestorError};
use crate::framing::{frame, frame_list, le64, push_frame, push_frame_list, push_u64};
use crate::state::{PartialState, ReconstructError};
use crate::signer::{recover_signers, signer_of};
use crate::witness::{BlockInfo, Witness};

verus! {

/// Fork activation times and the EIP-1559 elasticity multiplier of a chain.
#[derive(Debug, Clone, Copy, PartialEq, Eq, Structural)]
pub struct ChainConfig {
    pub chain_id: u64,
    pub shanghai_time: u64,
    pub cancun_time: u64,
    pub prague_time: u64,
    pub elasticity_multiplier: u64,
}

pub const MAINNET_CHAIN_ID: u64 = 1;

pub const MAINNET_SHANGHAI_TIME: u64 = 1681338455;

pub const MAINNET_CANCUN_TIME: u64 = 1710338135;

pub const MAINNET_PRAGUE_TIME: u64 = 1746612311;

pub const ELASTICITY_MULTIPLIER: u64 = 2;

/// The configurations this library knows by chain id.
pub open spec fn known_config(chain_id: u64) -> Option<ChainConfig> {
    if chain_id == MAINNET_CHAIN_ID {
        Some(
            ChainConfig {
                chain_id: MAINNET_CHAIN_ID,
                shanghai_time: MAINNET_SHANGHAI_TIME,
                cancun_time: MAINNET_CANCUN_TIME,
                prague_time: MAINNET_PRAGUE_TIME,
                elasticity_multiplier: ELASTICITY_MULTIPLIER,
            },
        )
    } else {
        None
    }
}

impl ChainConfig {
    /// The configuration of a known chain; `None` for any other id.
    pub fn for_chain(chain_id: u64) -> (r: Option<ChainConfig>)
        ensures
            r == known_config(chain_id),
    {
        if chain_id == MAINNET_CHAIN_ID {
            Some(
                ChainConfig {
                    chain_id: MAINNET_CHAIN_ID,
                    shanghai_time: MAINNET_SHANGHAI_TIME,
                    cancun_time: MAINNET_CANCUN_TIME,
                    prague_time: MAINNET_PRAGUE_TIME,
                    elasticity_multiplier: ELASTICITY_MULTIPLIER,
                },
            )
        } else {
            None
        }
    }

    pub open spec fn encoding(&self) -> Seq<u8> {
        le64(self.chain_id) + le64(self.shanghai_time) + le64(self.cancun_time) + le64(
            self.prague_time,
        ) + le64(self.elasticity_multiplier)
    }
}

/// The entries of `s` without repeats, each at its first occurrence.
pub open spec fn distinct_in_order(s: Seq<Seq<u8>>) -> Seq<Seq<u8>>
    decreases s.len(),
{
    if s.len() == 0 {
        Seq::empty()
    } else if distinct_in_order(s.drop_last()).contains(s.last()) {
        distinct_in_order(s.drop_last())
    } else {
        distinct_in_order(s.drop_last()).push(s.last())
    }
}

fn contains_bytes(list: &Vec<Vec<u8>>, b: &[u8]) -> (r: bool)
    ensures
        r == list.deep_view().contains(b@),
{
    let mut i: usize = 0;
    while i < list.len()
        invariant
            i <= list@.len(),
            forall|j: int| 0 <= j < i ==> list.deep_view()[j] != b@,
        decreases list@.len() - i,
    {
        if bytes_eq(list[i].as_slice(), b) {
            assert(list.deep_view()[i as int] == b@);
            return true;
        }
        assert(list.deep_view()[i as int] == list@[i as int]@);
        i = i + 1;
    }
    false
}

/// The bytecodes of a witness, each kept once, in order of first occurrence.
pub fn distinct_codes(codes: &Vec<Vec<u8>>) -> (r: Vec<Vec<u8>>)
    ensures
        r.deep_view() == distinct_in_order(codes.deep_view()),
{
    let mut out: Vec<Vec<u8>> = Vec::new();
    let mut i: usize = 0;
    while i < codes.len()
        invariant
            i <= codes@.len(),
            out.deep_view() == distinct_in_order(codes.deep_view().take(i as int)),
        decreases codes@.len() - i,
    {
        let ghost t = codes.deep_view().take(i + 1);
        assert(t.drop_last() == codes.deep_view().take(i as int));
        assert(t.last() == codes@[i as int]@);
        if !contains_bytes(&out, codes[i].as_slice()) {
            out.push(codes[i].clone());
            assert(out.deep_view() =~= distinct_in_order(t));
        }
        i = i + 1;
    }
    assert(codes.deep_view().take(i as int) == codes.deep_view());
    out
}

/// The target block: its RLP-encoded header and its body, with each
/// transaction EIP-2718 encoded and each ommer header and withdrawal RLP
/// encoded.
pub struct Block {
    pub header: Vec<u8>,
    pub transactions: Vec<Vec<u8>>,
    pub ommers: Vec<Vec<u8>>,
    pub withdrawals: Vec<Vec<u8>>,
}

impl Block {
    /// The block's header fields, if its header decodes.
    pub open spec fn fields(&self) -> Option<crate::header::HeaderFieldsView> {
        rlp_header_fields(self.header@)
    }

    /// The block's own hash: Keccak-256 of its header.
    pub open spec fn hash(&self) -> Seq<u8> {
        keccak_of(self.header@)
    }

    /// Number, hash and parent hash of the block, computed from its header.
    pub fn info(&self) -> (r: Option<BlockInfo>)
        ensures
            r is Some <==> self.fields() is Some,
            r matches Some(i) ==> {
                &&& i.number == self.fields()->Some_0.number
                &&& i.parent_hash@ == self.fields()->Some_0.parent_hash
                &&& i.hash@ == self.hash()
            },
    {
        match decode_header(self.header.as_slice()) {
            Some(h) => Some(
                BlockInfo { number: h.number, hash: keccak(self.header.as_slice()), parent_hash: h.parent_hash },
            ),
            None => None,
        }
    }
}

/// Everything a backend's guest program reads, owned.
pub struct ProgramInput {
    pub block: Block,
    pub info: BlockInfo,
    pub signers: Vec<Vec<u8>>,
    pub ancestors: Vec<Vec<u8>>,
    pub state: PartialState,
    pub codes: Vec<Vec<u8>>,
    pub config: ChainConfig,
}

/// Why no program input could be built.
#[derive(Debug, Clone, Copy, PartialEq, Eq, Structural)]
pub enum InputError {
    /// The signer list is not aligned with the transactions.
    SignerCount { transactions: usize, signers: usize },
    /// The target block's header does not decode.
    Header,
    /// The witness does not support the block's pre-state.
    Reconstruct(ReconstructError),
    /// The signer of the transaction at this position does not recover.
    Unrecoverable { index: usize },
}

impl ProgramInput {
    pub open spec fn wf(&self) -> bool {
        &&& self.state.wf()
        &&& self.signers@.len() == self.block.transactions@.len()
    }

    /// The bytes that cross into the guest program.
    pub open spec fn encoding(&self) -> Seq<u8> {
        le64(self.info.number) + frame(self.info.hash@) + frame(self.info.parent_hash@) + frame(
            self.block.header@,
        ) + frame_list(self.block.transactions.deep_view()) + frame_list(
            self.block.ommers.deep_view(),
        ) + frame_list(self.block.withdrawals.deep_view()) + frame_list(
            self.signers.deep_view(),
        ) + frame_list(self.ancestors.deep_view()) + frame(self.state.root@) + frame_list(
            self.state.store.view_nodes(),
        ) + frame_list(self.codes.deep_view()) + self.config.encoding()
    }

    /// What `build` makes of its arguments; `input` is the result.
    pub open spec fn built_from(
        input: &ProgramInput,
        block: &Block,
        signers: Seq<Seq<u8>>,
        witness: &Witness,
        config: ChainConfig,
    ) -> bool {
        &&& input.wf()
        &&& input.block.header@ == block.header@
        &&& input.block.transactions.deep_view() == block.transactions.deep_view()
        &&& input.block.ommers.deep_view() == block.ommers.deep_view()
        &&& input.block.withdrawals.deep_view() == block.withdrawals.deep_view()
        &&& block.fields() is Some
        &&& input.info.number == block.fields()->Some_0.number
        &&& input.info.parent_hash@ == block.fields()->Some_0.parent_hash
        &&& input.info.hash@ == block.hash()
        &&& input.signers.deep_view() == signers
        &&& input.ancestors.deep_view() == witness.headers.deep_view()
        &&& input.state.store.view_nodes() == witness.state.deep_view()
        &&& parent_root_result(witness.headers.deep_view(), block.fields()->Some_0.parent_hash)
            == Ok::<Seq<u8>, AncestorError>(input.state.root@)
        &&& input.codes.deep_view() == distinct_in_order(witness.codes.deep_view())
        &&& input.config == config
    }

    /// Builds the program input of a block from its witness, the signers of
    /// its transactions (aligned by position), and the chain's
    /// configuration. The block's pre-state root is trusted only from the
    /// ancestor that hashes to the parent hash in the block's header.
    pub fn build(block: Block, signers: Vec<Vec<u8>>, witness: Witness, config: ChainConfig) -> (r:
        Result<ProgramInput, InputError>)
        ensures
            r matches Ok(p) ==> ProgramInput::built_from(
                &p,
                &block,
                signers.deep_view(),
                &witness,
                config,
            ),
            r matches Err(InputError::SignerCount { transactions: t, signers: s }) ==> t
                == block.transactions@.len() && s == signers@.len() && t != s,
            signers@.len() != block.transactions@.len() ==> r is Err && r->Err_0 is SignerCount,
            r matches Err(InputError::Header) ==> block.fields() is None,
            signers@.len() == block.transactions@.len() && block.fields() is None ==> r is Err,
            r matches Err(InputError::Reconstruct(e)) ==> block.fields() is Some
                && PartialState::reconstruct_fails_with(
                witness.state.deep_view(),
                witness.headers.deep_view(),
                block.fields()->Some_0.parent_hash,
                e,
            ),
            signers@.len() == block.transactions@.len() && block.fields() is Some
                && !PartialState::reconstructs(
                witness.state.deep_view(),
                witness.headers.deep_view(),
                block.fields()->Some_0.parent_hash,
            ) ==> r is Err,
            !(r is Err && r->Err_0 is Unrecoverable),
    {
        if signers.len() != block.transactions.len() {
            return Err(
                InputError::SignerCount {
                    transactions: block.transactions.len(),
                    signers: signers.len(),
                },
            );
        }
        let info = match block.info() {
            Some(i) => i,
            None => {
                return Err(InputError::Header);
            },
        };
        let state = match PartialState::reconstruct(
            &witness.state,
            &witness.headers,
            info.parent_hash.as_slice(),
        ) {
            Ok(s) => s,
            Err(e) => {
                return Err(InputError::Reconstruct(e));
            },
        };
        let codes = distinct_codes(&witness.codes);
        let ghost w = witness;
        let Witness { state: _, codes: _, headers, keys: _ } = witness;
        assert(headers.deep_view() == w.headers.deep_view());
        Ok(ProgramInput { block, info, signers, ancestors: headers, state, codes, config })
    }

    /// Builds the program input as `build` does, recovering each
    /// transaction's signer from its signature first.
    pub fn build_recovering(block: Block, witness: Witness, config: ChainConfig) -> (r: Result<
        ProgramInput,
        InputError,
    >)
        ensures
            r matches Ok(p) ==> {
                &&& ProgramInput::built_from(&p, &block, p.signers.deep_view(), &witness, config)
                &&& forall|i: int|
                    0 <= i < block.transactions@.len() ==> signer_of(
                        #[trigger] block.transactions@[i]@,
                    ) == Some(p.signers@[i]@)
            },
            r matches Err(InputError::Unrecoverable { index }) ==> index
                < block.transactions@.len() && signer_of(block.transactions@[index as int]@) is None,
            r matches Err(InputError::Header) ==> block.fields() is None,
            r matches Err(InputError::Reconstruct(e)) ==> block.fields() is Some
                && PartialState::reconstruct_fails_with(
                witness.state.deep_view(),
                witness.headers.deep_view(),
                block.fields()->Some_0.parent_hash,
                e,
            ),
            !(r is Err && r->Err_0 is SignerCount),
    {
        let signers = match recover_signers(&block.transactions) {
            Ok(s) => s,
            Err(index) => {
                return Err(InputError::Unrecoverable { index });
            },
        };
        let ghost sv = signers;
        let ghost tv = block.transactions;
        let r = ProgramInput::build(block, signers, witness, config);
        proof {
            if r is Ok {
                let p = r->Ok_0;
                assert(p.signers.deep_view() == sv.deep_view());
                assert(p.signers@.len() == sv@.len());
                assert forall|i: int| 0 <= i < tv@.len() implies signer_of(#[trigger] tv@[i]@)
                    == Some(p.signers@[i]@) by {
                    assert(p.signers.deep_view()[i] == sv.deep_view()[i]);
                    assert(p.signers.deep_view()[i] == p.signers@[i]@);
                    assert(sv.deep_view()[i] == sv@[i]@);
                }
            }
        }
        r
    }

    /// Frames the input as bytes.
    pub fn encode(&self) -> (r: Vec<u8>)
        ensures
            r@ == self.encoding(),
    {
        let mut out: Vec<u8> = Vec::new();
        push_u64(&mut out, self.info.number);
        push_frame(&mut out, self.info.hash.as_slice());
        push_frame(&mut out, self.info.parent_hash.as_slice());
        push_frame(&mut out, self.block.header.as_slice());
        push_frame_list(&mut out, &self.block.transactions);
        push_frame_list(&mut out, &self.block.ommers);
        push_frame_list(&mut out, &self.block.withdrawals);
        push_frame_list(&mut out, &self.signers);
        push_frame_list(&mut out, &self.ancestors);
        push_frame(&mut out, self.state.root.as_slice());
        self.state.store.push_nodes_framed(&mut out);
        push_frame_list(&mut out, &self.codes);
        push_u64(&mut out, self.config.chain_id);
        push_u64(&mut out, self.config.shanghai_time);
        push_u64(&mut out, self.config.cancun_time);
        push_u64(&mut out, self.config.prague_time);
        push_u64(&mut out, self.config.elasticity_multiplier);
        assert(out@ =~= self.encoding());
        out
    }
}

/// Building is a function of the arguments: two inputs built from the same
/// block, signers, witness and configuration frame to the same bytes.
pub proof fn lemma_build_deterministic(
    a: &ProgramInput,
    b: &ProgramInput,
    block: &Block,
    signers: Seq<Seq<u8>>,
    witness: &Witness,
    config: ChainConfig,
)
    requires
        ProgramInput::built_from(a, block, signers, witness, config),
        ProgramInput::built_from(b, block, signers, witness, config),
    ensures
        a.encoding() == b.encoding(),
{
}

/// A built input keeps the target block's header, and the hash it carries
/// is recomputed from that header rather than taken on trust.
pub proof fn lemma_input_hash_from_kept_header(
    p: &ProgramInput,
    block: &Block,
    signers: Seq<Seq<u8>>,
    witness: &Witness,
    config: ChainConfig,
)
    requires
        ProgramInput::built_from(p, block, signers, witness, config),
    ensures
        p.info.hash@ == keccak_of(p.block.header@),
        rlp_header_fields(p.block.header@) is Some,
        p.info.parent_hash@ == rlp_header_fields(p.block.header@)->Some_0.parent_hash,
{
}

} // verus!
