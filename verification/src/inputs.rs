use vstd::prelude::*;

use crate::error::DecodeError;
use crate::field::{Digest, SepticDigest, Val, Word};
use crate::maps::{ChipOrdering, EntryOrder, chip_ordering_entries, encode_map};
use crate::proof_types::ShardProof;
use crate::serialize::SerializeProof;

verus! {

/// The dimensions of a matrix.
#[derive(Clone, Copy, Debug, PartialEq, Eq)]
pub struct Dimensions {
    /// Number of columns.
    pub width: usize,
    /// Number of rows.
    pub height: usize,
}

// Written as the pair of its width and height.
impl SerializeProof for Dimensions {
    type Model = <(usize, usize) as SerializeProof>::Model;

    open spec fn model(&self) -> Self::Model {
        (self.width.model(), self.height.model())
    }

    closed spec fn encodable(m: Self::Model) -> bool {
        <(usize, usize) as SerializeProof>::encodable(m)
    }

    closed spec fn encode(m: Self::Model) -> Seq<u8> {
        <(usize, usize) as SerializeProof>::encode(m)
    }

    closed spec fn parse(s: Seq<u8>) -> Result<(Self::Model, nat), DecodeError> {
        <(usize, usize) as SerializeProof>::parse(s)
    }

    proof fn lemma_parse_encode(m: Self::Model, rest: Seq<u8>) {
        <(usize, usize) as SerializeProof>::lemma_parse_encode(m, rest);
    }

    proof fn lemma_parse_len(s: Seq<u8>) {
        <(usize, usize) as SerializeProof>::lemma_parse_len(s);
    }

    proof fn lemma_parse_encodable(s: Seq<u8>) {
        <(usize, usize) as SerializeProof>::lemma_parse_encodable(s);
    }

    fn to_bytes(self, w: &mut Vec<u8>) -> (written: usize) {
        let Dimensions { width, height } = self;
        (width, height).to_bytes(w)
    }

    fn from_bytes(buffer: &[u8], pos: usize) -> (r: Result<(Self, usize), DecodeError>) {
        let ((width, height), n) = <(usize, usize) as SerializeProof>::from_bytes(
            buffer,
            pos,
        )?;
        Ok((Dimensions { width, height }, n))
    }
}

/// Dimensions are written width, then height.
pub proof fn law_dimensions_layout(v: &Dimensions)
    ensures
        Dimensions::encode(v.model()) == <usize as SerializeProof>::encode(v.width.model())
            + <usize as SerializeProof>::encode(v.height.model()),
{
    assert(Dimensions::encode(v.model()) =~= <usize as SerializeProof>::encode(v.width.model())
        + <usize as SerializeProof>::encode(v.height.model()));
}

/// A coset of a two-adic multiplicative subgroup.
#[derive(Clone, Copy, Debug, PartialEq, Eq)]
pub struct TwoAdicMultiplicativeCoset {
    /// Base-2 logarithm of the coset's size.
    pub log_n: usize,
    /// The coset's shift.
    pub shift: Val,
}

// Written as the pair of its size and shift.
impl SerializeProof for TwoAdicMultiplicativeCoset {
    type Model = <(usize, Val) as SerializeProof>::Model;

    open spec fn model(&self) -> Self::Model {
        (self.log_n.model(), self.shift.model())
    }

    closed spec fn encodable(m: Self::Model) -> bool {
        <(usize, Val) as SerializeProof>::encodable(m)
    }

    closed spec fn encode(m: Self::Model) -> Seq<u8> {
        <(usize, Val) as SerializeProof>::encode(m)
    }

    closed spec fn parse(s: Seq<u8>) -> Result<(Self::Model, nat), DecodeError> {
        <(usize, Val) as SerializeProof>::parse(s)
    }

    proof fn lemma_parse_encode(m: Self::Model, rest: Seq<u8>) {
        <(usize, Val) as SerializeProof>::lemma_parse_encode(m, rest);
    }

    proof fn lemma_parse_len(s: Seq<u8>) {
        <(usize, Val) as SerializeProof>::lemma_parse_len(s);
    }

    proof fn lemma_parse_encodable(s: Seq<u8>) {
        <(usize, Val) as SerializeProof>::lemma_parse_encodable(s);
    }

    fn to_bytes(self, w: &mut Vec<u8>) -> (written: usize) {
        let TwoAdicMultiplicativeCoset { log_n, shift } = self;
        (log_n, shift).to_bytes(w)
    }

    fn from_bytes(buffer: &[u8], pos: usize) -> (r: Result<(Self, usize), DecodeError>) {
        let ((log_n, shift), n) = <(usize, Val) as SerializeProof>::from_bytes(
            buffer,
            pos,
        )?;
        Ok((TwoAdicMultiplicativeCoset { log_n, shift }, n))
    }
}

/// A coset is written its size's logarithm, then its shift.
pub proof fn law_two_adic_multiplicative_coset_layout(v: &TwoAdicMultiplicativeCoset)
    ensures
        TwoAdicMultiplicativeCoset::encode(v.model()) == <usize as SerializeProof>::encode(v.log_n.model())
            + <Val as SerializeProof>::encode(v.shift.model()),
{
    assert(TwoAdicMultiplicativeCoset::encode(v.model()) =~= <usize as SerializeProof>::encode(v.log_n.model())
        + <Val as SerializeProof>::encode(v.shift.model()));
}

/// The verifying key of a STARK machine.
#[derive(Debug)]
pub struct StarkVerifyingKey {
    /// Commitment to the preprocessed traces.
    pub commit: Digest,
    /// The program's start address.
    pub pc_start: Val,
    /// The starting global digest.
    pub initial_global_cumulative_sum: SepticDigest,
    /// Name, domain and dimensions of each preprocessed chip.
    pub chip_information: Vec<(String, TwoAdicMultiplicativeCoset, Dimensions)>,
    /// Index of each chip, by name.
    pub chip_ordering: ChipOrdering,
}

// Written as its five fields one after the other; the chip ordering is sorted by name.
impl SerializeProof for StarkVerifyingKey {
    type Model = <(Digest, Val, SepticDigest, Vec<(String, TwoAdicMultiplicativeCoset, Dimensions)>, ChipOrdering) as SerializeProof>::Model;

    open spec fn model(&self) -> Self::Model {
        (self.commit.model(), self.pc_start.model(), self.initial_global_cumulative_sum.model(), self.chip_information.model(), self.chip_ordering.model())
    }

    closed spec fn encodable(m: Self::Model) -> bool {
        <(Digest, Val, SepticDigest, Vec<(String, TwoAdicMultiplicativeCoset, Dimensions)>, ChipOrdering) as SerializeProof>::encodable(m)
    }

    closed spec fn encode(m: Self::Model) -> Seq<u8> {
        <(Digest, Val, SepticDigest, Vec<(String, TwoAdicMultiplicativeCoset, Dimensions)>, ChipOrdering) as SerializeProof>::encode(m)
    }

    closed spec fn parse(s: Seq<u8>) -> Result<(Self::Model, nat), DecodeError> {
        <(Digest, Val, SepticDigest, Vec<(String, TwoAdicMultiplicativeCoset, Dimensions)>, ChipOrdering) as SerializeProof>::parse(s)
    }

    proof fn lemma_parse_encode(m: Self::Model, rest: Seq<u8>) {
        <(Digest, Val, SepticDigest, Vec<(String, TwoAdicMultiplicativeCoset, Dimensions)>, ChipOrdering) as SerializeProof>::lemma_parse_encode(m, rest);
    }

    proof fn lemma_parse_len(s: Seq<u8>) {
        <(Digest, Val, SepticDigest, Vec<(String, TwoAdicMultiplicativeCoset, Dimensions)>, ChipOrdering) as SerializeProof>::lemma_parse_len(s);
    }

    proof fn lemma_parse_encodable(s: Seq<u8>) {
        <(Digest, Val, SepticDigest, Vec<(String, TwoAdicMultiplicativeCoset, Dimensions)>, ChipOrdering) as SerializeProof>::lemma_parse_encodable(s);
    }

    fn to_bytes(self, w: &mut Vec<u8>) -> (written: usize) {
        let StarkVerifyingKey { commit, pc_start, initial_global_cumulative_sum, chip_information, chip_ordering } = self;
        (commit, pc_start, initial_global_cumulative_sum, chip_information, chip_ordering).to_bytes(w)
    }

    fn from_bytes(buffer: &[u8], pos: usize) -> (r: Result<(Self, usize), DecodeError>) {
        let ((commit, pc_start, initial_global_cumulative_sum, chip_information, chip_ordering), n) = <(Digest, Val, SepticDigest, Vec<(String, TwoAdicMultiplicativeCoset, Dimensions)>, ChipOrdering) as SerializeProof>::from_bytes(
            buffer,
            pos,
        )?;
        Ok((StarkVerifyingKey { commit, pc_start, initial_global_cumulative_sum, chip_information, chip_ordering }, n))
    }
}

/// A verifying key is written commitment, start address, starting digest, chip information, then the chip ordering sorted by name.
pub proof fn law_stark_verifying_key_layout(v: &StarkVerifyingKey)
    ensures
        StarkVerifyingKey::encode(v.model()) == <Digest as SerializeProof>::encode(v.commit.model())
            + <Val as SerializeProof>::encode(v.pc_start.model())
            + <SepticDigest as SerializeProof>::encode(v.initial_global_cumulative_sum.model())
            + <Vec<(String, TwoAdicMultiplicativeCoset, Dimensions)> as SerializeProof>::encode(v.chip_information.model())
            + encode_map(chip_ordering_entries(v.chip_ordering), EntryOrder::ByKey),
{
    assert(StarkVerifyingKey::encode(v.model()) =~= <Digest as SerializeProof>::encode(v.commit.model())
        + <Val as SerializeProof>::encode(v.pc_start.model())
        + <SepticDigest as SerializeProof>::encode(v.initial_global_cumulative_sum.model())
        + <Vec<(String, TwoAdicMultiplicativeCoset, Dimensions)> as SerializeProof>::encode(v.chip_information.model())
        + encode_map(chip_ordering_entries(v.chip_ordering), EntryOrder::ByKey));
}

/// The witness of a recursion step over core shard proofs.
#[derive(Debug)]
pub struct SP1RecursionWitnessValues {
    /// The verifying key of the shards.
    pub vk: StarkVerifyingKey,
    /// The shard proofs to verify.
    pub shard_proofs: Vec<ShardProof>,
    /// Whether these shards complete the execution.
    pub is_complete: bool,
    /// Whether the first proof is of the first shard.
    pub is_first_shard: bool,
    /// Root of the tree of allowed verifying keys.
    pub vk_root: [Val; 8],
    /// Digest of the deferred proofs so far.
    pub reconstruct_deferred_digest: [Val; 8],
}

// Written as the pair of the triples of its six fields, in order.
impl SerializeProof for SP1RecursionWitnessValues {
    type Model = <((StarkVerifyingKey, Vec<ShardProof>, bool), (bool, [Val; 8], [Val; 8])) as SerializeProof>::Model;

    open spec fn model(&self) -> Self::Model {
        ((self.vk.model(), self.shard_proofs.model(), self.is_complete.model()), (self.is_first_shard.model(), self.vk_root.model(), self.reconstruct_deferred_digest.model()))
    }

    closed spec fn encodable(m: Self::Model) -> bool {
        <((StarkVerifyingKey, Vec<ShardProof>, bool), (bool, [Val; 8], [Val; 8])) as SerializeProof>::encodable(m)
    }

    closed spec fn encode(m: Self::Model) -> Seq<u8> {
        <((StarkVerifyingKey, Vec<ShardProof>, bool), (bool, [Val; 8], [Val; 8])) as SerializeProof>::encode(m)
    }

    closed spec fn parse(s: Seq<u8>) -> Result<(Self::Model, nat), DecodeError> {
        <((StarkVerifyingKey, Vec<ShardProof>, bool), (bool, [Val; 8], [Val; 8])) as SerializeProof>::parse(s)
    }

    proof fn lemma_parse_encode(m: Self::Model, rest: Seq<u8>) {
        <((StarkVerifyingKey, Vec<ShardProof>, bool), (bool, [Val; 8], [Val; 8])) as SerializeProof>::lemma_parse_encode(m, rest);
    }

    proof fn lemma_parse_len(s: Seq<u8>) {
        <((StarkVerifyingKey, Vec<ShardProof>, bool), (bool, [Val; 8], [Val; 8])) as SerializeProof>::lemma_parse_len(s);
    }

    proof fn lemma_parse_encodable(s: Seq<u8>) {
        <((StarkVerifyingKey, Vec<ShardProof>, bool), (bool, [Val; 8], [Val; 8])) as SerializeProof>::lemma_parse_encodable(s);
    }

    fn to_bytes(self, w: &mut Vec<u8>) -> (written: usize) {
        let SP1RecursionWitnessValues { vk, shard_proofs, is_complete, is_first_shard, vk_root, reconstruct_deferred_digest } = self;
        ((vk, shard_proofs, is_complete), (is_first_shard, vk_root, reconstruct_deferred_digest)).to_bytes(w)
    }

    fn from_bytes(buffer: &[u8], pos: usize) -> (r: Result<(Self, usize), DecodeError>) {
        let (((vk, shard_proofs, is_complete), (is_first_shard, vk_root, reconstruct_deferred_digest)), n) = <((StarkVerifyingKey, Vec<ShardProof>, bool), (bool, [Val; 8], [Val; 8])) as SerializeProof>::from_bytes(
            buffer,
            pos,
        )?;
        Ok((SP1RecursionWitnessValues { vk, shard_proofs, is_complete, is_first_shard, vk_root, reconstruct_deferred_digest }, n))
    }
}

/// A recursion witness is written key, shard proofs, completeness flag, first-shard flag, key root, then deferred digest.
pub proof fn law_sp1_recursion_witness_values_layout(v: &SP1RecursionWitnessValues)
    ensures
        SP1RecursionWitnessValues::encode(v.model()) == <StarkVerifyingKey as SerializeProof>::encode(v.vk.model())
            + <Vec<ShardProof> as SerializeProof>::encode(v.shard_proofs.model())
            + <bool as SerializeProof>::encode(v.is_complete.model())
            + <bool as SerializeProof>::encode(v.is_first_shard.model())
            + <[Val; 8] as SerializeProof>::encode(v.vk_root.model())
            + <[Val; 8] as SerializeProof>::encode(v.reconstruct_deferred_digest.model()),
{
    assert(SP1RecursionWitnessValues::encode(v.model()) =~= <StarkVerifyingKey as SerializeProof>::encode(v.vk.model())
        + <Vec<ShardProof> as SerializeProof>::encode(v.shard_proofs.model())
        + <bool as SerializeProof>::encode(v.is_complete.model())
        + <bool as SerializeProof>::encode(v.is_first_shard.model())
        + <[Val; 8] as SerializeProof>::encode(v.vk_root.model())
        + <[Val; 8] as SerializeProof>::encode(v.reconstruct_deferred_digest.model()));
}

/// A Merkle path to one leaf.
#[derive(Clone, Debug)]
pub struct MerkleProof {
    /// Position of the leaf.
    pub index: usize,
    /// Sibling digests from the leaf up.
    pub path: Vec<[Val; 8]>,
}

// Written as the pair of its index and path.
impl SerializeProof for MerkleProof {
    type Model = <(usize, Vec<[Val; 8]>) as SerializeProof>::Model;

    open spec fn model(&self) -> Self::Model {
        (self.index.model(), self.path.model())
    }

    closed spec fn encodable(m: Self::Model) -> bool {
        <(usize, Vec<[Val; 8]>) as SerializeProof>::encodable(m)
    }

    closed spec fn encode(m: Self::Model) -> Seq<u8> {
        <(usize, Vec<[Val; 8]>) as SerializeProof>::encode(m)
    }

    closed spec fn parse(s: Seq<u8>) -> Result<(Self::Model, nat), DecodeError> {
        <(usize, Vec<[Val; 8]>) as SerializeProof>::parse(s)
    }

    proof fn lemma_parse_encode(m: Self::Model, rest: Seq<u8>) {
        <(usize, Vec<[Val; 8]>) as SerializeProof>::lemma_parse_encode(m, rest);
    }

    proof fn lemma_parse_len(s: Seq<u8>) {
        <(usize, Vec<[Val; 8]>) as SerializeProof>::lemma_parse_len(s);
    }

    proof fn lemma_parse_encodable(s: Seq<u8>) {
        <(usize, Vec<[Val; 8]>) as SerializeProof>::lemma_parse_encodable(s);
    }

    fn to_bytes(self, w: &mut Vec<u8>) -> (written: usize) {
        let MerkleProof { index, path } = self;
        (index, path).to_bytes(w)
    }

    fn from_bytes(buffer: &[u8], pos: usize) -> (r: Result<(Self, usize), DecodeError>) {
        let ((index, path), n) = <(usize, Vec<[Val; 8]>) as SerializeProof>::from_bytes(
            buffer,
            pos,
        )?;
        Ok((MerkleProof { index, path }, n))
    }
}

/// A Merkle proof is written index, then path.
pub proof fn law_merkle_proof_layout(v: &MerkleProof)
    ensures
        MerkleProof::encode(v.model()) == <usize as SerializeProof>::encode(v.index.model())
            + <Vec<[Val; 8]> as SerializeProof>::encode(v.path.model()),
{
    assert(MerkleProof::encode(v.model()) =~= <usize as SerializeProof>::encode(v.index.model())
        + <Vec<[Val; 8]> as SerializeProof>::encode(v.path.model()));
}

/// Proofs that verifying keys belong to the tree of allowed keys.
#[derive(Clone, Debug)]
pub struct SP1MerkleProofWitnessValues {
    /// A path for each verifying key.
    pub vk_merkle_proofs: Vec<MerkleProof>,
    /// The digests of the verifying keys.
    pub values: Vec<[Val; 8]>,
    /// The root of the tree.
    pub root: [Val; 8],
}

// Written as the triple of its fields.
impl SerializeProof for SP1MerkleProofWitnessValues {
    type Model = <(Vec<MerkleProof>, Vec<[Val; 8]>, [Val; 8]) as SerializeProof>::Model;

    open spec fn model(&self) -> Self::Model {
        (self.vk_merkle_proofs.model(), self.values.model(), self.root.model())
    }

    closed spec fn encodable(m: Self::Model) -> bool {
        <(Vec<MerkleProof>, Vec<[Val; 8]>, [Val; 8]) as SerializeProof>::encodable(m)
    }

    closed spec fn encode(m: Self::Model) -> Seq<u8> {
        <(Vec<MerkleProof>, Vec<[Val; 8]>, [Val; 8]) as SerializeProof>::encode(m)
    }

    closed spec fn parse(s: Seq<u8>) -> Result<(Self::Model, nat), DecodeError> {
        <(Vec<MerkleProof>, Vec<[Val; 8]>, [Val; 8]) as SerializeProof>::parse(s)
    }

    proof fn lemma_parse_encode(m: Self::Model, rest: Seq<u8>) {
        <(Vec<MerkleProof>, Vec<[Val; 8]>, [Val; 8]) as SerializeProof>::lemma_parse_encode(m, rest);
    }

    proof fn lemma_parse_len(s: Seq<u8>) {
        <(Vec<MerkleProof>, Vec<[Val; 8]>, [Val; 8]) as SerializeProof>::lemma_parse_len(s);
    }

    proof fn lemma_parse_encodable(s: Seq<u8>) {
        <(Vec<MerkleProof>, Vec<[Val; 8]>, [Val; 8]) as SerializeProof>::lemma_parse_encodable(s);
    }

    fn to_bytes(self, w: &mut Vec<u8>) -> (written: usize) {
        let SP1MerkleProofWitnessValues { vk_merkle_proofs, values, root } = self;
        (vk_merkle_proofs, values, root).to_bytes(w)
    }

    fn from_bytes(buffer: &[u8], pos: usize) -> (r: Result<(Self, usize), DecodeError>) {
        let ((vk_merkle_proofs, values, root), n) = <(Vec<MerkleProof>, Vec<[Val; 8]>, [Val; 8]) as SerializeProof>::from_bytes(
            buffer,
            pos,
        )?;
        Ok((SP1MerkleProofWitnessValues { vk_merkle_proofs, values, root }, n))
    }
}

/// Key membership is written paths, digests, then root.
pub proof fn law_sp1_merkle_proof_witness_values_layout(v: &SP1MerkleProofWitnessValues)
    ensures
        SP1MerkleProofWitnessValues::encode(v.model()) == <Vec<MerkleProof> as SerializeProof>::encode(v.vk_merkle_proofs.model())
            + <Vec<[Val; 8]> as SerializeProof>::encode(v.values.model())
            + <[Val; 8] as SerializeProof>::encode(v.root.model()),
{
    assert(SP1MerkleProofWitnessValues::encode(v.model()) =~= <Vec<MerkleProof> as SerializeProof>::encode(v.vk_merkle_proofs.model())
        + <Vec<[Val; 8]> as SerializeProof>::encode(v.values.model())
        + <[Val; 8] as SerializeProof>::encode(v.root.model()));
}

/// The witness of a recursion step over deferred proofs.
#[derive(Debug)]
pub struct SP1DeferredWitnessValues {
    /// The deferred proofs with their keys.
    pub vks_and_proofs: Vec<(StarkVerifyingKey, ShardProof)>,
    /// Membership of the keys.
    pub vk_merkle_data: SP1MerkleProofWitnessValues,
    /// Digest of the deferred proofs before these.
    pub start_reconstruct_deferred_digest: [Val; 8],
    /// Digest of the program's verifying key.
    pub sp1_vk_digest: [Val; 8],
    /// Digest of the committed values.
    pub committed_value_digest: [Word<Val>; 8],
    /// Digest of the deferred proofs.
    pub deferred_proofs_digest: [Val; 8],
    /// Program counter at the end.
    pub end_pc: Val,
    /// Shard number at the end.
    pub end_shard: Val,
    /// Execution shard number at the end.
    pub end_execution_shard: Val,
    /// Bits of the last initialized address.
    pub init_addr_bits: [Val; 32],
    /// Bits of the last finalized address.
    pub finalize_addr_bits: [Val; 32],
    /// Whether the execution is complete.
    pub is_complete: bool,
}

// Written as a quadruple of tuples of its twelve fields, in order.
impl SerializeProof for SP1DeferredWitnessValues {
    type Model = <((Vec<(StarkVerifyingKey, ShardProof)>, SP1MerkleProofWitnessValues, [Val; 8]), ([Val; 8], [Word<Val>; 8], [Val; 8]), (Val, Val, Val, [Val; 32]), ([Val; 32], bool)) as SerializeProof>::Model;

    open spec fn model(&self) -> Self::Model {
        ((self.vks_and_proofs.model(), self.vk_merkle_data.model(), self.start_reconstruct_deferred_digest.model()), (self.sp1_vk_digest.model(), self.committed_value_digest.model(), self.deferred_proofs_digest.model()), (self.end_pc.model(), self.end_shard.model(), self.end_execution_shard.model(), self.init_addr_bits.model()), (self.finalize_addr_bits.model(), self.is_complete.model()))
    }

    closed spec fn encodable(m: Self::Model) -> bool {
        <((Vec<(StarkVerifyingKey, ShardProof)>, SP1MerkleProofWitnessValues, [Val; 8]), ([Val; 8], [Word<Val>; 8], [Val; 8]), (Val, Val, Val, [Val; 32]), ([Val; 32], bool)) as SerializeProof>::encodable(m)
    }

    closed spec fn encode(m: Self::Model) -> Seq<u8> {
        <((Vec<(StarkVerifyingKey, ShardProof)>, SP1MerkleProofWitnessValues, [Val; 8]), ([Val; 8], [Word<Val>; 8], [Val; 8]), (Val, Val, Val, [Val; 32]), ([Val; 32], bool)) as SerializeProof>::encode(m)
    }

    closed spec fn parse(s: Seq<u8>) -> Result<(Self::Model, nat), DecodeError> {
        <((Vec<(StarkVerifyingKey, ShardProof)>, SP1MerkleProofWitnessValues, [Val; 8]), ([Val; 8], [Word<Val>; 8], [Val; 8]), (Val, Val, Val, [Val; 32]), ([Val; 32], bool)) as SerializeProof>::parse(s)
    }

    proof fn lemma_parse_encode(m: Self::Model, rest: Seq<u8>) {
        <((Vec<(StarkVerifyingKey, ShardProof)>, SP1MerkleProofWitnessValues, [Val; 8]), ([Val; 8], [Word<Val>; 8], [Val; 8]), (Val, Val, Val, [Val; 32]), ([Val; 32], bool)) as SerializeProof>::lemma_parse_encode(m, rest);
    }

    proof fn lemma_parse_len(s: Seq<u8>) {
        <((Vec<(StarkVerifyingKey, ShardProof)>, SP1MerkleProofWitnessValues, [Val; 8]), ([Val; 8], [Word<Val>; 8], [Val; 8]), (Val, Val, Val, [Val; 32]), ([Val; 32], bool)) as SerializeProof>::lemma_parse_len(s);
    }

    proof fn lemma_parse_encodable(s: Seq<u8>) {
        <((Vec<(StarkVerifyingKey, ShardProof)>, SP1MerkleProofWitnessValues, [Val; 8]), ([Val; 8], [Word<Val>; 8], [Val; 8]), (Val, Val, Val, [Val; 32]), ([Val; 32], bool)) as SerializeProof>::lemma_parse_encodable(s);
    }

    fn to_bytes(self, w: &mut Vec<u8>) -> (written: usize) {
        let SP1DeferredWitnessValues { vks_and_proofs, vk_merkle_data, start_reconstruct_deferred_digest, sp1_vk_digest, committed_value_digest, deferred_proofs_digest, end_pc, end_shard, end_execution_shard, init_addr_bits, finalize_addr_bits, is_complete } = self;
        ((vks_and_proofs, vk_merkle_data, start_reconstruct_deferred_digest), (sp1_vk_digest, committed_value_digest, deferred_proofs_digest), (end_pc, end_shard, end_execution_shard, init_addr_bits), (finalize_addr_bits, is_complete)).to_bytes(w)
    }

    fn from_bytes(buffer: &[u8], pos: usize) -> (r: Result<(Self, usize), DecodeError>) {
        let (((vks_and_proofs, vk_merkle_data, start_reconstruct_deferred_digest), (sp1_vk_digest, committed_value_digest, deferred_proofs_digest), (end_pc, end_shard, end_execution_shard, init_addr_bits), (finalize_addr_bits, is_complete)), n) = <((Vec<(StarkVerifyingKey, ShardProof)>, SP1MerkleProofWitnessValues, [Val; 8]), ([Val; 8], [Word<Val>; 8], [Val; 8]), (Val, Val, Val, [Val; 32]), ([Val; 32], bool)) as SerializeProof>::from_bytes(
            buffer,
            pos,
        )?;
        Ok((SP1DeferredWitnessValues { vks_and_proofs, vk_merkle_data, start_reconstruct_deferred_digest, sp1_vk_digest, committed_value_digest, deferred_proofs_digest, end_pc, end_shard, end_execution_shard, init_addr_bits, finalize_addr_bits, is_complete }, n))
    }
}

/// A deferred witness is written its twelve fields in declared order: proofs with keys, key membership, start digest, program key digest, committed value digest, deferred proofs digest, end pc, end shard, end execution shard, init and finalize address bits, completeness flag.
pub proof fn law_sp1_deferred_witness_values_layout(v: &SP1DeferredWitnessValues)
    ensures
        SP1DeferredWitnessValues::encode(v.model()) == <Vec<(StarkVerifyingKey, ShardProof)> as SerializeProof>::encode(v.vks_and_proofs.model())
            + <SP1MerkleProofWitnessValues as SerializeProof>::encode(v.vk_merkle_data.model())
            + <[Val; 8] as SerializeProof>::encode(v.start_reconstruct_deferred_digest.model())
            + <[Val; 8] as SerializeProof>::encode(v.sp1_vk_digest.model())
            + <[Word<Val>; 8] as SerializeProof>::encode(v.committed_value_digest.model())
            + <[Val; 8] as SerializeProof>::encode(v.deferred_proofs_digest.model())
            + <Val as SerializeProof>::encode(v.end_pc.model())
            + <Val as SerializeProof>::encode(v.end_shard.model())
            + <Val as SerializeProof>::encode(v.end_execution_shard.model())
            + <[Val; 32] as SerializeProof>::encode(v.init_addr_bits.model())
            + <[Val; 32] as SerializeProof>::encode(v.finalize_addr_bits.model())
            + <bool as SerializeProof>::encode(v.is_complete.model()),
{
    assert(SP1DeferredWitnessValues::encode(v.model()) =~= <Vec<(StarkVerifyingKey, ShardProof)> as SerializeProof>::encode(v.vks_and_proofs.model())
        + <SP1MerkleProofWitnessValues as SerializeProof>::encode(v.vk_merkle_data.model())
        + <[Val; 8] as SerializeProof>::encode(v.start_reconstruct_deferred_digest.model())
        + <[Val; 8] as SerializeProof>::encode(v.sp1_vk_digest.model())
        + <[Word<Val>; 8] as SerializeProof>::encode(v.committed_value_digest.model())
        + <[Val; 8] as SerializeProof>::encode(v.deferred_proofs_digest.model())
        + <Val as SerializeProof>::encode(v.end_pc.model())
        + <Val as SerializeProof>::encode(v.end_shard.model())
        + <Val as SerializeProof>::encode(v.end_execution_shard.model())
        + <[Val; 32] as SerializeProof>::encode(v.init_addr_bits.model())
        + <[Val; 32] as SerializeProof>::encode(v.finalize_addr_bits.model())
        + <bool as SerializeProof>::encode(v.is_complete.model()));
}

/// The witness of a compression step.
#[derive(Debug)]
pub struct SP1CompressWitnessValues {
    /// The proofs to compress with their keys.
    pub vks_and_proofs: Vec<(StarkVerifyingKey, ShardProof)>,
    /// Whether the execution is complete.
    pub is_complete: bool,
}

// Written as the pair of its proofs and completeness flag.
impl SerializeProof for SP1CompressWitnessValues {
    type Model = <(Vec<(StarkVerifyingKey, ShardProof)>, bool) as SerializeProof>::Model;

    open spec fn model(&self) -> Self::Model {
        (self.vks_and_proofs.model(), self.is_complete.model())
    }

    closed spec fn encodable(m: Self::Model) -> bool {
        <(Vec<(StarkVerifyingKey, ShardProof)>, bool) as SerializeProof>::encodable(m)
    }

    closed spec fn encode(m: Self::Model) -> Seq<u8> {
        <(Vec<(StarkVerifyingKey, ShardProof)>, bool) as SerializeProof>::encode(m)
    }

    closed spec fn parse(s: Seq<u8>) -> Result<(Self::Model, nat), DecodeError> {
        <(Vec<(StarkVerifyingKey, ShardProof)>, bool) as SerializeProof>::parse(s)
    }

    proof fn lemma_parse_encode(m: Self::Model, rest: Seq<u8>) {
        <(Vec<(StarkVerifyingKey, ShardProof)>, bool) as SerializeProof>::lemma_parse_encode(m, rest);
    }

    proof fn lemma_parse_len(s: Seq<u8>) {
        <(Vec<(StarkVerifyingKey, ShardProof)>, bool) as SerializeProof>::lemma_parse_len(s);
    }

    proof fn lemma_parse_encodable(s: Seq<u8>) {
        <(Vec<(StarkVerifyingKey, ShardProof)>, bool) as SerializeProof>::lemma_parse_encodable(s);
    }

    fn to_bytes(self, w: &mut Vec<u8>) -> (written: usize) {
        let SP1CompressWitnessValues { vks_and_proofs, is_complete } = self;
        (vks_and_proofs, is_complete).to_bytes(w)
    }

    fn from_bytes(buffer: &[u8], pos: usize) -> (r: Result<(Self, usize), DecodeError>) {
        let ((vks_and_proofs, is_complete), n) = <(Vec<(StarkVerifyingKey, ShardProof)>, bool) as SerializeProof>::from_bytes(
            buffer,
            pos,
        )?;
        Ok((SP1CompressWitnessValues { vks_and_proofs, is_complete }, n))
    }
}

/// A compress witness is written proofs with keys, then completeness flag.
pub proof fn law_sp1_compress_witness_values_layout(v: &SP1CompressWitnessValues)
    ensures
        SP1CompressWitnessValues::encode(v.model()) == <Vec<(StarkVerifyingKey, ShardProof)> as SerializeProof>::encode(v.vks_and_proofs.model())
            + <bool as SerializeProof>::encode(v.is_complete.model()),
{
    assert(SP1CompressWitnessValues::encode(v.model()) =~= <Vec<(StarkVerifyingKey, ShardProof)> as SerializeProof>::encode(v.vks_and_proofs.model())
        + <bool as SerializeProof>::encode(v.is_complete.model()));
}

} // verus!
