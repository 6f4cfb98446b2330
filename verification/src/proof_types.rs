use vstd::prelude::*;

use crate::error::DecodeError;
use crate::field::{Digest, ExVal, SepticDigest, Val};
use crate::maps::{ChipOrdering, ChipOrderingByIndex, EntryOrder, chip_ordering_entries, encode_map};
use crate::serialize::SerializeProof;

verus! {

/// The commitments of a shard proof.
#[derive(Clone, Debug)]
pub struct ShardCommitment {
    /// Commitment to the main traces.
    pub main_commit: Digest,
    /// Commitment to the permutation traces.
    pub permutation_commit: Digest,
    /// Commitment to the quotient polynomials.
    pub quotient_commit: Digest,
}

// Written as the triple of its three commitments.
impl SerializeProof for ShardCommitment {
    type Model = <(Digest, Digest, Digest) as SerializeProof>::Model;

    open spec fn model(&self) -> Self::Model {
        (self.main_commit.model(), self.permutation_commit.model(), self.quotient_commit.model())
    }

    closed spec fn encodable(m: Self::Model) -> bool {
        <(Digest, Digest, Digest) as SerializeProof>::encodable(m)
    }

    closed spec fn encode(m: Self::Model) -> Seq<u8> {
        <(Digest, Digest, Digest) as SerializeProof>::encode(m)
    }

    closed spec fn parse(s: Seq<u8>) -> Result<(Self::Model, nat), DecodeError> {
        <(Digest, Digest, Digest) as SerializeProof>::parse(s)
    }

    proof fn lemma_parse_encode(m: Self::Model, rest: Seq<u8>) {
        <(Digest, Digest, Digest) as SerializeProof>::lemma_parse_encode(m, rest);
    }

    proof fn lemma_parse_len(s: Seq<u8>) {
        <(Digest, Digest, Digest) as SerializeProof>::lemma_parse_len(s);
    }

    proof fn lemma_parse_encodable(s: Seq<u8>) {
        <(Digest, Digest, Digest) as SerializeProof>::lemma_parse_encodable(s);
    }

    fn to_bytes(self, w: &mut Vec<u8>) -> (written: usize) {
        let ShardCommitment { main_commit, permutation_commit, quotient_commit } = self;
        (main_commit, permutation_commit, quotient_commit).to_bytes(w)
    }

    fn from_bytes(buffer: &[u8], pos: usize) -> (r: Result<(Self, usize), DecodeError>) {
        let ((main_commit, permutation_commit, quotient_commit), n) = <(Digest, Digest, Digest) as SerializeProof>::from_bytes(
            buffer,
            pos,
        )?;
        Ok((ShardCommitment { main_commit, permutation_commit, quotient_commit }, n))
    }
}

/// A shard's commitments are written main, permutation, then quotient commitment.
pub proof fn law_shard_commitment_layout(v: &ShardCommitment)
    ensures
        ShardCommitment::encode(v.model()) == <Digest as SerializeProof>::encode(v.main_commit.model())
            + <Digest as SerializeProof>::encode(v.permutation_commit.model())
            + <Digest as SerializeProof>::encode(v.quotient_commit.model()),
{
    assert(ShardCommitment::encode(v.model()) =~= <Digest as SerializeProof>::encode(v.main_commit.model())
        + <Digest as SerializeProof>::encode(v.permutation_commit.model())
        + <Digest as SerializeProof>::encode(v.quotient_commit.model()));
}

/// The values of one trace opened at a point and at the next row.
#[derive(Clone, Debug)]
pub struct AirOpenedValues {
    /// Values at the opening point.
    pub local: Vec<ExVal>,
    /// Values at the next row's point.
    pub next: Vec<ExVal>,
}

// Written as the pair of its local and next values.
impl SerializeProof for AirOpenedValues {
    type Model = <(Vec<ExVal>, Vec<ExVal>) as SerializeProof>::Model;

    open spec fn model(&self) -> Self::Model {
        (self.local.model(), self.next.model())
    }

    closed spec fn encodable(m: Self::Model) -> bool {
        <(Vec<ExVal>, Vec<ExVal>) as SerializeProof>::encodable(m)
    }

    closed spec fn encode(m: Self::Model) -> Seq<u8> {
        <(Vec<ExVal>, Vec<ExVal>) as SerializeProof>::encode(m)
    }

    closed spec fn parse(s: Seq<u8>) -> Result<(Self::Model, nat), DecodeError> {
        <(Vec<ExVal>, Vec<ExVal>) as SerializeProof>::parse(s)
    }

    proof fn lemma_parse_encode(m: Self::Model, rest: Seq<u8>) {
        <(Vec<ExVal>, Vec<ExVal>) as SerializeProof>::lemma_parse_encode(m, rest);
    }

    proof fn lemma_parse_len(s: Seq<u8>) {
        <(Vec<ExVal>, Vec<ExVal>) as SerializeProof>::lemma_parse_len(s);
    }

    proof fn lemma_parse_encodable(s: Seq<u8>) {
        <(Vec<ExVal>, Vec<ExVal>) as SerializeProof>::lemma_parse_encodable(s);
    }

    fn to_bytes(self, w: &mut Vec<u8>) -> (written: usize) {
        let AirOpenedValues { local, next } = self;
        (local, next).to_bytes(w)
    }

    fn from_bytes(buffer: &[u8], pos: usize) -> (r: Result<(Self, usize), DecodeError>) {
        let ((local, next), n) = <(Vec<ExVal>, Vec<ExVal>) as SerializeProof>::from_bytes(
            buffer,
            pos,
        )?;
        Ok((AirOpenedValues { local, next }, n))
    }
}

/// Opened values are written local values, then next values.
pub proof fn law_air_opened_values_layout(v: &AirOpenedValues)
    ensures
        AirOpenedValues::encode(v.model()) == <Vec<ExVal> as SerializeProof>::encode(v.local.model())
            + <Vec<ExVal> as SerializeProof>::encode(v.next.model()),
{
    assert(AirOpenedValues::encode(v.model()) =~= <Vec<ExVal> as SerializeProof>::encode(v.local.model())
        + <Vec<ExVal> as SerializeProof>::encode(v.next.model()));
}

/// The values that one chip opens in a shard proof.
#[derive(Clone, Debug)]
pub struct ChipOpenedValues {
    /// Openings of the preprocessed trace.
    pub preprocessed: AirOpenedValues,
    /// Openings of the main trace.
    pub main: AirOpenedValues,
    /// Openings of the permutation trace.
    pub permutation: AirOpenedValues,
    /// Openings of the quotient chunks.
    pub quotient: Vec<Vec<ExVal>>,
    /// The chip's global cumulative sum.
    pub global_cumulative_sum: SepticDigest,
    /// The chip's local cumulative sum.
    pub local_cumulative_sum: ExVal,
    /// Base-2 logarithm of the trace height.
    pub log_degree: usize,
}

// Written as its seven fields one after the other.
impl SerializeProof for ChipOpenedValues {
    type Model = <((AirOpenedValues, AirOpenedValues, AirOpenedValues, Vec<Vec<ExVal>>, SepticDigest), (ExVal, usize)) as SerializeProof>::Model;

    open spec fn model(&self) -> Self::Model {
        ((self.preprocessed.model(), self.main.model(), self.permutation.model(), self.quotient.model(), self.global_cumulative_sum.model()), (self.local_cumulative_sum.model(), self.log_degree.model()))
    }

    closed spec fn encodable(m: Self::Model) -> bool {
        <((AirOpenedValues, AirOpenedValues, AirOpenedValues, Vec<Vec<ExVal>>, SepticDigest), (ExVal, usize)) as SerializeProof>::encodable(m)
    }

    closed spec fn encode(m: Self::Model) -> Seq<u8> {
        <((AirOpenedValues, AirOpenedValues, AirOpenedValues, Vec<Vec<ExVal>>, SepticDigest), (ExVal, usize)) as SerializeProof>::encode(m)
    }

    closed spec fn parse(s: Seq<u8>) -> Result<(Self::Model, nat), DecodeError> {
        <((AirOpenedValues, AirOpenedValues, AirOpenedValues, Vec<Vec<ExVal>>, SepticDigest), (ExVal, usize)) as SerializeProof>::parse(s)
    }

    proof fn lemma_parse_encode(m: Self::Model, rest: Seq<u8>) {
        <((AirOpenedValues, AirOpenedValues, AirOpenedValues, Vec<Vec<ExVal>>, SepticDigest), (ExVal, usize)) as SerializeProof>::lemma_parse_encode(m, rest);
    }

    proof fn lemma_parse_len(s: Seq<u8>) {
        <((AirOpenedValues, AirOpenedValues, AirOpenedValues, Vec<Vec<ExVal>>, SepticDigest), (ExVal, usize)) as SerializeProof>::lemma_parse_len(s);
    }

    proof fn lemma_parse_encodable(s: Seq<u8>) {
        <((AirOpenedValues, AirOpenedValues, AirOpenedValues, Vec<Vec<ExVal>>, SepticDigest), (ExVal, usize)) as SerializeProof>::lemma_parse_encodable(s);
    }

    fn to_bytes(self, w: &mut Vec<u8>) -> (written: usize) {
        let ChipOpenedValues { preprocessed, main, permutation, quotient, global_cumulative_sum, local_cumulative_sum, log_degree } = self;
        ((preprocessed, main, permutation, quotient, global_cumulative_sum), (local_cumulative_sum, log_degree)).to_bytes(w)
    }

    fn from_bytes(buffer: &[u8], pos: usize) -> (r: Result<(Self, usize), DecodeError>) {
        let (((preprocessed, main, permutation, quotient, global_cumulative_sum), (local_cumulative_sum, log_degree)), n) = <((AirOpenedValues, AirOpenedValues, AirOpenedValues, Vec<Vec<ExVal>>, SepticDigest), (ExVal, usize)) as SerializeProof>::from_bytes(
            buffer,
            pos,
        )?;
        Ok((ChipOpenedValues { preprocessed, main, permutation, quotient, global_cumulative_sum, local_cumulative_sum, log_degree }, n))
    }
}

/// A chip's opened values are written preprocessed, main, permutation, quotient, global sum, local sum, then log degree.
pub proof fn law_chip_opened_values_layout(v: &ChipOpenedValues)
    ensures
        ChipOpenedValues::encode(v.model()) == <AirOpenedValues as SerializeProof>::encode(v.preprocessed.model())
            + <AirOpenedValues as SerializeProof>::encode(v.main.model())
            + <AirOpenedValues as SerializeProof>::encode(v.permutation.model())
            + <Vec<Vec<ExVal>> as SerializeProof>::encode(v.quotient.model())
            + <SepticDigest as SerializeProof>::encode(v.global_cumulative_sum.model())
            + <ExVal as SerializeProof>::encode(v.local_cumulative_sum.model())
            + <usize as SerializeProof>::encode(v.log_degree.model()),
{
    assert(ChipOpenedValues::encode(v.model()) =~= <AirOpenedValues as SerializeProof>::encode(v.preprocessed.model())
        + <AirOpenedValues as SerializeProof>::encode(v.main.model())
        + <AirOpenedValues as SerializeProof>::encode(v.permutation.model())
        + <Vec<Vec<ExVal>> as SerializeProof>::encode(v.quotient.model())
        + <SepticDigest as SerializeProof>::encode(v.global_cumulative_sum.model())
        + <ExVal as SerializeProof>::encode(v.local_cumulative_sum.model())
        + <usize as SerializeProof>::encode(v.log_degree.model()));
}

/// The values that all chips of a shard open.
#[derive(Clone, Debug)]
pub struct ShardOpenedValues {
    /// The opened values of each chip.
    pub chips: Vec<ChipOpenedValues>,
}

// Written as the vector of its chips' values.
impl SerializeProof for ShardOpenedValues {
    type Model = <Vec<ChipOpenedValues> as SerializeProof>::Model;

    open spec fn model(&self) -> Self::Model {
        self.chips.model()
    }

    closed spec fn encodable(m: Self::Model) -> bool {
        <Vec<ChipOpenedValues> as SerializeProof>::encodable(m)
    }

    closed spec fn encode(m: Self::Model) -> Seq<u8> {
        <Vec<ChipOpenedValues> as SerializeProof>::encode(m)
    }

    closed spec fn parse(s: Seq<u8>) -> Result<(Self::Model, nat), DecodeError> {
        <Vec<ChipOpenedValues> as SerializeProof>::parse(s)
    }

    proof fn lemma_parse_encode(m: Self::Model, rest: Seq<u8>) {
        <Vec<ChipOpenedValues> as SerializeProof>::lemma_parse_encode(m, rest);
    }

    proof fn lemma_parse_len(s: Seq<u8>) {
        <Vec<ChipOpenedValues> as SerializeProof>::lemma_parse_len(s);
    }

    proof fn lemma_parse_encodable(s: Seq<u8>) {
        <Vec<ChipOpenedValues> as SerializeProof>::lemma_parse_encodable(s);
    }

    fn to_bytes(self, w: &mut Vec<u8>) -> (written: usize) {
        let ShardOpenedValues { chips } = self;
        chips.to_bytes(w)
    }

    fn from_bytes(buffer: &[u8], pos: usize) -> (r: Result<(Self, usize), DecodeError>) {
        let (chips, n) = <Vec<ChipOpenedValues> as SerializeProof>::from_bytes(
            buffer,
            pos,
        )?;
        Ok((ShardOpenedValues { chips }, n))
    }
}

/// A shard's opened values are written as the vector of its chips' values.
pub proof fn law_shard_opened_values_layout(v: &ShardOpenedValues)
    ensures
        ShardOpenedValues::encode(v.model()) == <Vec<ChipOpenedValues> as SerializeProof>::encode(v.chips.model()),
{
    assert(ShardOpenedValues::encode(v.model()) =~= <Vec<ChipOpenedValues> as SerializeProof>::encode(v.chips.model()));
}

/// One step of a FRI query in the commit phase.
#[derive(Clone, Debug)]
pub struct CommitPhaseProofStep {
    /// The codeword value at the sibling position.
    pub sibling_value: ExVal,
    /// Merkle path of the opening.
    pub opening_proof: Vec<[Val; 8]>,
}

// Written as the pair of the sibling value and the opening proof.
impl SerializeProof for CommitPhaseProofStep {
    type Model = <(ExVal, Vec<[Val; 8]>) as SerializeProof>::Model;

    open spec fn model(&self) -> Self::Model {
        (self.sibling_value.model(), self.opening_proof.model())
    }

    closed spec fn encodable(m: Self::Model) -> bool {
        <(ExVal, Vec<[Val; 8]>) as SerializeProof>::encodable(m)
    }

    closed spec fn encode(m: Self::Model) -> Seq<u8> {
        <(ExVal, Vec<[Val; 8]>) as SerializeProof>::encode(m)
    }

    closed spec fn parse(s: Seq<u8>) -> Result<(Self::Model, nat), DecodeError> {
        <(ExVal, Vec<[Val; 8]>) as SerializeProof>::parse(s)
    }

    proof fn lemma_parse_encode(m: Self::Model, rest: Seq<u8>) {
        <(ExVal, Vec<[Val; 8]>) as SerializeProof>::lemma_parse_encode(m, rest);
    }

    proof fn lemma_parse_len(s: Seq<u8>) {
        <(ExVal, Vec<[Val; 8]>) as SerializeProof>::lemma_parse_len(s);
    }

    proof fn lemma_parse_encodable(s: Seq<u8>) {
        <(ExVal, Vec<[Val; 8]>) as SerializeProof>::lemma_parse_encodable(s);
    }

    fn to_bytes(self, w: &mut Vec<u8>) -> (written: usize) {
        let CommitPhaseProofStep { sibling_value, opening_proof } = self;
        (sibling_value, opening_proof).to_bytes(w)
    }

    fn from_bytes(buffer: &[u8], pos: usize) -> (r: Result<(Self, usize), DecodeError>) {
        let ((sibling_value, opening_proof), n) = <(ExVal, Vec<[Val; 8]>) as SerializeProof>::from_bytes(
            buffer,
            pos,
        )?;
        Ok((CommitPhaseProofStep { sibling_value, opening_proof }, n))
    }
}

/// A commit phase step is written sibling value, then opening proof.
pub proof fn law_commit_phase_proof_step_layout(v: &CommitPhaseProofStep)
    ensures
        CommitPhaseProofStep::encode(v.model()) == <ExVal as SerializeProof>::encode(v.sibling_value.model())
            + <Vec<[Val; 8]> as SerializeProof>::encode(v.opening_proof.model()),
{
    assert(CommitPhaseProofStep::encode(v.model()) =~= <ExVal as SerializeProof>::encode(v.sibling_value.model())
        + <Vec<[Val; 8]> as SerializeProof>::encode(v.opening_proof.model()));
}

/// The proof of one FRI query.
#[derive(Clone, Debug)]
pub struct QueryProof {
    /// Openings for each commit phase round.
    pub commit_phase_openings: Vec<CommitPhaseProofStep>,
}

// Written as the vector of its openings.
impl SerializeProof for QueryProof {
    type Model = <Vec<CommitPhaseProofStep> as SerializeProof>::Model;

    open spec fn model(&self) -> Self::Model {
        self.commit_phase_openings.model()
    }

    closed spec fn encodable(m: Self::Model) -> bool {
        <Vec<CommitPhaseProofStep> as SerializeProof>::encodable(m)
    }

    closed spec fn encode(m: Self::Model) -> Seq<u8> {
        <Vec<CommitPhaseProofStep> as SerializeProof>::encode(m)
    }

    closed spec fn parse(s: Seq<u8>) -> Result<(Self::Model, nat), DecodeError> {
        <Vec<CommitPhaseProofStep> as SerializeProof>::parse(s)
    }

    proof fn lemma_parse_encode(m: Self::Model, rest: Seq<u8>) {
        <Vec<CommitPhaseProofStep> as SerializeProof>::lemma_parse_encode(m, rest);
    }

    proof fn lemma_parse_len(s: Seq<u8>) {
        <Vec<CommitPhaseProofStep> as SerializeProof>::lemma_parse_len(s);
    }

    proof fn lemma_parse_encodable(s: Seq<u8>) {
        <Vec<CommitPhaseProofStep> as SerializeProof>::lemma_parse_encodable(s);
    }

    fn to_bytes(self, w: &mut Vec<u8>) -> (written: usize) {
        let QueryProof { commit_phase_openings } = self;
        commit_phase_openings.to_bytes(w)
    }

    fn from_bytes(buffer: &[u8], pos: usize) -> (r: Result<(Self, usize), DecodeError>) {
        let (commit_phase_openings, n) = <Vec<CommitPhaseProofStep> as SerializeProof>::from_bytes(
            buffer,
            pos,
        )?;
        Ok((QueryProof { commit_phase_openings }, n))
    }
}

/// A query proof is written as the vector of its openings.
pub proof fn law_query_proof_layout(v: &QueryProof)
    ensures
        QueryProof::encode(v.model()) == <Vec<CommitPhaseProofStep> as SerializeProof>::encode(v.commit_phase_openings.model()),
{
    assert(QueryProof::encode(v.model()) =~= <Vec<CommitPhaseProofStep> as SerializeProof>::encode(v.commit_phase_openings.model()));
}

/// A FRI proof.
#[derive(Clone, Debug)]
pub struct FriProof {
    /// Commitments of the commit phase rounds.
    pub commit_phase_commits: Vec<Digest>,
    /// Proofs of the queries.
    pub query_proofs: Vec<QueryProof>,
    /// The final constant polynomial.
    pub final_poly: ExVal,
    /// The proof-of-work witness.
    pub pow_witness: Val,
}

// Written as its four fields one after the other.
impl SerializeProof for FriProof {
    type Model = <(Vec<Digest>, Vec<QueryProof>, ExVal, Val) as SerializeProof>::Model;

    open spec fn model(&self) -> Self::Model {
        (self.commit_phase_commits.model(), self.query_proofs.model(), self.final_poly.model(), self.pow_witness.model())
    }

    closed spec fn encodable(m: Self::Model) -> bool {
        <(Vec<Digest>, Vec<QueryProof>, ExVal, Val) as SerializeProof>::encodable(m)
    }

    closed spec fn encode(m: Self::Model) -> Seq<u8> {
        <(Vec<Digest>, Vec<QueryProof>, ExVal, Val) as SerializeProof>::encode(m)
    }

    closed spec fn parse(s: Seq<u8>) -> Result<(Self::Model, nat), DecodeError> {
        <(Vec<Digest>, Vec<QueryProof>, ExVal, Val) as SerializeProof>::parse(s)
    }

    proof fn lemma_parse_encode(m: Self::Model, rest: Seq<u8>) {
        <(Vec<Digest>, Vec<QueryProof>, ExVal, Val) as SerializeProof>::lemma_parse_encode(m, rest);
    }

    proof fn lemma_parse_len(s: Seq<u8>) {
        <(Vec<Digest>, Vec<QueryProof>, ExVal, Val) as SerializeProof>::lemma_parse_len(s);
    }

    proof fn lemma_parse_encodable(s: Seq<u8>) {
        <(Vec<Digest>, Vec<QueryProof>, ExVal, Val) as SerializeProof>::lemma_parse_encodable(s);
    }

    fn to_bytes(self, w: &mut Vec<u8>) -> (written: usize) {
        let FriProof { commit_phase_commits, query_proofs, final_poly, pow_witness } = self;
        (commit_phase_commits, query_proofs, final_poly, pow_witness).to_bytes(w)
    }

    fn from_bytes(buffer: &[u8], pos: usize) -> (r: Result<(Self, usize), DecodeError>) {
        let ((commit_phase_commits, query_proofs, final_poly, pow_witness), n) = <(Vec<Digest>, Vec<QueryProof>, ExVal, Val) as SerializeProof>::from_bytes(
            buffer,
            pos,
        )?;
        Ok((FriProof { commit_phase_commits, query_proofs, final_poly, pow_witness }, n))
    }
}

/// A FRI proof is written commitments, query proofs, final polynomial, then proof-of-work witness.
pub proof fn law_fri_proof_layout(v: &FriProof)
    ensures
        FriProof::encode(v.model()) == <Vec<Digest> as SerializeProof>::encode(v.commit_phase_commits.model())
            + <Vec<QueryProof> as SerializeProof>::encode(v.query_proofs.model())
            + <ExVal as SerializeProof>::encode(v.final_poly.model())
            + <Val as SerializeProof>::encode(v.pow_witness.model()),
{
    assert(FriProof::encode(v.model()) =~= <Vec<Digest> as SerializeProof>::encode(v.commit_phase_commits.model())
        + <Vec<QueryProof> as SerializeProof>::encode(v.query_proofs.model())
        + <ExVal as SerializeProof>::encode(v.final_poly.model())
        + <Val as SerializeProof>::encode(v.pow_witness.model()));
}

/// The opening of one committed batch at a query.
#[derive(Clone, Debug)]
pub struct BatchOpening {
    /// Opened rows of each matrix of the batch.
    pub opened_values: Vec<Vec<Val>>,
    /// Merkle path of the opening.
    pub opening_proof: Vec<[Val; 8]>,
}

// Written as the pair of the opened values and the opening proof.
impl SerializeProof for BatchOpening {
    type Model = <(Vec<Vec<Val>>, Vec<[Val; 8]>) as SerializeProof>::Model;

    open spec fn model(&self) -> Self::Model {
        (self.opened_values.model(), self.opening_proof.model())
    }

    closed spec fn encodable(m: Self::Model) -> bool {
        <(Vec<Vec<Val>>, Vec<[Val; 8]>) as SerializeProof>::encodable(m)
    }

    closed spec fn encode(m: Self::Model) -> Seq<u8> {
        <(Vec<Vec<Val>>, Vec<[Val; 8]>) as SerializeProof>::encode(m)
    }

    closed spec fn parse(s: Seq<u8>) -> Result<(Self::Model, nat), DecodeError> {
        <(Vec<Vec<Val>>, Vec<[Val; 8]>) as SerializeProof>::parse(s)
    }

    proof fn lemma_parse_encode(m: Self::Model, rest: Seq<u8>) {
        <(Vec<Vec<Val>>, Vec<[Val; 8]>) as SerializeProof>::lemma_parse_encode(m, rest);
    }

    proof fn lemma_parse_len(s: Seq<u8>) {
        <(Vec<Vec<Val>>, Vec<[Val; 8]>) as SerializeProof>::lemma_parse_len(s);
    }

    proof fn lemma_parse_encodable(s: Seq<u8>) {
        <(Vec<Vec<Val>>, Vec<[Val; 8]>) as SerializeProof>::lemma_parse_encodable(s);
    }

    fn to_bytes(self, w: &mut Vec<u8>) -> (written: usize) {
        let BatchOpening { opened_values, opening_proof } = self;
        (opened_values, opening_proof).to_bytes(w)
    }

    fn from_bytes(buffer: &[u8], pos: usize) -> (r: Result<(Self, usize), DecodeError>) {
        let ((opened_values, opening_proof), n) = <(Vec<Vec<Val>>, Vec<[Val; 8]>) as SerializeProof>::from_bytes(
            buffer,
            pos,
        )?;
        Ok((BatchOpening { opened_values, opening_proof }, n))
    }
}

/// A batch opening is written opened values, then opening proof.
pub proof fn law_batch_opening_layout(v: &BatchOpening)
    ensures
        BatchOpening::encode(v.model()) == <Vec<Vec<Val>> as SerializeProof>::encode(v.opened_values.model())
            + <Vec<[Val; 8]> as SerializeProof>::encode(v.opening_proof.model()),
{
    assert(BatchOpening::encode(v.model()) =~= <Vec<Vec<Val>> as SerializeProof>::encode(v.opened_values.model())
        + <Vec<[Val; 8]> as SerializeProof>::encode(v.opening_proof.model()));
}

/// An opening proof of the two-adic FRI commitment scheme.
#[derive(Clone, Debug)]
pub struct TwoAdicFriPcsProof {
    /// The FRI proof.
    pub fri_proof: FriProof,
    /// For each query, the openings of each batch.
    pub query_openings: Vec<Vec<BatchOpening>>,
}

// Written as the pair of the FRI proof and the query openings.
impl SerializeProof for TwoAdicFriPcsProof {
    type Model = <(FriProof, Vec<Vec<BatchOpening>>) as SerializeProof>::Model;

    open spec fn model(&self) -> Self::Model {
        (self.fri_proof.model(), self.query_openings.model())
    }

    closed spec fn encodable(m: Self::Model) -> bool {
        <(FriProof, Vec<Vec<BatchOpening>>) as SerializeProof>::encodable(m)
    }

    closed spec fn encode(m: Self::Model) -> Seq<u8> {
        <(FriProof, Vec<Vec<BatchOpening>>) as SerializeProof>::encode(m)
    }

    closed spec fn parse(s: Seq<u8>) -> Result<(Self::Model, nat), DecodeError> {
        <(FriProof, Vec<Vec<BatchOpening>>) as SerializeProof>::parse(s)
    }

    proof fn lemma_parse_encode(m: Self::Model, rest: Seq<u8>) {
        <(FriProof, Vec<Vec<BatchOpening>>) as SerializeProof>::lemma_parse_encode(m, rest);
    }

    proof fn lemma_parse_len(s: Seq<u8>) {
        <(FriProof, Vec<Vec<BatchOpening>>) as SerializeProof>::lemma_parse_len(s);
    }

    proof fn lemma_parse_encodable(s: Seq<u8>) {
        <(FriProof, Vec<Vec<BatchOpening>>) as SerializeProof>::lemma_parse_encodable(s);
    }

    fn to_bytes(self, w: &mut Vec<u8>) -> (written: usize) {
        let TwoAdicFriPcsProof { fri_proof, query_openings } = self;
        (fri_proof, query_openings).to_bytes(w)
    }

    fn from_bytes(buffer: &[u8], pos: usize) -> (r: Result<(Self, usize), DecodeError>) {
        let ((fri_proof, query_openings), n) = <(FriProof, Vec<Vec<BatchOpening>>) as SerializeProof>::from_bytes(
            buffer,
            pos,
        )?;
        Ok((TwoAdicFriPcsProof { fri_proof, query_openings }, n))
    }
}

/// An opening proof is written FRI proof, then query openings.
pub proof fn law_two_adic_fri_pcs_proof_layout(v: &TwoAdicFriPcsProof)
    ensures
        TwoAdicFriPcsProof::encode(v.model()) == <FriProof as SerializeProof>::encode(v.fri_proof.model())
            + <Vec<Vec<BatchOpening>> as SerializeProof>::encode(v.query_openings.model()),
{
    assert(TwoAdicFriPcsProof::encode(v.model()) =~= <FriProof as SerializeProof>::encode(v.fri_proof.model())
        + <Vec<Vec<BatchOpening>> as SerializeProof>::encode(v.query_openings.model()));
}

/// The proof of one shard.
#[derive(Debug)]
pub struct ShardProof {
    /// Commitments to the traces.
    pub commitment: ShardCommitment,
    /// Values opened by the chips.
    pub opened_values: ShardOpenedValues,
    /// Proof of the openings.
    pub opening_proof: TwoAdicFriPcsProof,
    /// Index of each chip, by name.
    pub chip_ordering: ChipOrdering,
    /// The shard's public values.
    pub public_values: Vec<Val>,
}

// Written as its five fields one after the other; the chip ordering is sorted by index.
impl SerializeProof for ShardProof {
    type Model = <(ShardCommitment, ShardOpenedValues, TwoAdicFriPcsProof, ChipOrderingByIndex, Vec<Val>) as SerializeProof>::Model;

    open spec fn model(&self) -> Self::Model {
        (self.commitment.model(), self.opened_values.model(), self.opening_proof.model(), chip_ordering_entries(self.chip_ordering), self.public_values.model())
    }

    closed spec fn encodable(m: Self::Model) -> bool {
        <(ShardCommitment, ShardOpenedValues, TwoAdicFriPcsProof, ChipOrderingByIndex, Vec<Val>) as SerializeProof>::encodable(m)
    }

    closed spec fn encode(m: Self::Model) -> Seq<u8> {
        <(ShardCommitment, ShardOpenedValues, TwoAdicFriPcsProof, ChipOrderingByIndex, Vec<Val>) as SerializeProof>::encode(m)
    }

    closed spec fn parse(s: Seq<u8>) -> Result<(Self::Model, nat), DecodeError> {
        <(ShardCommitment, ShardOpenedValues, TwoAdicFriPcsProof, ChipOrderingByIndex, Vec<Val>) as SerializeProof>::parse(s)
    }

    proof fn lemma_parse_encode(m: Self::Model, rest: Seq<u8>) {
        <(ShardCommitment, ShardOpenedValues, TwoAdicFriPcsProof, ChipOrderingByIndex, Vec<Val>) as SerializeProof>::lemma_parse_encode(m, rest);
    }

    proof fn lemma_parse_len(s: Seq<u8>) {
        <(ShardCommitment, ShardOpenedValues, TwoAdicFriPcsProof, ChipOrderingByIndex, Vec<Val>) as SerializeProof>::lemma_parse_len(s);
    }

    proof fn lemma_parse_encodable(s: Seq<u8>) {
        <(ShardCommitment, ShardOpenedValues, TwoAdicFriPcsProof, ChipOrderingByIndex, Vec<Val>) as SerializeProof>::lemma_parse_encodable(s);
    }

    fn to_bytes(self, w: &mut Vec<u8>) -> (written: usize) {
        let ShardProof { commitment, opened_values, opening_proof, chip_ordering, public_values } = self;
        (commitment, opened_values, opening_proof, ChipOrderingByIndex(chip_ordering), public_values).to_bytes(w)
    }

    fn from_bytes(buffer: &[u8], pos: usize) -> (r: Result<(Self, usize), DecodeError>) {
        let ((commitment, opened_values, opening_proof, ChipOrderingByIndex(chip_ordering), public_values), n) = <(ShardCommitment, ShardOpenedValues, TwoAdicFriPcsProof, ChipOrderingByIndex, Vec<Val>) as SerializeProof>::from_bytes(
            buffer,
            pos,
        )?;
        Ok((ShardProof { commitment, opened_values, opening_proof, chip_ordering, public_values }, n))
    }
}

/// A shard proof is written commitment, opened values, opening proof, the chip ordering sorted by index, then public values.
pub proof fn law_shard_proof_layout(v: &ShardProof)
    ensures
        ShardProof::encode(v.model()) == <ShardCommitment as SerializeProof>::encode(v.commitment.model())
            + <ShardOpenedValues as SerializeProof>::encode(v.opened_values.model())
            + <TwoAdicFriPcsProof as SerializeProof>::encode(v.opening_proof.model())
            + encode_map(chip_ordering_entries(v.chip_ordering), EntryOrder::ByIndex)
            + <Vec<Val> as SerializeProof>::encode(v.public_values.model()),
{
    assert(ShardProof::encode(v.model()) =~= <ShardCommitment as SerializeProof>::encode(v.commitment.model())
        + <ShardOpenedValues as SerializeProof>::encode(v.opened_values.model())
        + <TwoAdicFriPcsProof as SerializeProof>::encode(v.opening_proof.model())
        + encode_map(chip_ordering_entries(v.chip_ordering), EntryOrder::ByIndex)
        + <Vec<Val> as SerializeProof>::encode(v.public_values.model()));
}

/// The public values of an execution.
#[derive(Clone, Debug)]
pub struct SP1PublicValues {
    /// The bytes that the program committed.
    pub buffer: Vec<u8>,
}

// Written as the vector of its bytes.
impl SerializeProof for SP1PublicValues {
    type Model = <Vec<u8> as SerializeProof>::Model;

    open spec fn model(&self) -> Self::Model {
        self.buffer.model()
    }

    closed spec fn encodable(m: Self::Model) -> bool {
        <Vec<u8> as SerializeProof>::encodable(m)
    }

    closed spec fn encode(m: Self::Model) -> Seq<u8> {
        <Vec<u8> as SerializeProof>::encode(m)
    }

    closed spec fn parse(s: Seq<u8>) -> Result<(Self::Model, nat), DecodeError> {
        <Vec<u8> as SerializeProof>::parse(s)
    }

    proof fn lemma_parse_encode(m: Self::Model, rest: Seq<u8>) {
        <Vec<u8> as SerializeProof>::lemma_parse_encode(m, rest);
    }

    proof fn lemma_parse_len(s: Seq<u8>) {
        <Vec<u8> as SerializeProof>::lemma_parse_len(s);
    }

    proof fn lemma_parse_encodable(s: Seq<u8>) {
        <Vec<u8> as SerializeProof>::lemma_parse_encodable(s);
    }

    fn to_bytes(self, w: &mut Vec<u8>) -> (written: usize) {
        let SP1PublicValues { buffer } = self;
        buffer.to_bytes(w)
    }

    fn from_bytes(buffer: &[u8], pos: usize) -> (r: Result<(Self, usize), DecodeError>) {
        let (buffer, n) = <Vec<u8> as SerializeProof>::from_bytes(
            buffer,
            pos,
        )?;
        Ok((SP1PublicValues { buffer }, n))
    }
}

/// Public values are written as the vector of their bytes.
pub proof fn law_sp1_public_values_layout(v: &SP1PublicValues)
    ensures
        SP1PublicValues::encode(v.model()) == <Vec<u8> as SerializeProof>::encode(v.buffer.model()),
{
    assert(SP1PublicValues::encode(v.model()) =~= <Vec<u8> as SerializeProof>::encode(v.buffer.model()));
}

/// A core proof: the proofs of all shards.
#[derive(Debug)]
pub struct SP1CoreProofData(pub Vec<ShardProof>);

// Written as the vector of its shard proofs.
impl SerializeProof for SP1CoreProofData {
    type Model = <Vec<ShardProof> as SerializeProof>::Model;

    open spec fn model(&self) -> Self::Model {
        self.0.model()
    }

    closed spec fn encodable(m: Self::Model) -> bool {
        <Vec<ShardProof> as SerializeProof>::encodable(m)
    }

    closed spec fn encode(m: Self::Model) -> Seq<u8> {
        <Vec<ShardProof> as SerializeProof>::encode(m)
    }

    closed spec fn parse(s: Seq<u8>) -> Result<(Self::Model, nat), DecodeError> {
        <Vec<ShardProof> as SerializeProof>::parse(s)
    }

    proof fn lemma_parse_encode(m: Self::Model, rest: Seq<u8>) {
        <Vec<ShardProof> as SerializeProof>::lemma_parse_encode(m, rest);
    }

    proof fn lemma_parse_len(s: Seq<u8>) {
        <Vec<ShardProof> as SerializeProof>::lemma_parse_len(s);
    }

    proof fn lemma_parse_encodable(s: Seq<u8>) {
        <Vec<ShardProof> as SerializeProof>::lemma_parse_encodable(s);
    }

    fn to_bytes(self, w: &mut Vec<u8>) -> (written: usize) {
        self.0.to_bytes(w)
    }

    fn from_bytes(buffer: &[u8], pos: usize) -> (r: Result<(Self, usize), DecodeError>) {
        let (inner, n) = <Vec<ShardProof> as SerializeProof>::from_bytes(buffer, pos)?;
        Ok((SP1CoreProofData(inner), n))
    }
}

/// The input stream of a program (without deferred proofs).
#[derive(Clone, Debug)]
pub struct SP1Stdin {
    /// The inputs, one byte vector each.
    pub buffer: Vec<Vec<u8>>,
    /// How many inputs were read.
    pub ptr: usize,
}

// Written as the pair of its buffer and read position.
impl SerializeProof for SP1Stdin {
    type Model = <(Vec<Vec<u8>>, usize) as SerializeProof>::Model;

    open spec fn model(&self) -> Self::Model {
        (self.buffer.model(), self.ptr.model())
    }

    closed spec fn encodable(m: Self::Model) -> bool {
        <(Vec<Vec<u8>>, usize) as SerializeProof>::encodable(m)
    }

    closed spec fn encode(m: Self::Model) -> Seq<u8> {
        <(Vec<Vec<u8>>, usize) as SerializeProof>::encode(m)
    }

    closed spec fn parse(s: Seq<u8>) -> Result<(Self::Model, nat), DecodeError> {
        <(Vec<Vec<u8>>, usize) as SerializeProof>::parse(s)
    }

    proof fn lemma_parse_encode(m: Self::Model, rest: Seq<u8>) {
        <(Vec<Vec<u8>>, usize) as SerializeProof>::lemma_parse_encode(m, rest);
    }

    proof fn lemma_parse_len(s: Seq<u8>) {
        <(Vec<Vec<u8>>, usize) as SerializeProof>::lemma_parse_len(s);
    }

    proof fn lemma_parse_encodable(s: Seq<u8>) {
        <(Vec<Vec<u8>>, usize) as SerializeProof>::lemma_parse_encodable(s);
    }

    fn to_bytes(self, w: &mut Vec<u8>) -> (written: usize) {
        let SP1Stdin { buffer, ptr } = self;
        (buffer, ptr).to_bytes(w)
    }

    fn from_bytes(buffer: &[u8], pos: usize) -> (r: Result<(Self, usize), DecodeError>) {
        let ((buffer, ptr), n) = <(Vec<Vec<u8>>, usize) as SerializeProof>::from_bytes(
            buffer,
            pos,
        )?;
        Ok((SP1Stdin { buffer, ptr }, n))
    }
}

/// An input stream is written buffer, then read position.
pub proof fn law_sp1_stdin_layout(v: &SP1Stdin)
    ensures
        SP1Stdin::encode(v.model()) == <Vec<Vec<u8>> as SerializeProof>::encode(v.buffer.model())
            + <usize as SerializeProof>::encode(v.ptr.model()),
{
    assert(SP1Stdin::encode(v.model()) =~= <Vec<Vec<u8>> as SerializeProof>::encode(v.buffer.model())
        + <usize as SerializeProof>::encode(v.ptr.model()));
}

/// A core proof with the data it was made from.
#[derive(Debug)]
pub struct SP1ProofWithMetadata {
    /// The proof.
    pub proof: SP1CoreProofData,
    /// The input it was made on.
    pub stdin: SP1Stdin,
    /// Its public values.
    pub public_values: SP1PublicValues,
    /// The cycles the execution took.
    pub cycles: u64,
}

// Written as its four fields one after the other.
impl SerializeProof for SP1ProofWithMetadata {
    type Model = <(SP1CoreProofData, SP1Stdin, SP1PublicValues, u64) as SerializeProof>::Model;

    open spec fn model(&self) -> Self::Model {
        (self.proof.model(), self.stdin.model(), self.public_values.model(), self.cycles.model())
    }

    closed spec fn encodable(m: Self::Model) -> bool {
        <(SP1CoreProofData, SP1Stdin, SP1PublicValues, u64) as SerializeProof>::encodable(m)
    }

    closed spec fn encode(m: Self::Model) -> Seq<u8> {
        <(SP1CoreProofData, SP1Stdin, SP1PublicValues, u64) as SerializeProof>::encode(m)
    }

    closed spec fn parse(s: Seq<u8>) -> Result<(Self::Model, nat), DecodeError> {
        <(SP1CoreProofData, SP1Stdin, SP1PublicValues, u64) as SerializeProof>::parse(s)
    }

    proof fn lemma_parse_encode(m: Self::Model, rest: Seq<u8>) {
        <(SP1CoreProofData, SP1Stdin, SP1PublicValues, u64) as SerializeProof>::lemma_parse_encode(m, rest);
    }

    proof fn lemma_parse_len(s: Seq<u8>) {
        <(SP1CoreProofData, SP1Stdin, SP1PublicValues, u64) as SerializeProof>::lemma_parse_len(s);
    }

    proof fn lemma_parse_encodable(s: Seq<u8>) {
        <(SP1CoreProofData, SP1Stdin, SP1PublicValues, u64) as SerializeProof>::lemma_parse_encodable(s);
    }

    fn to_bytes(self, w: &mut Vec<u8>) -> (written: usize) {
        let SP1ProofWithMetadata { proof, stdin, public_values, cycles } = self;
        (proof, stdin, public_values, cycles).to_bytes(w)
    }

    fn from_bytes(buffer: &[u8], pos: usize) -> (r: Result<(Self, usize), DecodeError>) {
        let ((proof, stdin, public_values, cycles), n) = <(SP1CoreProofData, SP1Stdin, SP1PublicValues, u64) as SerializeProof>::from_bytes(
            buffer,
            pos,
        )?;
        Ok((SP1ProofWithMetadata { proof, stdin, public_values, cycles }, n))
    }
}

/// A proof with metadata is written proof, input stream, public values, then cycle count.
pub proof fn law_sp1_proof_with_metadata_layout(v: &SP1ProofWithMetadata)
    ensures
        SP1ProofWithMetadata::encode(v.model()) == <SP1CoreProofData as SerializeProof>::encode(v.proof.model())
            + <SP1Stdin as SerializeProof>::encode(v.stdin.model())
            + <SP1PublicValues as SerializeProof>::encode(v.public_values.model())
            + <u64 as SerializeProof>::encode(v.cycles.model()),
{
    assert(SP1ProofWithMetadata::encode(v.model()) =~= <SP1CoreProofData as SerializeProof>::encode(v.proof.model())
        + <SP1Stdin as SerializeProof>::encode(v.stdin.model())
        + <SP1PublicValues as SerializeProof>::encode(v.public_values.model())
        + <u64 as SerializeProof>::encode(v.cycles.model()));
}

} // verus!
