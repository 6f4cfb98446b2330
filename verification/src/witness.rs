use vstd::prelude::*;

use crate::error::DecodeError;
use crate::inputs::{SP1CompressWitnessValues, SP1DeferredWitnessValues, SP1RecursionWitnessValues};
use crate::serialize::SerializeProof;

verus! {

/// What a circuit witness carries: one of the three kinds of recursion input.
pub enum CircuitWitnessModel<A, B, C> {
    Core(A),
    Deferred(B),
    Compress(C),
}

/// The witness of one recursion program.
#[derive(Debug)]
pub enum SP1CircuitWitness {
    /// Verifies core shard proofs.
    Core(SP1RecursionWitnessValues),
    /// Verifies deferred proofs.
    Deferred(SP1DeferredWitnessValues),
    /// Compresses recursion proofs.
    Compress(SP1CompressWitnessValues),
}

// A circuit witness is written as a tag byte (0 core, 1 deferred, 2 compress),
// then the values of its variant.
impl SerializeProof for SP1CircuitWitness {
    type Model = CircuitWitnessModel<
        <SP1RecursionWitnessValues as SerializeProof>::Model,
        <SP1DeferredWitnessValues as SerializeProof>::Model,
        <SP1CompressWitnessValues as SerializeProof>::Model,
    >;

    open spec fn model(&self) -> Self::Model {
        match self {
            SP1CircuitWitness::Core(v) => CircuitWitnessModel::Core(v.model()),
            SP1CircuitWitness::Deferred(v) => CircuitWitnessModel::Deferred(v.model()),
            SP1CircuitWitness::Compress(v) => CircuitWitnessModel::Compress(v.model()),
        }
    }

    open spec fn encodable(m: Self::Model) -> bool {
        match m {
            CircuitWitnessModel::Core(v) => SP1RecursionWitnessValues::encodable(v),
            CircuitWitnessModel::Deferred(v) => SP1DeferredWitnessValues::encodable(v),
            CircuitWitnessModel::Compress(v) => SP1CompressWitnessValues::encodable(v),
        }
    }

    open spec fn encode(m: Self::Model) -> Seq<u8> {
        match m {
            CircuitWitnessModel::Core(v) => <u8 as SerializeProof>::encode(0)
                + SP1RecursionWitnessValues::encode(v),
            CircuitWitnessModel::Deferred(v) => <u8 as SerializeProof>::encode(1)
                + SP1DeferredWitnessValues::encode(v),
            CircuitWitnessModel::Compress(v) => <u8 as SerializeProof>::encode(2)
                + SP1CompressWitnessValues::encode(v),
        }
    }

    open spec fn parse(s: Seq<u8>) -> Result<(Self::Model, nat), DecodeError> {
        match <u8 as SerializeProof>::parse(s) {
            Ok((tag, n)) => {
                let body = s.skip(n as int);
                if tag == 0 {
                    match SP1RecursionWitnessValues::parse(body) {
                        Ok((v, k)) => Ok((CircuitWitnessModel::Core(v), n + k)),
                        Err(e) => Err(e),
                    }
                } else if tag == 1 {
                    match SP1DeferredWitnessValues::parse(body) {
                        Ok((v, k)) => Ok((CircuitWitnessModel::Deferred(v), n + k)),
                        Err(e) => Err(e),
                    }
                } else if tag == 2 {
                    match SP1CompressWitnessValues::parse(body) {
                        Ok((v, k)) => Ok((CircuitWitnessModel::Compress(v), n + k)),
                        Err(e) => Err(e),
                    }
                } else {
                    Err(DecodeError::UnknownVariant)
                }
            },
            Err(e) => Err(e),
        }
    }

    proof fn lemma_parse_encode(m: Self::Model, rest: Seq<u8>) {
        let tag: u8 = match m {
            CircuitWitnessModel::Core(_) => 0,
            CircuitWitnessModel::Deferred(_) => 1,
            CircuitWitnessModel::Compress(_) => 2,
        };
        let et = <u8 as SerializeProof>::encode(tag);
        let eb = match m {
            CircuitWitnessModel::Core(v) => SP1RecursionWitnessValues::encode(v),
            CircuitWitnessModel::Deferred(v) => SP1DeferredWitnessValues::encode(v),
            CircuitWitnessModel::Compress(v) => SP1CompressWitnessValues::encode(v),
        };
        assert(Self::encode(m) == et + eb);
        assert(et + eb + rest =~= et + (eb + rest));
        <u8 as SerializeProof>::lemma_parse_encode(tag, eb + rest);
        assert((et + (eb + rest)).skip(1) =~= eb + rest);
        match m {
            CircuitWitnessModel::Core(v) => SP1RecursionWitnessValues::lemma_parse_encode(v, rest),
            CircuitWitnessModel::Deferred(v) => SP1DeferredWitnessValues::lemma_parse_encode(
                v,
                rest,
            ),
            CircuitWitnessModel::Compress(v) => SP1CompressWitnessValues::lemma_parse_encode(
                v,
                rest,
            ),
        }
    }

    proof fn lemma_parse_len(s: Seq<u8>) {
        if s.len() >= 1 {
            SP1RecursionWitnessValues::lemma_parse_len(s.skip(1));
            SP1DeferredWitnessValues::lemma_parse_len(s.skip(1));
            SP1CompressWitnessValues::lemma_parse_len(s.skip(1));
        }
    }

    proof fn lemma_parse_encodable(s: Seq<u8>) {
        if s.len() >= 1 {
            SP1RecursionWitnessValues::lemma_parse_encodable(s.skip(1));
            SP1DeferredWitnessValues::lemma_parse_encodable(s.skip(1));
            SP1CompressWitnessValues::lemma_parse_encodable(s.skip(1));
        }
    }

    fn to_bytes(self, w: &mut Vec<u8>) -> (written: usize) {
        match self {
            SP1CircuitWitness::Core(values) => (0u8, values).to_bytes(w),
            SP1CircuitWitness::Deferred(values) => (1u8, values).to_bytes(w),
            SP1CircuitWitness::Compress(values) => (2u8, values).to_bytes(w),
        }
    }

    fn from_bytes(buffer: &[u8], pos: usize) -> (r: Result<(Self, usize), DecodeError>) {
        let ghost s = buffer@.skip(pos as int);
        let total = buffer.len();
        let (tag, n) = <u8 as SerializeProof>::from_bytes(buffer, pos)?;
        assert(buffer@.skip((pos + n) as int) =~= s.skip(n as int));
        match tag {
            0 => {
                let (values, k) = SP1RecursionWitnessValues::from_bytes(buffer, pos + n)?;
                proof {
                    SP1RecursionWitnessValues::lemma_parse_len(s.skip(1));
                }
                Ok((SP1CircuitWitness::Core(values), n + k))
            },
            1 => {
                let (values, k) = SP1DeferredWitnessValues::from_bytes(buffer, pos + n)?;
                proof {
                    SP1DeferredWitnessValues::lemma_parse_len(s.skip(1));
                }
                Ok((SP1CircuitWitness::Deferred(values), n + k))
            },
            2 => {
                let (values, k) = SP1CompressWitnessValues::from_bytes(buffer, pos + n)?;
                proof {
                    SP1CompressWitnessValues::lemma_parse_len(s.skip(1));
                }
                Ok((SP1CircuitWitness::Compress(values), n + k))
            },
            _ => Err(DecodeError::UnknownVariant),
        }
    }
}

/// A circuit witness is written as its variant's tag byte (0 core, 1 deferred,
/// 2 compress), then the values of that variant.
pub proof fn law_circuit_witness_layout(w: &SP1CircuitWitness)
    ensures
        match w {
            SP1CircuitWitness::Core(v) => SP1CircuitWitness::encode(w.model()) == seq![0u8]
                + SP1RecursionWitnessValues::encode(v.model()),
            SP1CircuitWitness::Deferred(v) => SP1CircuitWitness::encode(w.model()) == seq![1u8]
                + SP1DeferredWitnessValues::encode(v.model()),
            SP1CircuitWitness::Compress(v) => SP1CircuitWitness::encode(w.model()) == seq![2u8]
                + SP1CompressWitnessValues::encode(v.model()),
        },
{
}

} // verus!
