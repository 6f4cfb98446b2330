use sp1_sdk::error::DecodeError;
use sp1_sdk::field::{Digest, ExVal, Point, SepticDigest, SepticVal, Val, Word, BABY_BEAR_PRIME};
use sp1_sdk::inputs::{
    Dimensions, MerkleProof, SP1CompressWitnessValues, SP1DeferredWitnessValues,
    SP1MerkleProofWitnessValues, SP1RecursionWitnessValues, StarkVerifyingKey,
    TwoAdicMultiplicativeCoset,
};
use sp1_sdk::maps::{ChipOrdering, ChipOrderingByIndex};
use sp1_sdk::proof_types::{
    AirOpenedValues, BatchOpening, ChipOpenedValues, CommitPhaseProofStep, FriProof,
    QueryProof, SP1CoreProofData, SP1ProofWithMetadata, SP1PublicValues, SP1Stdin,
    ShardCommitment, ShardOpenedValues, ShardProof, TwoAdicFriPcsProof,
};
use sp1_sdk::serialize::SerializeProof;
use sp1_sdk::witness::SP1CircuitWitness;

fn encode<T: SerializeProof>(value: T) -> Vec<u8> {
    let mut w = Vec::new();
    let written = value.to_bytes(&mut w);
    assert_eq!(written, w.len());
    w
}

fn val(n: u32) -> Val {
    Val::from_canonical_u32(n)
}

fn ex(n: u32) -> ExVal {
    ExVal([val(n), val(n + 1), val(n + 2), val(n + 3)])
}

fn digest(n: u32) -> Digest {
    Digest([val(n); 8])
}

fn septic_digest(n: u32) -> SepticDigest {
    SepticDigest(Point { x: SepticVal([val(n); 7]), y: SepticVal([val(n + 1); 7]) })
}

fn ordering(entries: &[(&str, usize)]) -> ChipOrdering {
    ChipOrdering::from_entries(entries.iter().map(|(k, v)| (k.to_string(), *v)).collect()).unwrap()
}

fn shard_proof() -> ShardProof {
    let air = |n: u32| AirOpenedValues { local: vec![ex(n)], next: vec![ex(n + 10)] };
    ShardProof {
        commitment: ShardCommitment {
            main_commit: digest(1),
            permutation_commit: digest(2),
            quotient_commit: digest(3),
        },
        opened_values: ShardOpenedValues {
            chips: vec![ChipOpenedValues {
                preprocessed: air(1),
                main: air(2),
                permutation: air(3),
                quotient: vec![vec![ex(4)], vec![]],
                global_cumulative_sum: septic_digest(5),
                local_cumulative_sum: ex(6),
                log_degree: 7,
            }],
        },
        opening_proof: TwoAdicFriPcsProof {
            fri_proof: FriProof {
                commit_phase_commits: vec![digest(8)],
                query_proofs: vec![QueryProof {
                    commit_phase_openings: vec![CommitPhaseProofStep {
                        sibling_value: ex(9),
                        opening_proof: vec![[val(10); 8]],
                    }],
                }],
                final_poly: ex(11),
                pow_witness: val(12),
            },
            query_openings: vec![vec![BatchOpening {
                opened_values: vec![vec![val(13), val(14)]],
                opening_proof: vec![[val(15); 8]],
            }]],
        },
        chip_ordering: ordering(&[("Cpu", 1), ("Add", 0)]),
        public_values: vec![val(16), val(17)],
    }
}

fn verifying_key() -> StarkVerifyingKey {
    StarkVerifyingKey {
        commit: digest(20),
        pc_start: val(21),
        initial_global_cumulative_sum: septic_digest(22),
        chip_information: vec![(
            String::from("Program"),
            TwoAdicMultiplicativeCoset { log_n: 3, shift: val(23) },
            Dimensions { width: 4, height: 8 },
        )],
        chip_ordering: ordering(&[("Program", 0), ("Byte", 1)]),
    }
}

#[test]
fn field_elements_are_reduced_and_written_as_u32() {
    assert_eq!(val(BABY_BEAR_PRIME + 5).value, 5);
    assert_eq!(val(7).as_canonical_u32(), 7);
    assert_eq!(encode(val(0x0102_0304)), vec![4, 3, 2, 1]);
    let (v, n) = Val::from_bytes(&(BABY_BEAR_PRIME + 1).to_le_bytes(), 0).unwrap();
    assert_eq!((v.value, n), (1, 4));
    assert_eq!(Val::from_bytes(&[1, 2], 0).unwrap_err(), DecodeError::UnexpectedEnd);
}

#[test]
fn extension_elements_are_their_coefficients() {
    assert_eq!(
        encode(ex(1)),
        vec![1, 0, 0, 0, 2, 0, 0, 0, 3, 0, 0, 0, 4, 0, 0, 0]
    );
    assert_eq!(encode(SepticVal([val(1); 7])).len(), 28);
    assert_eq!(encode(septic_digest(1)).len(), 56);
    assert_eq!(encode(digest(1)).len(), 32);
    assert_eq!(encode(Word([val(1), val(2), val(3), val(4)])), encode(ex(1)));
    let (back, n) = ExVal::from_bytes(&encode(ex(5)), 0).unwrap();
    assert_eq!((back, n), (ex(5), 16));
}

#[test]
fn map_is_written_sorted_by_key() {
    let bytes = encode(ordering(&[("b", 1), ("a", 0)]));
    let mut expected = vec![2, 0, 0, 0];
    expected.extend([1, 0, 0, 0, b'a', 0, 0, 0, 0, 0, 0, 0, 0]);
    expected.extend([1, 0, 0, 0, b'b', 1, 0, 0, 0, 0, 0, 0, 0]);
    assert_eq!(bytes, expected);
    let (back, n) = ChipOrdering::from_bytes(&bytes, 0).unwrap();
    assert_eq!(n, bytes.len());
    assert_eq!(
        back.into_sorted_entries(),
        vec![(String::from("a"), 0), (String::from("b"), 1)]
    );
}

#[test]
fn chip_ordering_of_a_shard_is_sorted_by_index() {
    let bytes = encode(ChipOrderingByIndex(ordering(&[("a", 2), ("b", 1), ("c", 1)])));
    let mut expected = vec![3, 0, 0, 0];
    expected.extend([1, 0, 0, 0, b'b', 1, 0, 0, 0, 0, 0, 0, 0]);
    expected.extend([1, 0, 0, 0, b'c', 1, 0, 0, 0, 0, 0, 0, 0]);
    expected.extend([1, 0, 0, 0, b'a', 2, 0, 0, 0, 0, 0, 0, 0]);
    assert_eq!(bytes, expected);
}

#[test]
fn map_rejects_duplicate_keys() {
    let entries = vec![(String::from("a"), 0), (String::from("a"), 1)];
    assert_eq!(ChipOrdering::from_entries(entries.clone()).unwrap_err(), DecodeError::DuplicateKey);
    let bytes = encode(entries);
    assert_eq!(ChipOrdering::from_bytes(&bytes, 0).unwrap_err(), DecodeError::DuplicateKey);
}

#[test]
fn shard_proof_reads_back() {
    let bytes = encode(shard_proof());
    assert_eq!(bytes, encode(shard_proof()));
    let (back, n) = ShardProof::from_bytes(&bytes, 0).unwrap();
    assert_eq!(n, bytes.len());
    assert_eq!(encode(back), bytes);
    assert_eq!(
        ShardProof::from_bytes(&bytes[..bytes.len() - 1], 0).unwrap_err(),
        DecodeError::UnexpectedEnd
    );
}

#[test]
fn proof_with_metadata_reads_back() {
    let make = || SP1ProofWithMetadata {
        proof: SP1CoreProofData(vec![shard_proof(), shard_proof()]),
        stdin: SP1Stdin { buffer: vec![vec![1, 2], vec![]], ptr: 1 },
        public_values: SP1PublicValues { buffer: vec![9, 8, 7] },
        cycles: 1234,
    };
    let bytes = encode(make());
    let (back, n) = SP1ProofWithMetadata::from_bytes(&bytes, 0).unwrap();
    assert_eq!(n, bytes.len());
    assert_eq!(back.cycles, 1234);
    assert_eq!(back.stdin.buffer, vec![vec![1, 2], vec![]]);
    assert_eq!(back.public_values.buffer, vec![9, 8, 7]);
    assert_eq!(encode(back), bytes);
    let stdin = encode(SP1Stdin { buffer: vec![vec![5]], ptr: 0 });
    assert_eq!(stdin, vec![1, 0, 0, 0, 1, 0, 0, 0, 5, 0, 0, 0, 0, 0, 0, 0, 0]);
}

#[test]
fn verifying_key_reads_back() {
    let bytes = encode(verifying_key());
    let (back, n) = StarkVerifyingKey::from_bytes(&bytes, 0).unwrap();
    assert_eq!(n, bytes.len());
    assert_eq!(encode(back), bytes);
    assert_eq!(encode(Dimensions { width: 1, height: 2 }).len(), 16);
    assert_eq!(encode(TwoAdicMultiplicativeCoset { log_n: 1, shift: val(2) }).len(), 12);
}

#[test]
fn circuit_witness_is_tagged() {
    let compress = SP1CircuitWitness::Compress(SP1CompressWitnessValues {
        vks_and_proofs: vec![(verifying_key(), shard_proof())],
        is_complete: true,
    });
    let bytes = encode(compress);
    assert_eq!(bytes[0], 2);
    let (back, n) = SP1CircuitWitness::from_bytes(&bytes, 0).unwrap();
    assert_eq!(n, bytes.len());
    assert!(matches!(back, SP1CircuitWitness::Compress(_)));
    assert_eq!(encode(back), bytes);

    let core = SP1CircuitWitness::Core(SP1RecursionWitnessValues {
        vk: verifying_key(),
        shard_proofs: vec![shard_proof()],
        is_complete: false,
        is_first_shard: true,
        vk_root: [val(1); 8],
        reconstruct_deferred_digest: [val(2); 8],
    });
    let bytes = encode(core);
    assert_eq!(bytes[0], 0);
    let (back, _) = SP1CircuitWitness::from_bytes(&bytes, 0).unwrap();
    assert!(matches!(back, SP1CircuitWitness::Core(_)));
    assert_eq!(encode(back), bytes);

    let deferred = SP1CircuitWitness::Deferred(SP1DeferredWitnessValues {
        vks_and_proofs: vec![],
        vk_merkle_data: SP1MerkleProofWitnessValues {
            vk_merkle_proofs: vec![MerkleProof { index: 3, path: vec![[val(4); 8]] }],
            values: vec![[val(5); 8]],
            root: [val(6); 8],
        },
        start_reconstruct_deferred_digest: [val(7); 8],
        sp1_vk_digest: [val(8); 8],
        committed_value_digest: [Word([val(9); 4]); 8],
        deferred_proofs_digest: [val(10); 8],
        end_pc: val(11),
        end_shard: val(12),
        end_execution_shard: val(13),
        init_addr_bits: [val(1); 32],
        finalize_addr_bits: [val(0); 32],
        is_complete: true,
    });
    let bytes = encode(deferred);
    assert_eq!(bytes[0], 1);
    let (back, _) = SP1CircuitWitness::from_bytes(&bytes, 0).unwrap();
    assert!(matches!(back, SP1CircuitWitness::Deferred(_)));
    assert_eq!(encode(back), bytes);

    assert_eq!(SP1CircuitWitness::from_bytes(&[3], 0).unwrap_err(), DecodeError::UnknownVariant);
    assert_eq!(SP1CircuitWitness::from_bytes(&[], 0).unwrap_err(), DecodeError::UnexpectedEnd);
}

#[test]
fn what_is_read_can_be_written_and_read_again() {
    let (v, _) = Val::from_bytes(&(BABY_BEAR_PRIME + 1).to_le_bytes(), 0).unwrap();
    let bytes = encode(v);
    assert_eq!(bytes, vec![1, 0, 0, 0]);
    assert_eq!(Val::from_bytes(&bytes, 0).unwrap(), (v, 4));

    let mut unsorted = vec![2, 0, 0, 0];
    unsorted.extend([1, 0, 0, 0, b'z', 0, 0, 0, 0, 0, 0, 0, 0]);
    unsorted.extend([1, 0, 0, 0, b'y', 5, 0, 0, 0, 0, 0, 0, 0]);
    let (map, n) = ChipOrdering::from_bytes(&unsorted, 0).unwrap();
    assert_eq!(n, unsorted.len());
    let rewritten = encode(map);
    assert_ne!(rewritten, unsorted);
    let (again, _) = ChipOrdering::from_bytes(&rewritten, 0).unwrap();
    assert_eq!(
        again.into_sorted_entries(),
        vec![(String::from("y"), 5), (String::from("z"), 0)]
    );
}

#[test]
fn map_rebuilds_from_its_entries() {
    let map = ordering(&[("Cpu", 3), ("Add", 1), ("Mul", 2)]);
    let entries = map.into_sorted_entries();
    assert_eq!(
        entries,
        vec![(String::from("Add"), 1), (String::from("Cpu"), 3), (String::from("Mul"), 2)]
    );
    let rebuilt = ChipOrdering::from_entries(entries.clone()).unwrap();
    assert_eq!(rebuilt.into_sorted_entries(), entries);
}
