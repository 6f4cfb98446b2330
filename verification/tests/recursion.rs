use sp1_sdk::recursion::{
    recursion_first_layer_input, recursion_two_to_one_input, shard_recursion_inputs,
    RecursionInput, RecursionInputError,
};
use sp1_sdk::settings::{ContextSettings, Execute, Prove, SP1ProofKind};
use std::time::Duration;

fn single(vk: u32, proof: &str) -> RecursionInput<u32, String> {
    RecursionInput::Single { vk, proof: proof.to_string(), is_first_shard: false }
}

#[test]
fn shard_inputs_mark_only_the_first_shard() {
    let proofs = vec![String::from("p0"), String::from("p1"), String::from("p2")];
    let inputs = shard_recursion_inputs(&7u32, &proofs);
    assert_eq!(inputs.len(), 3);
    for (i, input) in inputs.iter().enumerate() {
        match input {
            RecursionInput::Single { vk, proof, is_first_shard } => {
                assert_eq!(*vk, 7);
                assert_eq!(proof, &proofs[i]);
                assert_eq!(*is_first_shard, i == 0);
            }
            RecursionInput::Double { .. } => panic!("expected a single input"),
        }
    }
    assert!(shard_recursion_inputs(&7u32, &Vec::<String>::new()).is_empty());
}

#[test]
fn first_layer_takes_only_single_inputs() {
    match recursion_first_layer_input(single(1, "a")).unwrap() {
        RecursionInput::Single { vk, proof, .. } => assert_eq!((vk, proof.as_str()), (1, "a")),
        RecursionInput::Double { .. } => panic!("expected the input back"),
    }
    let double = RecursionInput::Double { vks_and_proofs: [(1u32, String::from("a")), (2, String::from("b"))] };
    assert_eq!(recursion_first_layer_input(double).unwrap_err(), RecursionInputError::ExpectedSingle);
}

#[test]
fn two_to_one_combines_in_order() {
    match recursion_two_to_one_input(single(1, "a"), single(2, "b")).unwrap() {
        RecursionInput::Double { vks_and_proofs } => {
            assert_eq!(vks_and_proofs, [(1, String::from("a")), (2, String::from("b"))]);
        }
        RecursionInput::Single { .. } => panic!("expected a combined input"),
    }
    let double = || RecursionInput::Double { vks_and_proofs: [(1u32, String::from("a")), (2, String::from("b"))] };
    assert_eq!(
        recursion_two_to_one_input(double(), single(2, "b")).unwrap_err(),
        RecursionInputError::ExpectedSingleFirst
    );
    assert_eq!(
        recursion_two_to_one_input(double(), double()).unwrap_err(),
        RecursionInputError::ExpectedSingleFirst
    );
    assert_eq!(
        recursion_two_to_one_input(single(1, "a"), double()).unwrap_err(),
        RecursionInputError::ExpectedSingleSecond
    );
}

#[test]
fn prove_settings_builders() {
    let p = Prove::new(1 << 20, 16, false);
    assert_eq!(p.kind, SP1ProofKind::Core);
    assert_eq!(p.context, ContextSettings::new());
    assert!(p.timeout.is_none());
    let p = p.compressed().shard_size(1 << 10).shard_batch_size(4).reconstruct_commitments(true);
    assert_eq!((p.kind, p.shard_size, p.shard_batch_size, p.reconstruct_commitments), (SP1ProofKind::Compressed, 1 << 10, 4, true));
    assert_eq!(p.plonk().kind, SP1ProofKind::Plonk);
    assert_eq!(p.groth16().kind, SP1ProofKind::Groth16);
    assert_eq!(p.groth16().core_mode().kind, SP1ProofKind::Core);
    let p = p.cycle_limit(99).without_default_hooks().set_skip_deferred_proof_verification(true).timeout(Duration::from_secs(3));
    assert_eq!(p.context, ContextSettings { max_cycles: Some(99), default_hooks: false, skip_deferred_proof_verification: true });
    assert_eq!(p.timeout, Some(Duration::from_secs(3)));
}

#[test]
fn execute_settings_builders() {
    let e = Execute::new();
    assert_eq!(e.context, ContextSettings { max_cycles: None, default_hooks: true, skip_deferred_proof_verification: false });
    let e = e.max_cycles(5).without_default_hooks().set_skip_deferred_proof_verification(true);
    assert_eq!(e.context, ContextSettings { max_cycles: Some(5), default_hooks: false, skip_deferred_proof_verification: true });
}
