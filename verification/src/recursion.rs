use vstd::prelude::*;

verus! {

/// The input of one recursion proof: a single shard proof with its key, or
/// two proofs with their keys to combine.
#[derive(Debug)]
pub enum RecursionInput<V, P> {
    Single { vk: V, proof: P, is_first_shard: bool },
    Double { vks_and_proofs: [(V, P); 2] },
}

/// Why recursion inputs were refused.
#[derive(Debug, Clone, Copy, PartialEq, Eq, Structural)]
pub enum RecursionInputError {
    /// The first layer was given a combined input.
    ExpectedSingle,
    /// Two-to-one combination was given a combined input as its first input.
    ExpectedSingleFirst,
    /// Two-to-one combination was given a combined input as its second input.
    ExpectedSingleSecond,
}

/// The inputs of the first recursion layer, one for each shard proof: every
/// proof with a clone of the key, the first one marked as the first shard.
pub fn shard_recursion_inputs<V: Clone, P: Clone>(vk: &V, proofs: &Vec<P>) -> (inputs: Vec<
    RecursionInput<V, P>,
>)
    ensures
        inputs@.len() == proofs@.len(),
        forall|i: int|
            0 <= i < inputs@.len() ==> match #[trigger] inputs@[i] {
                RecursionInput::Single { vk: v, proof, is_first_shard } => cloned(*vk, v) && cloned(
                    proofs@[i],
                    proof,
                ) && is_first_shard == (i == 0),
                RecursionInput::Double { .. } => false,
            },
{
    let mut output: Vec<RecursionInput<V, P>> = Vec::new();
    let mut index: usize = 0;
    while index < proofs.len()
        invariant
            index <= proofs@.len(),
            output@.len() == index,
            forall|i: int|
                0 <= i < output@.len() ==> match #[trigger] output@[i] {
                    RecursionInput::Single { vk: v, proof, is_first_shard } => cloned(*vk, v)
                        && cloned(proofs@[i], proof) && is_first_shard == (i == 0),
                    RecursionInput::Double { .. } => false,
                },
        decreases proofs@.len() - index,
    {
        let recursion_input = RecursionInput::Single {
            vk: vk.clone(),
            proof: proofs[index].clone(),
            is_first_shard: index == 0,
        };
        output.push(recursion_input);
        index = index + 1;
    }
    output
}

/// The input of the first recursion layer: the given input when it is a
/// single proof; a combined input is refused.
pub fn recursion_first_layer_input<V, P>(input: RecursionInput<V, P>) -> (r: Result<
    RecursionInput<V, P>,
    RecursionInputError,
>)
    ensures
        match input {
            RecursionInput::Single { .. } => r == Ok::<
                RecursionInput<V, P>,
                RecursionInputError,
            >(input),
            RecursionInput::Double { .. } => r == Err::<
                RecursionInput<V, P>,
                RecursionInputError,
            >(RecursionInputError::ExpectedSingle),
        },
{
    match input {
        RecursionInput::Single { .. } => Ok(input),
        RecursionInput::Double { .. } => Err(RecursionInputError::ExpectedSingle),
    }
}

/// The input that combines two single proofs: both proofs with their keys, in
/// order. A combined input in either place is refused, the first place first.
pub fn recursion_two_to_one_input<V, P>(
    input1: RecursionInput<V, P>,
    input2: RecursionInput<V, P>,
) -> (r: Result<RecursionInput<V, P>, RecursionInputError>)
    ensures
        match (input1, input2) {
            (
                RecursionInput::Single { vk: vk1, proof: proof1, .. },
                RecursionInput::Single { vk: vk2, proof: proof2, .. },
            ) => r matches Ok(RecursionInput::Double { vks_and_proofs }) && vks_and_proofs@ == seq![
                (vk1, proof1),
                (vk2, proof2),
            ],
            (RecursionInput::Double { .. }, _) => r == Err::<
                RecursionInput<V, P>,
                RecursionInputError,
            >(RecursionInputError::ExpectedSingleFirst),
            (RecursionInput::Single { .. }, RecursionInput::Double { .. }) => r == Err::<
                RecursionInput<V, P>,
                RecursionInputError,
            >(RecursionInputError::ExpectedSingleSecond),
        },
{
    let (vk1, proof1) = match input1 {
        RecursionInput::Single { vk, proof, .. } => (vk, proof),
        RecursionInput::Double { .. } => {
            return Err(RecursionInputError::ExpectedSingleFirst);
        },
    };
    let (vk2, proof2) = match input2 {
        RecursionInput::Single { vk, proof, .. } => (vk, proof),
        RecursionInput::Double { .. } => {
            return Err(RecursionInputError::ExpectedSingleSecond);
        },
    };
    let vks_and_proofs = [(vk1, proof1), (vk2, proof2)];
    assert(vks_and_proofs@ =~= seq![(vk1, proof1), (vk2, proof2)]);
    Ok(RecursionInput::Double { vks_and_proofs })
}

} // verus!
