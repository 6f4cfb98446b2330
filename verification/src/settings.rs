use vstd::prelude::*;

use core::time::Duration;

verus! {

/// The kind of proof that a proving action produces.
#[derive(Debug, Clone, Copy, PartialEq, Eq, Structural)]
pub enum SP1ProofKind {
    /// One proof per shard. The default.
    Core,
    /// A single compressed recursion proof.
    Compressed,
    /// A PLONK proof over BN254.
    Plonk,
    /// A Groth16 proof over BN254.
    Groth16,
}

/// How the execution context is set up: the part of an action's configuration
/// that is plain data (hooks themselves are registered next to it).
#[derive(Debug, Clone, Copy, PartialEq, Eq, Structural)]
pub struct ContextSettings {
    /// The most cycles the execution may take, if limited.
    pub max_cycles: Option<u64>,
    /// Whether the default hooks are registered.
    pub default_hooks: bool,
    /// Whether deferred proofs are taken without verifying them.
    pub skip_deferred_proof_verification: bool,
}

/// The context of a fresh action: no cycle limit, default hooks registered,
/// deferred proofs verified.
pub open spec fn default_context() -> ContextSettings {
    ContextSettings { max_cycles: None, default_hooks: true, skip_deferred_proof_verification: false }
}

impl ContextSettings {
    /// The context of a fresh action.
    pub fn new() -> (r: ContextSettings)
        ensures
            r == default_context(),
    {
        ContextSettings {
            max_cycles: None,
            default_hooks: true,
            skip_deferred_proof_verification: false,
        }
    }
}

/// The configuration of an execution that is plain data.
#[derive(Debug, Clone, Copy, PartialEq, Eq, Structural)]
pub struct Execute {
    pub context: ContextSettings,
}

impl Execute {
    /// A fresh execution: the default context.
    pub fn new() -> (r: Execute)
        ensures
            r.context == default_context(),
    {
        Execute { context: ContextSettings::new() }
    }

    /// Stops registering the default hooks.
    pub fn without_default_hooks(self) -> (r: Execute)
        ensures
            r.context == (ContextSettings { default_hooks: false, ..self.context }),
    {
        let mut s = self;
        s.context.default_hooks = false;
        s
    }

    /// Limits the execution to `max_cycles` cycles.
    pub fn max_cycles(self, max_cycles: u64) -> (r: Execute)
        ensures
            r.context == (ContextSettings { max_cycles: Some(max_cycles), ..self.context }),
    {
        let mut s = self;
        s.context.max_cycles = Some(max_cycles);
        s
    }

    /// Sets whether deferred proofs are taken without verifying them.
    pub fn set_skip_deferred_proof_verification(self, value: bool) -> (r: Execute)
        ensures
            r.context == (ContextSettings { skip_deferred_proof_verification: value, ..self.context }),
    {
        let mut s = self;
        s.context.skip_deferred_proof_verification = value;
        s
    }
}

/// The configuration of a proving action that is plain data.
#[derive(Debug, Clone, Copy)]
pub struct Prove {
    /// The kind of proof to produce.
    pub kind: SP1ProofKind,
    /// The execution context.
    pub context: ContextSettings,
    /// The size of a shard, in cycles.
    pub shard_size: usize,
    /// The size of a batch of shards, in cycles.
    pub shard_batch_size: usize,
    /// Whether commitments are recomputed while proving.
    pub reconstruct_commitments: bool,
    /// How long a proof may take (used by network provers).
    pub timeout: Option<Duration>,
}

impl Prove {
    /// A fresh proving action on the given core options: core proofs, the
    /// default context, no timeout.
    pub fn new(shard_size: usize, shard_batch_size: usize, reconstruct_commitments: bool) -> (r:
        Prove)
        ensures
            r.kind == SP1ProofKind::Core,
            r.context == default_context(),
            r.shard_size == shard_size,
            r.shard_batch_size == shard_batch_size,
            r.reconstruct_commitments == reconstruct_commitments,
            r.timeout is None,
    {
        Prove {
            kind: SP1ProofKind::Core,
            context: ContextSettings::new(),
            shard_size,
            shard_batch_size,
            reconstruct_commitments,
            timeout: None,
        }
    }

    /// Produces core proofs.
    pub fn core_mode(self) -> (r: Prove)
        ensures
            r == (Prove { kind: SP1ProofKind::Core, ..self }),
    {
        let mut s = self;
        s.kind = SP1ProofKind::Core;
        s
    }

    /// Produces a compressed proof.
    pub fn compressed(self) -> (r: Prove)
        ensures
            r == (Prove { kind: SP1ProofKind::Compressed, ..self }),
    {
        let mut s = self;
        s.kind = SP1ProofKind::Compressed;
        s
    }

    /// Produces a PLONK proof.
    pub fn plonk(self) -> (r: Prove)
        ensures
            r == (Prove { kind: SP1ProofKind::Plonk, ..self }),
    {
        let mut s = self;
        s.kind = SP1ProofKind::Plonk;
        s
    }

    /// Produces a Groth16 proof.
    pub fn groth16(self) -> (r: Prove)
        ensures
            r == (Prove { kind: SP1ProofKind::Groth16, ..self }),
    {
        let mut s = self;
        s.kind = SP1ProofKind::Groth16;
        s
    }

    /// Stops registering the default hooks.
    pub fn without_default_hooks(self) -> (r: Prove)
        ensures
            r == (Prove { context: ContextSettings { default_hooks: false, ..self.context }, ..self }),
    {
        let mut s = self;
        s.context.default_hooks = false;
        s
    }

    /// Sets the shard size.
    pub fn shard_size(self, value: usize) -> (r: Prove)
        ensures
            r == (Prove { shard_size: value, ..self }),
    {
        let mut s = self;
        s.shard_size = value;
        s
    }

    /// Sets the shard batch size.
    pub fn shard_batch_size(self, value: usize) -> (r: Prove)
        ensures
            r == (Prove { shard_batch_size: value, ..self }),
    {
        let mut s = self;
        s.shard_batch_size = value;
        s
    }

    /// Sets whether commitments are recomputed while proving.
    pub fn reconstruct_commitments(self, value: bool) -> (r: Prove)
        ensures
            r == (Prove { reconstruct_commitments: value, ..self }),
    {
        let mut s = self;
        s.reconstruct_commitments = value;
        s
    }

    /// Limits the execution to `cycle_limit` cycles.
    pub fn cycle_limit(self, cycle_limit: u64) -> (r: Prove)
        ensures
            r == (Prove {
                context: ContextSettings { max_cycles: Some(cycle_limit), ..self.context },
                ..self
            }),
    {
        let mut s = self;
        s.context.max_cycles = Some(cycle_limit);
        s
    }

    /// Sets how long a proof may take.
    pub fn timeout(self, timeout: Duration) -> (r: Prove)
        ensures
            r == (Prove { timeout: Some(timeout), ..self }),
    {
        let mut s = self;
        s.timeout = Some(timeout);
        s
    }

    /// Sets whether deferred proofs are taken without verifying them.
    pub fn set_skip_deferred_proof_verification(self, value: bool) -> (r: Prove)
        ensures
            r == (Prove {
                context: ContextSettings { skip_deferred_proof_verification: value, ..self.context },
                ..self
            }),
    {
        let mut s = self;
        s.context.skip_deferred_proof_verification = value;
        s
    }
}

} // verus!
