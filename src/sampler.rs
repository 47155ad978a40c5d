use vstd::prelude::*;

use crate::error::DiffusionError;
use crate::resolution::{ResolutionBucket, is_supported};
use crate::schedule::{StepPlan, step_at, step_spec, step_stride};

verus! {

/// Whether two shapes are the same dimension by dimension.
pub fn same_shape(a: &Vec<usize>, b: &Vec<usize>) -> (r: bool)
    ensures
        r == (a@ == b@),
{
    if a.len() != b.len() {
        return false;
    }
    let mut i: usize = 0;
    while i < a.len()
        invariant
            a@.len() == b@.len(),
            i <= a@.len(),
            forall|j: int| 0 <= j < i ==> a@[j] == b@[j],
        decreases a@.len() - i,
    {
        if a[i] != b[i] {
            return false;
        }
        i = i + 1;
    }
    assert(a@ =~= b@);
    true
}

/// The shapes of the four conditioning tensors, with the bucket they were built for.
pub struct ConditioningShapes {
    /// Conditional text embedding: batch x sequence x hidden.
    pub context: Vec<usize>,
    /// Text embedding of the empty prompt, same shape as `context`.
    pub unconditional_context: Vec<usize>,
    /// Conditional size/crop embedding: batch x hidden.
    pub channel_context: Vec<usize>,
    /// Size/crop embedding of the unconditional branch, same shape as `channel_context`.
    pub unconditional_channel_context: Vec<usize>,
    pub resolution: ResolutionBucket,
}

impl ConditioningShapes {
    /// Both branches have matching shapes and all four tensors share a non-empty batch.
    pub open spec fn consistent(&self) -> bool {
        &&& self.context@.len() == 3
        &&& self.channel_context@.len() == 2
        &&& self.unconditional_context@ == self.context@
        &&& self.unconditional_channel_context@ == self.channel_context@
        &&& self.context@[0] == self.channel_context@[0]
        &&& self.context@[0] >= 1
    }

    /// The batch size shared by the conditioning tensors.
    pub open spec fn batch(&self) -> nat {
        self.context@[0] as nat
    }

    /// Checks `consistent`.
    pub fn is_consistent(&self) -> (r: bool)
        ensures
            r == self.consistent(),
    {
        self.context.len() == 3 && self.channel_context.len() == 2 && same_shape(
            &self.unconditional_context,
            &self.context,
        ) && same_shape(&self.unconditional_channel_context, &self.channel_context)
            && self.context[0] == self.channel_context[0] && self.context[0] >= 1
    }
}

/// What the driver of a sampling run does next.
#[derive(Debug, Clone, Copy, PartialEq, Eq, Structural)]
pub enum SamplerAction {
    /// Run the denoiser on both branches for this step, combine the estimates and update the latent.
    Denoise(StepPlan),
    /// The latent is final.
    Finished,
    /// The run failed; its latent is discarded and no further step is taken.
    Aborted,
}

/// The abstract state of a sampling run.
pub ghost struct SamplerState {
    pub n_steps: nat,
    pub completed: nat,
    pub latent_shape: Seq<usize>,
    pub failed: bool,
}

impl SamplerState {
    pub open spec fn wf(self) -> bool {
        1 <= self.n_steps && self.completed <= self.n_steps
    }

    /// The action a run in this state asks for.
    pub open spec fn action(self) -> SamplerAction {
        if self.failed {
            SamplerAction::Aborted
        } else if self.completed < self.n_steps {
            SamplerAction::Denoise(step_spec(self.n_steps, self.completed))
        } else {
            SamplerAction::Finished
        }
    }

    /// The state after a step whose estimates had the latent's shape.
    pub open spec fn advanced(self) -> SamplerState {
        SamplerState { completed: self.completed + 1, ..self }
    }

    /// The state after a step whose estimates did not have the latent's shape.
    pub open spec fn aborted(self) -> SamplerState {
        SamplerState { failed: true, ..self }
    }

    /// The state after `k` such steps.
    pub open spec fn advanced_by(self, k: nat) -> SamplerState {
        SamplerState { completed: self.completed + k, ..self }
    }
}

/// The decisions of a sampling run: which schedule step comes next, whether the
/// denoiser's estimates fit the latent, and when the latent is final. The tensor
/// arithmetic of each step is done by the caller.
pub struct Sampler {
    n_steps: usize,
    completed: usize,
    latent_shape: Vec<usize>,
    failed: bool,
}

impl View for Sampler {
    type V = SamplerState;

    closed spec fn view(&self) -> SamplerState {
        SamplerState {
            n_steps: self.n_steps as nat,
            completed: self.completed as nat,
            latent_shape: self.latent_shape@,
            failed: self.failed,
        }
    }
}

impl Sampler {
    /// Starts a run of `n_steps` steps for `conditioning`. Zero steps or a size outside
    /// the resolution table is an invalid parameter; conditioning tensors of
    /// inconsistent shapes are a shape mismatch.
    pub fn new(conditioning: &ConditioningShapes, n_steps: usize) -> (r: Result<
        Sampler,
        DiffusionError,
    >)
        ensures
            r.is_ok() <==> n_steps >= 1 && conditioning.resolution.in_table()
                && conditioning.consistent(),
            (n_steps == 0 || !conditioning.resolution.in_table()) ==> r == Err::<
                Sampler,
                DiffusionError,
            >(DiffusionError::InvalidParameter),
            (n_steps >= 1 && conditioning.resolution.in_table() && !conditioning.consistent())
                ==> r == Err::<Sampler, DiffusionError>(DiffusionError::ShapeMismatch),
            r.is_ok() ==> r->Ok_0@ == (SamplerState {
                n_steps: n_steps as nat,
                completed: 0,
                latent_shape: conditioning.resolution.latent_shape_spec(conditioning.batch()),
                failed: false,
            }),
            r.is_ok() ==> r->Ok_0@.wf(),
    {
        if n_steps == 0 || !is_supported(&conditioning.resolution) {
            return Err(DiffusionError::InvalidParameter);
        }
        if !conditioning.is_consistent() {
            return Err(DiffusionError::ShapeMismatch);
        }
        let latent_shape = conditioning.resolution.latent_shape(conditioning.context[0]);
        Ok(Sampler { n_steps, completed: 0, latent_shape, failed: false })
    }

    /// Number of steps of the run.
    pub fn n_steps(&self) -> (r: usize)
        ensures
            r == self@.n_steps,
    {
        self.n_steps
    }

    /// Number of steps whose estimates have been accepted.
    pub fn completed(&self) -> (r: usize)
        ensures
            r == self@.completed,
    {
        self.completed
    }

    /// Shape of the latent being denoised.
    pub fn latent_shape(&self) -> (r: &Vec<usize>)
        ensures
            r@ == self@.latent_shape,
    {
        &self.latent_shape
    }

    /// The next action of the run.
    pub fn next_action(&self) -> (r: SamplerAction)
        requires
            self@.wf(),
        ensures
            r == self@.action(),
    {
        if self.failed {
            SamplerAction::Aborted
        } else if self.completed < self.n_steps {
            SamplerAction::Denoise(step_at(self.n_steps, self.completed))
        } else {
            SamplerAction::Finished
        }
    }

    /// Checks the shape of one estimate of the current step before the other is
    /// computed. An estimate without the latent's shape fails the whole run.
    pub fn check_estimate(&mut self, estimate: &Vec<usize>) -> (r: Result<(), DiffusionError>)
        requires
            old(self)@.wf(),
            !old(self)@.failed,
            old(self)@.completed < old(self)@.n_steps,
        ensures
            r.is_ok() <==> estimate@ == old(self)@.latent_shape,
            r.is_ok() ==> final(self)@ == old(self)@,
            !r.is_ok() ==> r == Err::<(), DiffusionError>(DiffusionError::ShapeMismatch),
            !r.is_ok() ==> final(self)@ == old(self)@.aborted(),
            !r.is_ok() ==> final(self)@.action() == SamplerAction::Aborted,
            final(self)@.wf(),
    {
        if !same_shape(estimate, &self.latent_shape) {
            self.failed = true;
            return Err(DiffusionError::ShapeMismatch);
        }
        Ok(())
    }

    /// Accepts the conditional and unconditional estimates of the current step, given by
    /// their shapes. Both must have the latent's shape; otherwise the whole run fails:
    /// it is aborted and asks for no further step.
    pub fn record_estimates(&mut self, conditional: &Vec<usize>, unconditional: &Vec<usize>) -> (r:
        Result<(), DiffusionError>)
        requires
            old(self)@.wf(),
            !old(self)@.failed,
            old(self)@.completed < old(self)@.n_steps,
        ensures
            r.is_ok() <==> (conditional@ == old(self)@.latent_shape
                && unconditional@ == old(self)@.latent_shape),
            r.is_ok() ==> final(self)@ == old(self)@.advanced(),
            !r.is_ok() ==> r == Err::<(), DiffusionError>(DiffusionError::ShapeMismatch),
            !r.is_ok() ==> final(self)@ == old(self)@.aborted(),
            !r.is_ok() ==> final(self)@.action() == SamplerAction::Aborted,
            final(self)@.wf(),
    {
        if !same_shape(conditional, &self.latent_shape) || !same_shape(
            unconditional,
            &self.latent_shape,
        ) {
            self.failed = true;
            return Err(DiffusionError::ShapeMismatch);
        }
        self.completed = self.completed + 1;
        Ok(())
    }

    /// Whether the run has failed.
    pub fn is_aborted(&self) -> (r: bool)
        ensures
            r == self@.failed,
    {
        self.failed
    }
}

/// A run of `n` steps asks for exactly `n` denoising steps: after `k` accepted steps it
/// asks for step `k` while `k < n`, and is finished once `k == n`.
pub proof fn lemma_run_denoises_n_times(s: SamplerState, k: nat)
    requires
        s.wf(),
        !s.failed,
        s.completed == 0,
        k <= s.n_steps,
    ensures
        s.advanced_by(k).wf(),
        k < s.n_steps ==> s.advanced_by(k).action() == SamplerAction::Denoise(
            step_spec(s.n_steps, k),
        ),
        k == s.n_steps ==> s.advanced_by(k).action() == SamplerAction::Finished,
        k < s.n_steps ==> s.advanced_by(k).advanced() == s.advanced_by(k + 1),
{
}

/// A one-step run denoises once, from schedule entry 0 straight to the clean end, and
/// is then finished.
pub proof fn lemma_single_step_run(s: SamplerState)
    requires
        s.wf(),
        !s.failed,
        s.completed == 0,
        s.n_steps == 1,
    ensures
        s.action() == SamplerAction::Denoise(
            StepPlan { index: 0, next: None, timestep: 0 },
        ),
        s.advanced().action() == SamplerAction::Finished,
{
    assert(0 * step_stride(1) == 0);
}

/// A failed run never asks for another denoising step, whatever came before: a shape
/// mismatch is fatal for the whole run.
pub proof fn lemma_failed_run_never_denoises(s: SamplerState)
    requires
        s.failed,
    ensures
        s.action() == SamplerAction::Aborted,
        s.aborted().action() == SamplerAction::Aborted,
        forall|k: nat| !(#[trigger] s.advanced_by(k).action() is Denoise),
{
}

} // verus!
