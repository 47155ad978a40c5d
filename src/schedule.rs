use vstd::prelude::*;

use crate::error::DiffusionError;

verus! {

/// Number of discrete corruption levels the denoiser was trained over.
pub const TRAIN_TIMESTEPS: usize = 1000;

/// One denoising step: the schedule entry it starts from, the entry it moves to
/// (`None` for the fully clean end), and the timestep handed to the denoiser.
#[derive(Debug, Clone, Copy, PartialEq, Eq, Structural)]
pub struct StepPlan {
    pub index: usize,
    pub next: Option<usize>,
    pub timestep: usize,
}

/// Spacing between the denoiser timesteps of consecutive schedule entries: the trained
/// range shared out evenly over the entries, and never less than one.
pub open spec fn step_stride(n_steps: nat) -> nat {
    if n_steps >= TRAIN_TIMESTEPS {
        1
    } else {
        TRAIN_TIMESTEPS as nat / n_steps
    }
}

/// The denoiser timestep of schedule entry `index` out of `n_steps`.
pub open spec fn timestep_of(index: nat, n_steps: nat) -> nat {
    index * step_stride(n_steps)
}

/// The `k`-th step of an `n_steps` run: steps walk the schedule from its most corrupted
/// entry (`n_steps - 1`) down to entry 0, each moving to the entry just below it.
pub open spec fn step_spec(n_steps: nat, k: nat) -> StepPlan
    recommends
        k < n_steps,
{
    let index = (n_steps - 1 - k) as nat;
    StepPlan {
        index: index as usize,
        next: if index > 0 { Some((index - 1) as usize) } else { None },
        timestep: timestep_of(index, n_steps) as usize,
    }
}

proof fn lemma_timestep_bound(index: nat, n_steps: nat)
    requires
        index < n_steps,
    ensures
        step_stride(n_steps) >= 1,
        n_steps <= TRAIN_TIMESTEPS ==> timestep_of(index, n_steps) < TRAIN_TIMESTEPS,
        n_steps >= TRAIN_TIMESTEPS ==> timestep_of(index, n_steps) == index,
{
    let t = TRAIN_TIMESTEPS as nat;
    if n_steps < t {
        let q = t / n_steps;
        assert(q >= 1 && q * n_steps <= t) by (nonlinear_arith)
            requires n_steps < t, n_steps >= 1, q == t / n_steps;
        assert(index * q < n_steps * q) by (nonlinear_arith)
            requires index < n_steps, q >= 1;
        assert(n_steps * q == q * n_steps) by (nonlinear_arith);
    } else if n_steps == t {
        assert(timestep_of(index, n_steps) == index);
    }
}

/// Schedule entries further from the clean end run at strictly later timesteps.
pub proof fn lemma_timestep_strictly_increasing(i: nat, j: nat, n_steps: nat)
    requires
        i < j < n_steps,
    ensures
        timestep_of(i, n_steps) < timestep_of(j, n_steps),
{
    lemma_timestep_bound(i, n_steps);
    let s = step_stride(n_steps);
    assert(i * s < j * s) by (nonlinear_arith)
        requires i < j, s >= 1;
}

/// The `k`-th step of an `n_steps` run.
pub fn step_at(n_steps: usize, k: usize) -> (r: StepPlan)
    requires
        k < n_steps,
    ensures
        r == step_spec(n_steps as nat, k as nat),
{
    let index: usize = n_steps - 1 - k;
    proof {
        lemma_timestep_bound(index as nat, n_steps as nat);
    }
    let stride: usize = if n_steps >= TRAIN_TIMESTEPS {
        1
    } else {
        TRAIN_TIMESTEPS / n_steps
    };
    let timestep = index * stride;
    let next = if index > 0 { Some(index - 1) } else { None };
    StepPlan { index, next, timestep }
}

/// The full step sequence of an `n_steps` run; a run of zero steps is rejected.
pub fn step_plan(n_steps: usize) -> (r: Result<Vec<StepPlan>, DiffusionError>)
    ensures
        r.is_ok() <==> n_steps >= 1,
        !r.is_ok() ==> r->Err_0 == DiffusionError::InvalidParameter,
        r.is_ok() ==> r->Ok_0@.len() == n_steps,
        r.is_ok() ==> forall|k: int| 0 <= k < n_steps ==> #[trigger] r->Ok_0@[k] == step_spec(n_steps as nat, k as nat),
{
    if n_steps == 0 {
        return Err(DiffusionError::InvalidParameter);
    }
    let mut plan: Vec<StepPlan> = Vec::new();
    let mut k: usize = 0;
    while k < n_steps
        invariant
            k <= n_steps,
            plan@.len() == k,
            forall|j: int| 0 <= j < k ==> #[trigger] plan@[j] == step_spec(n_steps as nat, j as nat),
        decreases n_steps - k,
    {
        plan.push(step_at(n_steps, k));
        k = k + 1;
    }
    Ok(plan)
}

/// A run of `n_steps >= 1` visits each schedule entry once, from the most corrupted to
/// the least, each step moving to the entry that the following step starts from, the
/// last one to the clean end. Every step runs the denoiser at a timestep strictly
/// earlier than the step before it, and a run of at most the trained number of
/// timesteps stays within the trained range.
pub proof fn lemma_plan_walks_schedule(n_steps: usize)
    requires
        n_steps >= 1,
    ensures
        step_spec(n_steps as nat, 0).index == n_steps - 1,
        step_spec(n_steps as nat, (n_steps - 1) as nat).index == 0,
        step_spec(n_steps as nat, (n_steps - 1) as nat).next is None,
        forall|k: nat|
            k + 1 < n_steps ==> (#[trigger] step_spec(n_steps as nat, k)).next == Some(
                step_spec(n_steps as nat, k + 1).index,
            ),
        forall|k: nat, j: nat|
            k < j < n_steps ==> (#[trigger] step_spec(n_steps as nat, k)).index > (
            #[trigger] step_spec(n_steps as nat, j)).index,
        forall|k: nat, j: nat|
            k < j < n_steps ==> (#[trigger] step_spec(n_steps as nat, k)).timestep > (
            #[trigger] step_spec(n_steps as nat, j)).timestep,
        forall|k: nat|
            k < n_steps && n_steps <= TRAIN_TIMESTEPS ==> (#[trigger] step_spec(
                n_steps as nat,
                k,
            )).timestep < TRAIN_TIMESTEPS,
{
    let n = n_steps as nat;
    assert forall|k: nat, j: nat| k < j < n_steps implies (#[trigger] step_spec(n, k)).timestep
        > (#[trigger] step_spec(n, j)).timestep by {
        let a = (n - 1 - j) as nat;
        let b = (n - 1 - k) as nat;
        lemma_timestep_strictly_increasing(a, b, n);
        lemma_timestep_bound(a, n);
        lemma_timestep_bound(b, n);
    }
    assert forall|k: nat| k < n_steps && n_steps <= TRAIN_TIMESTEPS implies (#[trigger] step_spec(
        n,
        k,
    )).timestep < TRAIN_TIMESTEPS by {
        lemma_timestep_bound((n - 1 - k) as nat, n);
    }
}

} // verus!
