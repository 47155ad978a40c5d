use latent_diffusion::error::DiffusionError;
use latent_diffusion::schedule::{step_at, step_plan, StepPlan, TRAIN_TIMESTEPS};

#[test]
fn zero_steps_is_invalid() {
    assert_eq!(step_plan(0), Err(DiffusionError::InvalidParameter));
}

#[test]
fn plan_has_n_steps_descending() {
    for n in [1usize, 2, 3, 7, 30, 50, 999, 1000, 1001, 1500, 2000] {
        let plan = step_plan(n).unwrap();
        assert_eq!(plan.len(), n);
        assert_eq!(plan[0].index, n - 1);
        assert_eq!(plan[n - 1].index, 0);
        assert_eq!(plan[n - 1].next, None);
        for k in 0..n {
            if n <= TRAIN_TIMESTEPS {
                assert!(plan[k].timestep < TRAIN_TIMESTEPS);
            }
            if k + 1 < n {
                assert!(plan[k].index > plan[k + 1].index);
                assert_eq!(plan[k].next, Some(plan[k + 1].index));
                assert!(plan[k].timestep > plan[k + 1].timestep);
            }
        }
    }
}

#[test]
fn single_step_plan() {
    assert_eq!(step_plan(1), Ok(vec![StepPlan { index: 0, next: None, timestep: 0 }]));
}

#[test]
fn timesteps_spread_over_trained_range() {
    let plan = step_plan(4).unwrap();
    let ts: Vec<usize> = plan.iter().map(|s| s.timestep).collect();
    assert_eq!(ts, vec![750, 500, 250, 0]);
    assert_eq!(step_at(30, 0), StepPlan { index: 29, next: Some(28), timestep: 957 });
    assert_eq!(step_at(30, 29), StepPlan { index: 0, next: None, timestep: 0 });
}

#[test]
fn long_runs_keep_distinct_timesteps() {
    let plan = step_plan(2000).unwrap();
    assert_eq!(plan[1998], StepPlan { index: 1, next: Some(0), timestep: 1 });
    assert_eq!(plan[1999], StepPlan { index: 0, next: None, timestep: 0 });
    assert_eq!(plan[0].timestep, 1999);
}
