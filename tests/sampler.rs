use latent_diffusion::error::DiffusionError;
use latent_diffusion::image::latent_to_image;
use latent_diffusion::resolution::{bucket_at, ResolutionBucket, NUM_RESOLUTIONS};
use latent_diffusion::sampler::{same_shape, ConditioningShapes, Sampler, SamplerAction};
use latent_diffusion::schedule::StepPlan;

fn conditioning(resolution: ResolutionBucket, batch: usize) -> ConditioningShapes {
    ConditioningShapes {
        context: vec![batch, 77, 2048],
        unconditional_context: vec![batch, 77, 2048],
        channel_context: vec![batch, 2816],
        unconditional_channel_context: vec![batch, 2816],
        resolution,
    }
}

/// Drives a run to the end, feeding estimates of the latent's shape; returns the steps taken.
fn run(sampler: &mut Sampler) -> Vec<StepPlan> {
    let mut steps = Vec::new();
    while let SamplerAction::Denoise(step) = sampler.next_action() {
        steps.push(step);
        let shape = sampler.latent_shape().clone();
        sampler.record_estimates(&shape, &shape).unwrap();
    }
    steps
}

#[test]
fn single_step_run_denoises_once() {
    let cond = conditioning(bucket_at(20).unwrap(), 1);
    let mut s = Sampler::new(&cond, 1).unwrap();
    assert_eq!(s.latent_shape(), &vec![1, 4, 128, 128]);
    let steps = run(&mut s);
    assert_eq!(steps, vec![StepPlan { index: 0, next: None, timestep: 0 }]);
    assert_eq!(s.completed(), 1);
    assert_eq!(s.next_action(), SamplerAction::Finished);
}

#[test]
fn reference_run_completes_with_expected_image_size() {
    let bucket = bucket_at(8).unwrap();
    let cond = conditioning(bucket, 1);
    let mut s = Sampler::new(&cond, 30).unwrap();
    assert_eq!(s.n_steps(), 30);
    let steps = run(&mut s);
    assert_eq!(steps.len(), 30);
    assert_eq!(steps[0].index, 29);
    assert_eq!(steps[29].index, 0);
    let latent = s.latent_shape().clone();
    assert_eq!(latent, vec![1, 4, 192, 80]);
    let decoded = vec![1, 3, 1536, 640];
    let pixels = vec![0u8; 3 * 1536 * 640];
    let img = latent_to_image(&latent, &decoded, &pixels).unwrap();
    assert_eq!(img.width, bucket.width as usize);
    assert_eq!(img.height, bucket.height as usize);
    assert_eq!(img.buffer.len(), 1);
    assert_eq!(img.buffer[0].len(), 640 * 1536 * 3);
}

#[test]
fn out_of_range_resolution_fails_before_sampling() {
    assert_eq!(bucket_at(NUM_RESOLUTIONS), Err(DiffusionError::InvalidParameter));
    let cond = conditioning(ResolutionBucket { width: 100, height: 100 }, 1);
    assert_eq!(Sampler::new(&cond, 30).err(), Some(DiffusionError::InvalidParameter));
}

#[test]
fn zero_steps_is_invalid_parameter() {
    let cond = conditioning(bucket_at(8).unwrap(), 1);
    assert_eq!(Sampler::new(&cond, 0).err(), Some(DiffusionError::InvalidParameter));
}

#[test]
fn inconsistent_conditioning_is_shape_mismatch() {
    let mut cond = conditioning(bucket_at(8).unwrap(), 1);
    cond.unconditional_context = vec![1, 77, 1024];
    assert_eq!(Sampler::new(&cond, 5).err(), Some(DiffusionError::ShapeMismatch));
    let mut cond = conditioning(bucket_at(8).unwrap(), 1);
    cond.channel_context = vec![2, 2816];
    cond.unconditional_channel_context = vec![2, 2816];
    assert_eq!(Sampler::new(&cond, 5).err(), Some(DiffusionError::ShapeMismatch));
    let cond = conditioning(bucket_at(8).unwrap(), 0);
    assert_eq!(Sampler::new(&cond, 5).err(), Some(DiffusionError::ShapeMismatch));
}

#[test]
fn wrong_denoiser_shape_is_shape_mismatch() {
    let cond = conditioning(bucket_at(8).unwrap(), 1);
    let mut s = Sampler::new(&cond, 3).unwrap();
    let good = s.latent_shape().clone();
    assert_eq!(s.record_estimates(&good, &good), Ok(()));
    let bad = vec![1, 4, 192, 81];
    assert_eq!(s.record_estimates(&bad, &good), Err(DiffusionError::ShapeMismatch));
    assert_eq!(s.completed(), 1);
    assert!(s.is_aborted());
    assert_eq!(s.next_action(), SamplerAction::Aborted);

    let mut s = Sampler::new(&cond, 3).unwrap();
    assert_eq!(s.record_estimates(&good, &bad), Err(DiffusionError::ShapeMismatch));
    assert_eq!(s.next_action(), SamplerAction::Aborted);
}

#[test]
fn conditional_estimate_checked_before_unconditional() {
    let cond = conditioning(bucket_at(8).unwrap(), 1);
    let mut s = Sampler::new(&cond, 2).unwrap();
    let good = s.latent_shape().clone();
    assert_eq!(s.check_estimate(&good), Ok(()));
    assert_eq!(s.completed(), 0);
    assert!(!s.is_aborted());
    assert_eq!(s.check_estimate(&vec![1, 3, 192, 80]), Err(DiffusionError::ShapeMismatch));
    assert!(s.is_aborted());
    assert_eq!(s.completed(), 0);
    assert_eq!(s.next_action(), SamplerAction::Aborted);
}

#[test]
fn batch_of_two_latent() {
    let cond = conditioning(bucket_at(0).unwrap(), 2);
    let s = Sampler::new(&cond, 10).unwrap();
    assert_eq!(s.latent_shape(), &vec![2, 4, 256, 64]);
    assert_eq!(
        s.next_action(),
        SamplerAction::Denoise(StepPlan { index: 9, next: Some(8), timestep: 900 })
    );
}

#[test]
fn shape_equality() {
    assert!(same_shape(&vec![1, 2, 3], &vec![1, 2, 3]));
    assert!(!same_shape(&vec![1, 2, 3], &vec![1, 2]));
    assert!(!same_shape(&vec![1, 2, 3], &vec![1, 2, 4]));
    assert!(same_shape(&vec![], &vec![]));
}
