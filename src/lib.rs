//! The decision logic of a latent-diffusion image generator: the table of supported
//! output sizes, the order of denoising steps over the noise schedule, the shape checks
//! between pipeline stages, the element-wise hand-off of tensors between numeric
//! representations, and the packing of decoded pixels into RGB images.
use vstd::prelude::*;

pub mod error;
pub mod image;
pub mod resolution;
pub mod sampler;
pub mod schedule;
pub mod tensor;

verus! {

} // verus!
