use vstd::prelude::*;

verus! {

/// The ways a generation run can fail.
#[derive(Debug, Clone, Copy, PartialEq, Eq, Structural)]
pub enum DiffusionError {
    /// A model's weights or configuration are missing or malformed.
    ModelLoad,
    /// Tensor dimensions disagree between stages or with a collaborator's output.
    ShapeMismatch,
    /// A request parameter is out of its allowed range.
    InvalidParameter,
    /// Writing an image failed.
    Io,
}

impl DiffusionError {
    /// A short human-readable description of the error.
    pub fn message(&self) -> (r: String) {
        match self {
            DiffusionError::ModelLoad => "failed to load a model".to_string(),
            DiffusionError::ShapeMismatch => "tensor shape mismatch".to_string(),
            DiffusionError::InvalidParameter => "invalid parameter".to_string(),
            DiffusionError::Io => "image write failed".to_string(),
        }
    }
}

} // verus!
