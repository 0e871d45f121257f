use vstd::prelude::*;

verus! {

/// A surface that reflects nothing. Its sampling density is still the
/// cosine-weighted one, so that the estimator never divides by zero.
#[derive(Clone, Copy, Debug)]
pub struct BlackBody {}

impl BlackBody {
    /// Whether the scattering is a Dirac distribution: it is not.
    pub fn is_delta_reflector(&self) -> (r: bool)
        ensures
            !r,
    {
        false
    }
}

} // verus!
