use vstd::prelude::*;

verus! {

/// Error for when a [`Config`](crate::Config) had already been installed.
#[derive(Debug, Clone, Copy, PartialEq, Eq)]
pub struct InstallError;

impl InstallError {
    /// What went wrong, in words.
    pub fn message(&self) -> (r: &'static str)
        ensures
            r@ == "`Config` was already installed globally"@,
    {
        "`Config` was already installed globally"
    }
}

} // verus!
