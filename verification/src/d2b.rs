//! Scoping of the d2b session launcher.
use vstd::prelude::*;

verus! {

/// Restricts the d2b launcher to one target of one domain.
#[derive(Debug, PartialEq, Eq)]
pub struct D2bTargetScope {
    pub domain_name: String,
    pub target: String,
}

impl Clone for D2bTargetScope {
    fn clone(&self) -> (r: Self)
        ensures
            r == *self,
    {
        D2bTargetScope { domain_name: self.domain_name.clone(), target: self.target.clone() }
    }
}

} // verus!
