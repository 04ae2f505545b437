use vstd::prelude::*;

verus! {

/// Which view is active: the object browser or the sign-in form.
#[derive(Debug, Clone, Copy, PartialEq, Eq, Structural)]
pub enum Tab {
    NewSession,
    Cloud,
}

} // verus!
