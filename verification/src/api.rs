use vstd::prelude::*;

verus! {

/// The credentials form's state: the two fields the user types before the
/// application credentials are stored.
#[derive(Debug)]
pub struct API {
    pub api_id: String,
    pub api_hash: String,
}

impl API {
    /// A blank form.
    pub fn new() -> (r: Self)
        ensures
            r.api_id@ == Seq::<char>::empty(),
            r.api_hash@ == Seq::<char>::empty(),
    {
        Self { api_hash: String::new(), api_id: String::new() }
    }
}

} // verus!
