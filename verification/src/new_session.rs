use vstd::prelude::*;

use crate::client::Client;

verus! {

/// The sign-in form's state: what the user typed, whether a login code has
/// been requested, and the partially authenticated client waiting for the
/// code. The continuation token itself lives outside the library, beside
/// the live connection.
#[derive(Debug)]
pub struct NewSession {
    pub new_session_name: String,
    pub phone_number: String,
    pub reveived_code: String,
    pub user_password: String,
    pub is_code_received: bool,
    pub has_login_token: bool,
    pub incomplete_client: Option<Client>,
}

impl NewSession {
    /// A blank form: nothing typed, no code requested yet.
    pub fn new() -> (r: Self)
        ensures
            r.new_session_name@ == Seq::<char>::empty(),
            r.phone_number@ == Seq::<char>::empty(),
            r.reveived_code@ == Seq::<char>::empty(),
            r.user_password@ == Seq::<char>::empty(),
            r.is_code_received == false,
            r.has_login_token == false,
            r.incomplete_client is None,
    {
        Self {
            new_session_name: String::new(),
            phone_number: String::new(),
            reveived_code: String::new(),
            user_password: String::new(),
            is_code_received: false,
            has_login_token: false,
            incomplete_client: None,
        }
    }
}

} // verus!
