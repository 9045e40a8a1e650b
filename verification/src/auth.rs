//! The key with which requests to the exchange are signed.

use vstd::prelude::*;
use vstd::string::*;

verus! {

#[derive(Debug, Clone)]
pub struct Credentials {
    pub key_id: String,
    pub private_key_pem: String,
}

impl Credentials {
    pub fn load(key_id: String, private_key_pem: &str) -> (r: Self)
        ensures
            r.key_id@ == key_id@,
            r.private_key_pem@ == private_key_pem@,
    {
        Self { key_id, private_key_pem: private_key_pem.to_owned() }
    }
}

} // verus!
