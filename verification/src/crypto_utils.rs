//! The account data the rest of the core is keyed by. Password hashing, the
//! at-rest encryption of credentials and their files live with the
//! application shell, outside the verified core.
use vstd::prelude::*;

verus! {

/// One user of the application.
#[derive(Debug, Clone)]
pub struct User {
    pub email: String,
    pub password_hash: String,
    pub encrypted_master_key: String,
    pub accessible_credentials: String,
}

/// One brokerage account's credentials; `id` keys every per-account store.
#[derive(Debug, Clone)]
pub struct Credentials {
    pub id: String,
    pub login: String,
    pub password: String,
    pub public_key: String,
    pub secret_key: String,
}

} // verus!
