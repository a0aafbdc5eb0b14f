//! Configuration and the state shared by all requests.

use vstd::prelude::*;
use vstd::rwlock::{RwLock, RwLockPredicate};

use crate::db::InMemDatabase;

verus! {

/// Configuration the service takes from its environment.
pub struct Config {
    /// The HMAC secret that signs and checks session tokens.
    pub hmac_secret: String,
    /// The log filter.
    pub log_level: String,
    /// How long an issued token stays valid, in seconds.
    pub token_ttl_secs: u64,
    /// Tokens that are revoked from the start.
    pub revoked_tokens: Vec<String>,
}

/// The lock's invariant: the store it guards is well formed.
pub struct StoreIsWellFormed;

impl RwLockPredicate<InMemDatabase> for StoreIsWellFormed {
    open spec fn inv(self, v: InMemDatabase) -> bool {
        v.wf()
    }
}

/// State shared by all requests: the credential store behind one lock, taken
/// once per store operation, and the token settings.
pub struct AppState {
    pub db: RwLock<InMemDatabase, StoreIsWellFormed>,
    pub hmac_secret: String,
    pub token_ttl: u64,
}

impl AppState {
    /// A state with an empty user store whose revoked set holds the configured
    /// tokens (see `InMemDatabase::with_revoked`, which states it; once the store
    /// is inside the lock, its contents are no longer in view).
    pub fn build(config: Config) -> (r: Self)
        ensures
            r.hmac_secret@ == config.hmac_secret@,
            r.token_ttl == config.token_ttl_secs,
    {
        let store = InMemDatabase::with_revoked(&config.revoked_tokens);
        AppState {
            db: RwLock::new(store, Ghost(StoreIsWellFormed)),
            hmac_secret: config.hmac_secret,
            token_ttl: config.token_ttl_secs,
        }
    }
}

} // verus!
