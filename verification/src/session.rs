//! Session records: who holds a token, since when and until when.
use vstd::prelude::*;

verus! {

/// Seconds for which a session stays valid: 30 days.
pub const SESSION_LIFETIME: u64 = 30 * 24 * 60 * 60;

/// A session opened for an account.
pub struct Session {
    pub account_id: String,
    pub created_at: u64,
    pub expires_at: u64,
    pub token: String,
}

impl Session {
    /// A copy of the session.
    pub fn duplicate(&self) -> (res: Session)
        ensures
            res == *self,
    {
        Session {
            account_id: self.account_id.clone(),
            created_at: self.created_at,
            expires_at: self.expires_at,
            token: self.token.clone(),
        }
    }
}

} // verus!
