//! The pair of tokens that gives access to the calendar service.

use vstd::prelude::*;

verus! {

/// An access token and the refresh token that renews it.
#[derive(Debug, Clone, PartialEq)]
pub struct Tokens {
    pub access_token: String,
    pub refresh_token: String,
}

impl Tokens {
    /// The pair of the two tokens.
    pub fn new(access_token: String, refresh_token: String) -> (r: Tokens)
        ensures
            r.access_token == access_token,
            r.refresh_token == refresh_token,
    {
        Tokens { access_token, refresh_token }
    }

    /// Takes over what a refresh gave: the new access token, and the new
    /// refresh token where the provider issued one. Without a new refresh
    /// token the old one stays.
    pub fn apply_refresh(&mut self, access_token: String, refresh_token: Option<String>)
        ensures
            final(self).access_token == access_token,
            final(self).refresh_token == match refresh_token {
                Some(token) => token,
                None => old(self).refresh_token,
            },
    {
        self.access_token = access_token;
        match refresh_token {
            Some(token) => {
                self.refresh_token = token;
            },
            None => {},
        }
    }

    /// A copy of the pair.
    pub fn duplicate(&self) -> (r: Tokens)
        ensures
            r == *self,
    {
        Tokens {
            access_token: self.access_token.clone(),
            refresh_token: self.refresh_token.clone(),
        }
    }
}

} // verus!
