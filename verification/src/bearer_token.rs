//! The OAuth2 bearer-token state: the tokens, the client credentials, and
//! when the access token was last renewed.

use vstd::prelude::*;
use std::collections::HashMap;
use crate::error::RestApiError;

verus! {

/// The default renewal interval in seconds; the service grants four
/// hours, so renewal is due a little earlier.
pub const DEFAULT_RENEWAL_INTERVAL_SEC: u64 = 13800;

/// The OAuth2 bearer-token state.
#[derive(Debug, Clone)]
pub struct BearerToken {
    pub client_id: Option<String>,
    pub client_secret: Option<String>,
    pub access_token: Option<String>,
    pub refresh_token: Option<String>,
    pub last_update: Option<u64>,
    pub renewal_interval: u64,
}

/// Relies on `std::time::SystemTime::now`: the current time, converted
/// to whole seconds since the epoch; zero when the clock reads earlier
/// than the epoch.  Nothing is assumed of the value.
#[verifier::external_body]
fn now_unix_secs() -> u64 {
    match std::time::SystemTime::now().duration_since(std::time::UNIX_EPOCH) {
        Ok(d) => d.as_secs(),
        Err(_) => 0,
    }
}

/// Whether a token last renewed at `last` needs renewing at `now`, for
/// the given interval: it does when it was never renewed, or when the
/// elapsed seconds reach the interval.
pub open spec fn spec_needs_update(last: Option<u64>, now: u64, interval: u64) -> bool {
    match last {
        Some(t) => now < t || now - t >= interval,
        None => true,
    }
}

/// Decides `spec_needs_update`.
pub fn needs_update_at(last: &Option<u64>, now: u64, interval: u64) -> (r: bool)
    ensures
        r == spec_needs_update(*last, now, interval),
{
    match last {
        Some(t) => {
            if now < *t {
                true
            } else {
                now - *t >= interval
            }
        },
        None => true,
    }
}

impl BearerToken {
    /// Returns the access token, when present.
    pub fn get(&self) -> (r: &Option<String>)
        ensures
            r == &self.access_token,
    {
        &self.access_token
    }

    /// Returns the renewal interval in seconds.
    pub fn access_token_renewal_interval(&self) -> (r: u64)
        ensures
            r == self.renewal_interval,
    {
        self.renewal_interval
    }

    /// Returns the client ID, when present.
    pub fn client_id(&self) -> (r: &Option<String>)
        ensures
            r == &self.client_id,
    {
        &self.client_id
    }

    /// Returns the client secret, when present.
    pub fn client_secret(&self) -> (r: &Option<String>)
        ensures
            r == &self.client_secret,
    {
        &self.client_secret
    }

    /// Returns the refresh token, when present.
    pub fn refresh_token(&self) -> (r: &Option<String>)
        ensures
            r == &self.refresh_token,
    {
        &self.refresh_token
    }

    /// Sets the renewal interval; zero selects the default.
    pub fn set_renewal_interval(&mut self, renewal_interval: u64)
        ensures
            renewal_interval == 0 ==> final(self).renewal_interval
                == DEFAULT_RENEWAL_INTERVAL_SEC,
            renewal_interval != 0 ==> final(self).renewal_interval == renewal_interval,
            final(self).access_token == old(self).access_token,
            final(self).refresh_token == old(self).refresh_token,
            final(self).client_id == old(self).client_id,
            final(self).client_secret == old(self).client_secret,
            final(self).last_update == old(self).last_update,
    {
        if renewal_interval == 0 {
            self.renewal_interval = DEFAULT_RENEWAL_INTERVAL_SEC;
        } else {
            self.renewal_interval = renewal_interval;
        }
    }

    /// Sets the access and refresh tokens.
    pub fn set_tokens(&mut self, access_token: Option<String>, refresh_token: Option<String>)
        ensures
            final(self).access_token == access_token,
            final(self).refresh_token == refresh_token,
            final(self).client_id == old(self).client_id,
            final(self).client_secret == old(self).client_secret,
            final(self).last_update == old(self).last_update,
            final(self).renewal_interval == old(self).renewal_interval,
    {
        self.access_token = access_token;
        self.refresh_token = refresh_token;
    }

    /// Sets the access token alone, for owner-only clients.
    pub fn set_access_token(&mut self, access_token: &str)
        ensures
            final(self).access_token matches Some(t) && t@ == access_token@,
            final(self).refresh_token == old(self).refresh_token,
            final(self).client_id == old(self).client_id,
            final(self).client_secret == old(self).client_secret,
            final(self).last_update == old(self).last_update,
            final(self).renewal_interval == old(self).renewal_interval,
    {
        self.access_token = Some(access_token.to_owned());
    }

    /// Sets the OAuth2 client ID and secret.
    pub fn set_oauth2_info(&mut self, client_id: &str, client_secret: &str)
        ensures
            final(self).client_id matches Some(i) && i@ == client_id@,
            final(self).client_secret matches Some(s) && s@ == client_secret@,
            final(self).access_token == old(self).access_token,
            final(self).refresh_token == old(self).refresh_token,
            final(self).last_update == old(self).last_update,
            final(self).renewal_interval == old(self).renewal_interval,
    {
        self.client_id = Some(client_id.to_owned());
        self.client_secret = Some(client_secret.to_owned());
    }

    /// True when an access token is present.
    pub fn has_access_token(&self) -> (r: bool)
        ensures
            r == (self.access_token is Some),
    {
        matches!(&self.access_token, Some(_))
    }

    /// True when the client ID and secret are both present, so the
    /// access token can be renewed.
    pub fn can_update_access_token(&self) -> (r: bool)
        ensures
            r == (self.client_id is Some && self.client_secret is Some),
    {
        matches!(&self.client_id, Some(_)) && matches!(&self.client_secret, Some(_))
    }

    /// Marks the access token as renewed now.
    pub fn touch_access_token(&mut self)
        ensures
            final(self).last_update is Some,
            final(self).access_token == old(self).access_token,
            final(self).refresh_token == old(self).refresh_token,
            final(self).client_id == old(self).client_id,
            final(self).client_secret == old(self).client_secret,
            final(self).renewal_interval == old(self).renewal_interval,
    {
        self.last_update = Some(now_unix_secs());
    }

    /// True when the access token needs renewing: it was never renewed,
    /// or its renewal interval has elapsed.  The clock decides for a
    /// token renewed earlier.
    pub fn does_access_token_need_updating(&self) -> (r: bool)
        ensures
            self.last_update is None ==> r,
    {
        let now = now_unix_secs();
        needs_update_at(&self.last_update, now, self.renewal_interval)
    }

    /// The form parameters that exchange an authorization code for an
    /// access token; the client ID and secret are required.
    pub fn generate_get_access_token_parameters(&self, code: &str) -> (r: Result<
        HashMap<String, String>,
        RestApiError,
    >)
        ensures
            match r {
                Ok(_) => self.client_id is Some && self.client_secret is Some,
                Err(e) => (e is ClientIdRequired && self.client_id is None) || (
                e is ClientSecretRequired && self.client_id is Some
                    && self.client_secret is None),
            },
    {
        let client_id = match &self.client_id {
            Some(i) => i,
            None => {
                return Err(RestApiError::ClientIdRequired);
            },
        };
        let client_secret = match &self.client_secret {
            Some(s) => s,
            None => {
                return Err(RestApiError::ClientSecretRequired);
            },
        };
        let mut params: HashMap<String, String> = HashMap::new();
        params.insert(String::from_str("grant_type"), String::from_str("authorization_code"));
        params.insert(String::from_str("client_id"), client_id.clone());
        params.insert(String::from_str("client_secret"), client_secret.clone());
        params.insert(String::from_str("code"), code.to_owned());
        Ok(params)
    }

    /// The form parameters that renew an access token from the refresh
    /// token; the client ID, secret and refresh token are required.
    pub fn get_renew_access_token_parameters(&self) -> (r: Result<
        HashMap<String, String>,
        RestApiError,
    >)
        ensures
            match r {
                Ok(_) => self.client_id is Some && self.client_secret is Some
                    && self.refresh_token is Some,
                Err(e) => (e is ClientIdRequired && self.client_id is None) || (
                e is ClientSecretRequired && self.client_id is Some
                    && self.client_secret is None) || (e is RefreshTokenRequired
                    && self.client_id is Some && self.client_secret is Some
                    && self.refresh_token is None),
            },
    {
        let client_id = match &self.client_id {
            Some(i) => i,
            None => {
                return Err(RestApiError::ClientIdRequired);
            },
        };
        let client_secret = match &self.client_secret {
            Some(s) => s,
            None => {
                return Err(RestApiError::ClientSecretRequired);
            },
        };
        let refresh_token = match &self.refresh_token {
            Some(t) => t,
            None => {
                return Err(RestApiError::RefreshTokenRequired);
            },
        };
        let mut params: HashMap<String, String> = HashMap::new();
        params.insert(String::from_str("client_id"), client_id.clone());
        params.insert(String::from_str("client_secret"), client_secret.clone());
        params.insert(String::from_str("grant_type"), String::from_str("refresh_token"));
        params.insert(String::from_str("refresh_token"), refresh_token.clone());
        Ok(params)
    }

    /// Collects key/value pairs into a map; a repeated key keeps its
    /// last value.
    pub fn array2hashmap(array: &Vec<(String, String)>) -> (r: HashMap<String, String>) {
        let mut map: HashMap<String, String> = HashMap::new();
        let n = array.len();
        let mut i: usize = 0;
        while i < n
            invariant
                0 <= i <= n,
                n == array@.len(),
            decreases n - i,
        {
            map.insert(array[i].0.clone(), array[i].1.clone());
            i = i + 1;
        }
        map
    }
}

impl Default for BearerToken {
    /// The default token state: nothing set, a zero renewal interval.
    fn default() -> (r: BearerToken)
        ensures
            r.client_id is None,
            r.client_secret is None,
            r.access_token is None,
            r.refresh_token is None,
            r.last_update is None,
            r.renewal_interval == 0,
    {
        BearerToken {
            client_id: None,
            client_secret: None,
            access_token: None,
            refresh_token: None,
            last_update: None,
            renewal_interval: 0,
        }
    }
}

} // verus!
