//! The token-info service surface: a direct view on the shared token
//! cache.

use vstd::prelude::*;

use crate::client::{ApiClient, Error, HttpTransport};
use crate::auth::Token;

verus! {

/// Marker for the token-info service.
pub struct TokenInfoService {}

/// The token-info handle.
pub type Hub<'a, T> = crate::client::Hub<'a, TokenInfoService, T>;

impl<'a, T: HttpTransport> Hub<'a, T> {
    /// A bearer token for the given scopes, from the shared cache.
    pub fn access_token(&self, scopes: &[String]) -> Result<Token, Error> {
        self.token(scopes)
    }
}

} // verus!
