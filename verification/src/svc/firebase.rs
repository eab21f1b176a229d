//! The Firebase database surface: authenticated reads of a database path.

use vstd::prelude::*;

use crate::client::{ApiClient, Error, HttpTransport, RawApi};
use crate::json::{JsonVal, push_all};
use vstd::string::{StrSliceExecFns, StringExecFns};

verus! {

/// Marker for the Firebase service.
pub struct FirebaseService {}

/// The Firebase handle.
pub type Hub<'a, T> = crate::client::Hub<'a, FirebaseService, T>;

/// Options of a database read.
#[derive(Debug)]
pub struct GetOptions {
    pub shallow: bool,
}

impl<'a, T: HttpTransport> Hub<'a, T> {
    /// Reads a database path under the database and email scopes and
    /// returns the decoded document.
    pub fn get_data(&self, firebase_project_id: &str, path: &str, opts: GetOptions) -> Result<
        JsonVal,
        Error,
    > {
        let mut uri = ("https://").as_bytes_vec();
        push_all(&mut uri, firebase_project_id.as_bytes());
        push_all(&mut uri, (".firebaseio.com/").as_bytes_vec().as_slice());
        push_all(&mut uri, path.as_bytes());
        push_all(&mut uri, (".json?shallow=").as_bytes_vec().as_slice());
        if opts.shallow {
            push_all(&mut uri, ("true").as_bytes_vec().as_slice());
        } else {
            push_all(&mut uri, ("false").as_bytes_vec().as_slice());
        }
        let mut scopes: Vec<String> = Vec::new();
        scopes.push(String::from_str("https://www.googleapis.com/auth/firebase.database"));
        scopes.push(String::from_str("https://www.googleapis.com/auth/userinfo.email"));
        self.get(uri, scopes.as_slice())
    }
}

} // verus!
