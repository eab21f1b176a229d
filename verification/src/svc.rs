//! The per-service request surfaces: mechanical record shapes and URL
//! templating over the client core.

pub mod bigquery;
pub mod cloudkms;
pub mod common;
pub mod datastore;
pub mod firebase;
pub mod pubsub;
pub mod tokeninfo;
