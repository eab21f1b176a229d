//! A Google Cloud API client core: it obtains, caches and refreshes short-lived
//! bearer tokens, fetches and caches the signing-key sets used to validate
//! identity tokens, mints and verifies JSON Web Tokens for service-to-service
//! delegation, and decodes HTTP responses into typed results.
//!
//! The networking engine itself lives outside this crate; it is reached through
//! the [`client::HttpTransport`] trait, so that every decision this crate makes
//! about credentials, caching and decoding is verified.

pub mod auth;
pub mod b64;
pub mod client;
pub mod json;
pub mod jwt;
pub mod num;
pub mod svc;

pub use client::{ApiClient, ApiError, Error, ErrorDetails, GoogleCloudClient, Hub};
