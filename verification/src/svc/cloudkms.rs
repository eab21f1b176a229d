//! The Cloud KMS service surface: key creation and envelope
//! encrypt/decrypt, with payloads carried as standard base64.

use vstd::prelude::*;

use crate::client::{ApiClient, Error, HttpMethod, HttpRequest, HttpTransport, RawApi};
use crate::json::{JsonVal, push_all};
use crate::b64::{b64_encode, b64_decode};
use vstd::string::{StrSliceExecFns, StringExecFns};

verus! {

/// Marker for the Cloud KMS service.
pub struct CloudKeyMgmtService {}

/// The Cloud KMS handle.
pub type Hub<'a, T> = crate::client::Hub<'a, CloudKeyMgmtService, T>;

/// A crypto key record.
#[derive(Debug)]
pub struct CryptoKey {
    pub name: Option<String>,
    pub next_rotation_time: Option<String>,
    pub rotation_period: Option<String>,
    pub primary: Option<CryptoKeyVersion>,
    pub create_time: Option<String>,
    pub purpose: Option<String>,
}

/// One version of a crypto key.
#[derive(Debug)]
pub struct CryptoKeyVersion {
    pub state: Option<String>,
    pub destroy_time: Option<String>,
    pub create_time: Option<String>,
    pub destroy_event_time: Option<String>,
    pub name: Option<String>,
}

/// An encryption request: base64 plaintext and optional authenticated
/// data.
#[derive(Debug)]
pub struct EncryptRequest {
    pub plaintext: Option<String>,
    pub additional_authenticated_data: Option<String>,
}

/// The encrypted payload.
#[derive(Debug)]
pub struct EncryptResponse {
    pub ciphertext: Option<String>,
    pub name: Option<String>,
}

/// A decryption request: base64 ciphertext and optional authenticated
/// data.
#[derive(Debug)]
pub struct DecryptRequest {
    pub ciphertext: Option<String>,
    pub additional_authenticated_data: Option<String>,
}

/// The decrypted payload.
#[derive(Debug)]
pub struct DecryptResponse {
    pub plaintext: Option<String>,
}

impl CryptoKeyVersion {
    /// Decodes one record.
    pub(crate) fn from_json(v: &JsonVal) -> Result<CryptoKeyVersion, Error> {
        Ok(
            CryptoKeyVersion {
                state: crate::svc::common::opt_string(v, ("state").as_bytes_vec().as_slice())?,
                destroy_time: crate::svc::common::opt_string(
                    v,
                    ("destroyTime").as_bytes_vec().as_slice(),
                )?,
                create_time: crate::svc::common::opt_string(
                    v,
                    ("createTime").as_bytes_vec().as_slice(),
                )?,
                destroy_event_time: crate::svc::common::opt_string(
                    v,
                    ("destroyEventTime").as_bytes_vec().as_slice(),
                )?,
                name: crate::svc::common::opt_string(v, ("name").as_bytes_vec().as_slice())?,
            },
        )
    }
}

impl CryptoKey {
    /// Decodes one record.
    pub(crate) fn from_json(v: &JsonVal) -> Result<CryptoKey, Error> {
        let primary = match crate::svc::common::opt_obj(
            v,
            ("primary").as_bytes_vec().as_slice(),
        )? {
            Some(p) => Some(CryptoKeyVersion::from_json(p)?),
            None => None,
        };
        Ok(
            CryptoKey {
                name: crate::svc::common::opt_string(v, ("name").as_bytes_vec().as_slice())?,
                next_rotation_time: crate::svc::common::opt_string(
                    v,
                    ("nextRotationTime").as_bytes_vec().as_slice(),
                )?,
                rotation_period: crate::svc::common::opt_string(
                    v,
                    ("rotationPeriod").as_bytes_vec().as_slice(),
                )?,
                primary,
                create_time: crate::svc::common::opt_string(
                    v,
                    ("createTime").as_bytes_vec().as_slice(),
                )?,
                purpose: crate::svc::common::opt_string(v, ("purpose").as_bytes_vec().as_slice())?,
            },
        )
    }
}

impl<'a, T: HttpTransport> Hub<'a, T> {
    /// Creates an encrypt/decrypt key in a ring and returns its name.
    pub fn create_cryptokey(&self, keyring: &str, keyid: &str) -> Result<String, Error> {
        let mut uri = ("https://cloudkms.googleapis.com/v1/projects/").as_bytes_vec();
        push_all(&mut uri, self.project_id().as_bytes());
        push_all(&mut uri, ("/locations/global/keyRings/").as_bytes_vec().as_slice());
        push_all(&mut uri, keyring.as_bytes());
        push_all(&mut uri, ("/cryptoKeys?cryptoKeyId=").as_bytes_vec().as_slice());
        push_all(&mut uri, keyid.as_bytes());
        let mut ps: Vec<(Vec<u8>, JsonVal)> = Vec::new();
        ps.push((("purpose").as_bytes_vec(), JsonVal::Str(
            ("ENCRYPT_DECRYPT").as_bytes_vec(),
        )));
        let body = JsonVal::Obj(ps);
        let scopes: Vec<String> = Vec::new();
        let v = self.post(uri, &body, scopes.as_slice())?;
        let key = CryptoKey::from_json(&v)?;
        match key.name {
            Some(n) => Ok(n),
            None => Err(Error::JsonError(crate::svc::common::shape_text())),
        }
    }

    /// Encrypts a payload under a key, handing it over as standard
    /// base64 and decoding the answer the same way.
    pub fn encrypt(&self, cryptokey: &str, plaintext: &[u8], nonce: Option<&str>) -> Result<
        Vec<u8>,
        Error,
    > {
        let mut uri = ("https://cloudkms.googleapis.com/v1/").as_bytes_vec();
        push_all(&mut uri, cryptokey.as_bytes());
        push_all(&mut uri, (":encrypt").as_bytes_vec().as_slice());
        let mut ps: Vec<(Vec<u8>, JsonVal)> = Vec::new();
        ps.push((("plaintext").as_bytes_vec(), JsonVal::Str(b64_encode(plaintext, false, true))));
        match nonce {
            Some(d) => {
                ps.push((
                    ("additionalAuthenticatedData").as_bytes_vec(),
                    JsonVal::Str(d.as_bytes_vec()),
                ));
            },
            None => {},
        }
        let body = JsonVal::Obj(ps);
        let scopes: Vec<String> = Vec::new();
        let v = self.post(uri, &body, scopes.as_slice())?;
        let ct = match crate::json::get_field(&v, ("ciphertext").as_bytes_vec().as_slice()) {
            Some(f) => match crate::json::as_str(f) {
                Some(t) => t,
                None => {
                    return Err(Error::JsonError(crate::svc::common::shape_text()));
                },
            },
            None => {
                return Err(Error::JsonError(crate::svc::common::shape_text()));
            },
        };
        match b64_decode(ct.as_slice(), false, true) {
            Some(bytes) => Ok(bytes),
            None => Err(Error::JsonError(crate::svc::common::shape_text())),
        }
    }

    /// Decrypts a payload under a key, handing it over as standard
    /// base64 and decoding the answer the same way.
    pub fn decrypt(&self, cryptokey: &str, ciphertext: &[u8], nonce: Option<&str>) -> Result<
        Vec<u8>,
        Error,
    > {
        let mut uri = ("https://cloudkms.googleapis.com/v1/").as_bytes_vec();
        push_all(&mut uri, cryptokey.as_bytes());
        push_all(&mut uri, (":decrypt").as_bytes_vec().as_slice());
        let mut ps: Vec<(Vec<u8>, JsonVal)> = Vec::new();
        ps.push((("ciphertext").as_bytes_vec(), JsonVal::Str(b64_encode(ciphertext, false, true))));
        match nonce {
            Some(d) => {
                ps.push((
                    ("additionalAuthenticatedData").as_bytes_vec(),
                    JsonVal::Str(d.as_bytes_vec()),
                ));
            },
            None => {},
        }
        let body = JsonVal::Obj(ps);
        let scopes: Vec<String> = Vec::new();
        let v = self.post(uri, &body, scopes.as_slice())?;
        let pt = match crate::json::get_field(&v, ("plaintext").as_bytes_vec().as_slice()) {
            Some(f) => match crate::json::as_str(f) {
                Some(t) => t,
                None => {
                    return Err(Error::JsonError(crate::svc::common::shape_text()));
                },
            },
            None => {
                return Err(Error::JsonError(crate::svc::common::shape_text()));
            },
        };
        match b64_decode(pt.as_slice(), false, true) {
            Some(bytes) => Ok(bytes),
            None => Err(Error::JsonError(crate::svc::common::shape_text())),
        }
    }
}

} // verus!
