//! Helpers shared by the per-service record shapes: reading required and
//! optional members out of decoded documents, and the empty record.

use vstd::prelude::*;

use crate::client::{Error, read_opt_str, read_opt_usize};
use crate::json::{JsonVal, get_field, as_i64, as_bool, bytes_to_string, bytes_clone};
use vstd::string::{StringExecFns, StrSliceExecFns};

verus! {

/// The empty record: serializes to an object with no members.
#[derive(Debug)]
pub struct Empty {}

impl Empty {
    /// The empty record's document.
    pub(crate) fn to_json(&self) -> JsonVal {
        JsonVal::Obj(Vec::new())
    }
}

/// The message attached to a record of the wrong shape.
pub(crate) fn shape_text() -> String {
    String::from_str("record has an unexpected shape")
}

/// A required string member.
pub(crate) fn req_string(v: &JsonVal, k: &[u8]) -> Result<String, Error> {
    match get_field(v, k) {
        Some(f) => match f {
            JsonVal::Str(t) => match bytes_to_string(bytes_clone(t)) {
                Ok(s) => Ok(s),
                Err(_) => Err(Error::JsonError(shape_text())),
            },
            _ => Err(Error::JsonError(shape_text())),
        },
        None => Err(Error::JsonError(shape_text())),
    }
}

/// An optional string member; null counts as absent.
pub(crate) fn opt_string(v: &JsonVal, k: &[u8]) -> Result<Option<String>, Error> {
    match read_opt_str(v, k) {
        Ok(o) => Ok(o),
        Err(()) => Err(Error::JsonError(shape_text())),
    }
}

/// An optional unsigned member; null counts as absent.
pub(crate) fn opt_usize(v: &JsonVal, k: &[u8]) -> Result<Option<usize>, Error> {
    match read_opt_usize(v, k) {
        Ok(o) => Ok(o),
        Err(()) => Err(Error::JsonError(shape_text())),
    }
}

/// A required unsigned member.
pub(crate) fn req_usize(v: &JsonVal, k: &[u8]) -> Result<usize, Error> {
    match opt_usize(v, k) {
        Ok(Some(n)) => Ok(n),
        Ok(None) => Err(Error::JsonError(shape_text())),
        Err(e) => Err(e),
    }
}

/// A required boolean member.
pub(crate) fn req_bool(v: &JsonVal, k: &[u8]) -> Result<bool, Error> {
    match get_field(v, k) {
        Some(f) => match as_bool(f) {
            Some(b) => Ok(b),
            None => Err(Error::JsonError(shape_text())),
        },
        None => Err(Error::JsonError(shape_text())),
    }
}

/// A boolean member with a fallback for an absent one.
pub(crate) fn bool_or(v: &JsonVal, k: &[u8], fallback: bool) -> Result<bool, Error> {
    match get_field(v, k) {
        Some(f) => match f {
            JsonVal::Null => Ok(fallback),
            _ => match as_bool(f) {
                Some(b) => Ok(b),
                None => Err(Error::JsonError(shape_text())),
            },
        },
        None => Ok(fallback),
    }
}

/// An optional signed member; null counts as absent.
pub(crate) fn opt_i64(v: &JsonVal, k: &[u8]) -> Result<Option<i64>, Error> {
    match get_field(v, k) {
        Some(f) => match f {
            JsonVal::Null => Ok(None),
            _ => match as_i64(f) {
                Some(n) => Ok(Some(n)),
                None => Err(Error::JsonError(shape_text())),
            },
        },
        None => Ok(None),
    }
}

/// An optional array member; null counts as absent.
pub(crate) fn opt_arr<'a>(v: &'a JsonVal, k: &[u8]) -> Result<Option<&'a Vec<JsonVal>>, Error> {
    match get_field(v, k) {
        Some(f) => match f {
            JsonVal::Null => Ok(None),
            JsonVal::Arr(xs) => Ok(Some(xs)),
            _ => Err(Error::JsonError(shape_text())),
        },
        None => Ok(None),
    }
}

/// A required array member.
pub(crate) fn req_arr<'a>(v: &'a JsonVal, k: &[u8]) -> Result<&'a Vec<JsonVal>, Error> {
    match get_field(v, k) {
        Some(f) => match f {
            JsonVal::Arr(xs) => Ok(xs),
            _ => Err(Error::JsonError(shape_text())),
        },
        None => Err(Error::JsonError(shape_text())),
    }
}

/// An optional object member; null counts as absent.
pub(crate) fn opt_obj<'a>(v: &'a JsonVal, k: &[u8]) -> Result<Option<&'a JsonVal>, Error> {
    match get_field(v, k) {
        Some(f) => match f {
            JsonVal::Null => Ok(None),
            JsonVal::Obj(_) => Ok(Some(f)),
            _ => Err(Error::JsonError(shape_text())),
        },
        None => Ok(None),
    }
}

/// A required object member.
pub(crate) fn req_obj<'a>(v: &'a JsonVal, k: &[u8]) -> Result<&'a JsonVal, Error> {
    match get_field(v, k) {
        Some(f) => match f {
            JsonVal::Obj(_) => Ok(f),
            _ => Err(Error::JsonError(shape_text())),
        },
        None => Err(Error::JsonError(shape_text())),
    }
}

/// Adds a string member to an object under construction.
pub(crate) fn push_str_member(ps: &mut Vec<(Vec<u8>, JsonVal)>, k: Vec<u8>, s: &String) {
    ps.push((k, JsonVal::Str(s.as_str().as_bytes_vec())));
}

/// Adds an optional string member, omitting an absent one.
pub(crate) fn push_opt_str_member(ps: &mut Vec<(Vec<u8>, JsonVal)>, k: Vec<u8>, s: &Option<String>) {
    match s {
        Some(t) => ps.push((k, JsonVal::Str(t.as_str().as_bytes_vec()))),
        None => {},
    }
}

/// Adds a boolean member.
pub(crate) fn push_bool_member(ps: &mut Vec<(Vec<u8>, JsonVal)>, k: Vec<u8>, b: bool) {
    ps.push((k, JsonVal::Bool(b)));
}

} // verus!
