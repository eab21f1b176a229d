//! The Datastore service surface: entity and key records, transactions,
//! lookups, GQL queries and mutations.

use vstd::prelude::*;

use crate::client::{
    ApiClient, Error, HttpMethod, HttpRequest, HttpTransport, RawApi,
};
use crate::json::{JVal, JsonVal, get_field, bytes_to_string, bytes_clone, push_all};
use vstd::string::{StrSliceExecFns, StringExecFns};

verus! {

/// Marker for the Datastore service.
pub struct DatastoreService {}

/// The Datastore handle.
pub type Hub<'a, T> = crate::client::Hub<'a, DatastoreService, T>;

/// An entity's named properties, in their held order.
pub type ValueMap = Vec<(String, Value)>;

/// Opens a transaction.
#[derive(Debug)]
pub struct BeginTransactionRequest {}

/// The opened transaction's handle.
#[derive(Debug)]
pub struct BeginTransactionResponse {
    pub transaction: String,
}

/// Abandons a transaction.
#[derive(Debug)]
pub struct RollbackTransactionRequest {
    pub transaction: String,
}

/// The (empty) answer to a rollback.
#[derive(Debug)]
pub struct RollbackTransactionResponse {}

/// Reserves ids for the given keys.
#[derive(Debug)]
pub struct AllocateIdsRequest {
    pub keys: Vec<Key>,
}

/// The reserved keys.
#[derive(Debug)]
pub struct AllocateIdsResponse {
    pub keys: Vec<Key>,
}

/// Applies mutations under a transaction.
#[derive(Debug)]
pub struct CommitRequest {
    pub transaction: String,
    pub mode: Option<String>,
    pub mutations: Option<Vec<Mutation>>,
}

/// What a commit changed.
#[derive(Debug)]
pub struct CommitResponse {
    pub mutation_results: Option<Vec<MutationResult>>,
    pub index_updates: Option<i64>,
}

/// One query's result batch.
#[derive(Debug)]
pub struct RunQueryResponse {
    pub batch: QueryResultBatch,
}

/// The entities a query matched.
#[derive(Debug)]
pub struct QueryResultBatch {
    pub entity_results: Option<Vec<EntityResult>>,
}

/// One change to apply.
#[derive(Debug)]
pub struct Mutation {
    pub insert: Option<Entity>,
    pub upsert: Option<Entity>,
    pub update: Option<Entity>,
    pub base_version: Option<String>,
    pub delete: Option<Key>,
}

/// What one mutation produced.
#[derive(Debug)]
pub struct MutationResult {
    pub version: Option<String>,
    pub conflict_detected: Option<bool>,
    pub key: Option<Key>,
}

/// Reads entities by key.
#[derive(Debug)]
pub struct LookupRequest {
    pub keys: Option<Vec<Key>>,
    pub read_options: Option<ReadOptions>,
}

/// What a lookup found, missed and deferred.
#[derive(Debug)]
pub struct LookupResponse {
    pub found: Option<Vec<EntityResult>>,
    pub missing: Option<Vec<EntityResult>>,
    pub deferred: Option<Vec<Key>>,
}

/// How reads see concurrent writes.
#[derive(Debug)]
pub struct ReadOptions {
    pub transaction: Option<String>,
    pub read_consistency: Option<String>,
}

/// One found entity with its cursor and version.
#[derive(Debug)]
pub struct EntityResult {
    pub cursor: Option<String>,
    pub version: Option<String>,
    pub entity: Option<Entity>,
}

/// A keyed record of named values.
#[derive(Debug)]
pub struct Entity {
    pub properties: Option<ValueMap>,
    pub key: Option<Key>,
}

/// A path into the datastore.
#[derive(Debug)]
pub struct Key {
    pub path: Vec<PathElement>,
    pub partition_id: Option<PartitionId>,
}

/// One step of a key's path.
#[derive(Debug)]
pub struct PathElement {
    pub kind: String,
    pub id: Option<String>,
    pub name: Option<String>,
}

/// The project and namespace a key lives in.
#[derive(Debug)]
pub struct PartitionId {
    pub project_id: String,
    pub namespace_id: Option<String>,
}

/// One typed value. Numeric members are kept as text: the API itself
/// carries 64-bit integers as strings, and the double member is held as
/// its decimal literal so that no floating-point value is ever computed
/// with.
#[derive(Debug)]
pub struct Value {
    pub entity_value: Option<Entity>,
    pub timestamp_value: Option<String>,
    pub string_value: Option<String>,
    /// The double member's decimal literal, written back as a bare number.
    pub double_value: Option<String>,
    pub meaning: Option<i64>,
    pub exclude_from_indexes: Option<bool>,
    pub blob_value: Option<String>,
    pub key_value: Option<Key>,
    pub boolean_value: Option<bool>,
    pub integer_value: Option<i64>,
    pub null_value: Option<bool>,
}

impl Value {
    /// A value with every member absent.
    pub fn empty() -> (r: Value)
        ensures
            r.entity_value is None && r.timestamp_value is None && r.string_value is None
                && r.double_value is None && r.meaning is None && r.exclude_from_indexes is None
                && r.blob_value is None && r.key_value is None && r.boolean_value is None
                && r.integer_value is None && r.null_value is None,
    {
        Value {
            entity_value: None,
            timestamp_value: None,
            string_value: None,
            double_value: None,
            meaning: None,
            exclude_from_indexes: None,
            blob_value: None,
            key_value: None,
            boolean_value: None,
            integer_value: None,
            null_value: None,
        }
    }

    /// A string value.
    pub fn of_string(s: String) -> (r: Value)
        ensures
            r.string_value == Some(s),
            r.integer_value is None && r.entity_value is None && r.boolean_value is None,
    {
        let mut v = Value::empty();
        v.string_value = Some(s);
        v
    }

    /// An integer value.
    pub fn of_integer(n: i64) -> (r: Value)
        ensures
            r.integer_value == Some(n),
            r.string_value is None && r.entity_value is None && r.boolean_value is None,
    {
        let mut v = Value::empty();
        v.integer_value = Some(n);
        v
    }
}

/// How deeply nested entities are followed before a decode gives up.
pub const MAX_ENTITY_DEPTH: u64 = 64;

impl PartitionId {
    /// The record's document.
    pub(crate) fn to_json(&self) -> JsonVal {
        let mut ps: Vec<(Vec<u8>, JsonVal)> = Vec::new();
        crate::svc::common::push_str_member(&mut ps, ("projectId").as_bytes_vec(), &self.project_id);
        crate::svc::common::push_opt_str_member(
            &mut ps,
            ("namespaceId").as_bytes_vec(),
            &self.namespace_id,
        );
        JsonVal::Obj(ps)
    }

    /// Decodes one record.
    pub(crate) fn from_json(v: &JsonVal) -> Result<PartitionId, Error> {
        Ok(
            PartitionId {
                project_id: crate::svc::common::req_string(
                    v,
                    ("projectId").as_bytes_vec().as_slice(),
                )?,
                namespace_id: crate::svc::common::opt_string(
                    v,
                    ("namespaceId").as_bytes_vec().as_slice(),
                )?,
            },
        )
    }
}

impl PathElement {
    /// The record's document.
    pub(crate) fn to_json(&self) -> JsonVal {
        let mut ps: Vec<(Vec<u8>, JsonVal)> = Vec::new();
        crate::svc::common::push_str_member(&mut ps, ("kind").as_bytes_vec(), &self.kind);
        crate::svc::common::push_opt_str_member(&mut ps, ("id").as_bytes_vec(), &self.id);
        crate::svc::common::push_opt_str_member(&mut ps, ("name").as_bytes_vec(), &self.name);
        JsonVal::Obj(ps)
    }

    /// Decodes one record.
    pub(crate) fn from_json(v: &JsonVal) -> Result<PathElement, Error> {
        Ok(
            PathElement {
                kind: crate::svc::common::req_string(v, ("kind").as_bytes_vec().as_slice())?,
                id: crate::svc::common::opt_string(v, ("id").as_bytes_vec().as_slice())?,
                name: crate::svc::common::opt_string(v, ("name").as_bytes_vec().as_slice())?,
            },
        )
    }
}

impl Key {
    /// The record's document.
    pub(crate) fn to_json(&self) -> JsonVal {
        let mut path: Vec<JsonVal> = Vec::new();
        let mut i: usize = 0;
        while i < self.path.len()
            decreases self.path.len() - i,
        {
            path.push(self.path[i].to_json());
            i += 1;
        }
        let mut ps: Vec<(Vec<u8>, JsonVal)> = Vec::new();
        ps.push((("path").as_bytes_vec(), JsonVal::Arr(path)));
        match &self.partition_id {
            Some(p) => {
                ps.push((("partitionId").as_bytes_vec(), p.to_json()));
            },
            None => {},
        }
        JsonVal::Obj(ps)
    }

    /// Decodes one record.
    pub(crate) fn from_json(v: &JsonVal) -> Result<Key, Error> {
        let items = crate::svc::common::req_arr(v, ("path").as_bytes_vec().as_slice())?;
        let mut path: Vec<PathElement> = Vec::new();
        let mut i: usize = 0;
        while i < items.len()
            decreases items.len() - i,
        {
            path.push(PathElement::from_json(&items[i])?);
            i += 1;
        }
        let partition_id = match crate::svc::common::opt_obj(
            v,
            ("partitionId").as_bytes_vec().as_slice(),
        )? {
            Some(p) => Some(PartitionId::from_json(p)?),
            None => None,
        };
        Ok(Key { path, partition_id })
    }
}

impl Value {
    /// The record's document, following nested entities to `depth`.
    #[verifier::loop_isolation(false)]
    fn to_json_depth(&self, depth: u64) -> (r: Result<JsonVal, Error>)
        decreases depth, 1int,
    {
        if depth == 0 {
            return Err(Error::JsonError(crate::svc::common::shape_text()));
        }
        let mut ps: Vec<(Vec<u8>, JsonVal)> = Vec::new();
        match &self.entity_value {
            Some(e) => {
                ps.push((("entityValue").as_bytes_vec(), e.to_json_depth(depth - 1)?));
            },
            None => {},
        }
        crate::svc::common::push_opt_str_member(
            &mut ps,
            ("timestampValue").as_bytes_vec(),
            &self.timestamp_value,
        );
        crate::svc::common::push_opt_str_member(
            &mut ps,
            ("stringValue").as_bytes_vec(),
            &self.string_value,
        );
        match &self.double_value {
            Some(t) => {
                ps.push((("doubleValue").as_bytes_vec(), JsonVal::Num(t.as_str().as_bytes_vec())));
            },
            None => {},
        }
        match self.meaning {
            Some(n) => {
                ps.push((("meaning").as_bytes_vec(), JsonVal::Num(crate::num::i64_to_dec(n))));
            },
            None => {},
        }
        match self.exclude_from_indexes {
            Some(b) => {
                ps.push((("excludeFromIndexes").as_bytes_vec(), JsonVal::Bool(b)));
            },
            None => {},
        }
        crate::svc::common::push_opt_str_member(
            &mut ps,
            ("blobValue").as_bytes_vec(),
            &self.blob_value,
        );
        match &self.key_value {
            Some(k) => {
                ps.push((("keyValue").as_bytes_vec(), k.to_json()));
            },
            None => {},
        }
        match self.boolean_value {
            Some(b) => {
                ps.push((("booleanValue").as_bytes_vec(), JsonVal::Bool(b)));
            },
            None => {},
        }
        match self.integer_value {
            Some(n) => {
                ps.push((("integerValue").as_bytes_vec(), JsonVal::Num(crate::num::i64_to_dec(n))));
            },
            None => {},
        }
        match self.null_value {
            Some(_) => {
                ps.push((("nullValue").as_bytes_vec(), JsonVal::Null));
            },
            None => {},
        }
        Ok(JsonVal::Obj(ps))
    }

    /// The record's document.
    pub(crate) fn to_json(&self) -> Result<JsonVal, Error> {
        self.to_json_depth(MAX_ENTITY_DEPTH)
    }

    /// Decodes one record, following nested entities to `depth`.
    #[verifier::loop_isolation(false)]
    fn from_json_depth(v: &JsonVal, depth: u64) -> (r: Result<Value, Error>)
        decreases depth, 1int,
    {
        if depth == 0 {
            return Err(Error::JsonError(crate::svc::common::shape_text()));
        }
        let entity_value = match crate::svc::common::opt_obj(
            v,
            ("entityValue").as_bytes_vec().as_slice(),
        )? {
            Some(e) => Some(Entity::from_json_depth(e, depth - 1)?),
            None => None,
        };
        let key_value = match crate::svc::common::opt_obj(
            v,
            ("keyValue").as_bytes_vec().as_slice(),
        )? {
            Some(k) => Some(Key::from_json(k)?),
            None => None,
        };
        let null_value = match get_field(v, ("nullValue").as_bytes_vec().as_slice()) {
            Some(_) => Some(true),
            None => None,
        };
        Ok(
            Value {
                entity_value,
                timestamp_value: crate::svc::common::opt_string(
                    v,
                    ("timestampValue").as_bytes_vec().as_slice(),
                )?,
                string_value: crate::svc::common::opt_string(
                    v,
                    ("stringValue").as_bytes_vec().as_slice(),
                )?,
                double_value: opt_num_text(v, ("doubleValue").as_bytes_vec().as_slice())?,
                meaning: crate::svc::common::opt_i64(v, ("meaning").as_bytes_vec().as_slice())?,
                exclude_from_indexes: match crate::svc::common::bool_or(
                    v,
                    ("excludeFromIndexes").as_bytes_vec().as_slice(),
                    false,
                )? {
                    true => Some(true),
                    false => None,
                },
                blob_value: crate::svc::common::opt_string(
                    v,
                    ("blobValue").as_bytes_vec().as_slice(),
                )?,
                key_value,
                boolean_value: match get_field(v, ("booleanValue").as_bytes_vec().as_slice()) {
                    Some(f) => crate::json::as_bool(f),
                    None => None,
                },
                integer_value: opt_int_text(v, ("integerValue").as_bytes_vec().as_slice())?,
                null_value,
            },
        )
    }

    /// Decodes one record.
    pub(crate) fn from_json(v: &JsonVal) -> Result<Value, Error> {
        Value::from_json_depth(v, MAX_ENTITY_DEPTH)
    }
}

/// An optional numeric member, kept as its literal text; null counts as
/// absent.
fn opt_num_text(v: &JsonVal, k: &[u8]) -> Result<Option<String>, Error> {
    match get_field(v, k) {
        Some(f) => match f {
            JsonVal::Null => Ok(None),
            JsonVal::Num(t) => match bytes_to_string(bytes_clone(t)) {
                Ok(s) => Ok(Some(s)),
                Err(_) => Err(Error::JsonError(crate::svc::common::shape_text())),
            },
            _ => Err(Error::JsonError(crate::svc::common::shape_text())),
        },
        None => Ok(None),
    }
}

/// An optional integer member that may arrive as a number or as decimal
/// text in a string (the API carries 64-bit integers as strings).
fn opt_int_text(v: &JsonVal, k: &[u8]) -> Result<Option<i64>, Error> {
    match get_field(v, k) {
        Some(f) => match f {
            JsonVal::Null => Ok(None),
            JsonVal::Str(t) => match crate::num::dec_to_i64(t.as_slice()) {
                Some(n) => Ok(Some(n)),
                None => Err(Error::JsonError(crate::svc::common::shape_text())),
            },
            _ => match crate::json::as_i64(f) {
                Some(n) => Ok(Some(n)),
                None => Err(Error::JsonError(crate::svc::common::shape_text())),
            },
        },
        None => Ok(None),
    }
}

impl Entity {
    /// The record's document, following nested entities to `depth`.
    #[verifier::loop_isolation(false)]
    fn to_json_depth(&self, depth: u64) -> (r: Result<JsonVal, Error>)
        decreases depth, 0int,
    {
        if depth == 0 {
            return Err(Error::JsonError(crate::svc::common::shape_text()));
        }
        let mut ps: Vec<(Vec<u8>, JsonVal)> = Vec::new();
        match &self.properties {
            Some(props) => {
                let mut members: Vec<(Vec<u8>, JsonVal)> = Vec::new();
                let mut i: usize = 0;
                while i < props.len()
                    decreases props.len() - i,
                {
                    members.push(
                        (
                            props[i].0.as_str().as_bytes_vec(),
                            props[i].1.to_json_depth(depth - 1)?,
                        ),
                    );
                    i += 1;
                }
                ps.push((("properties").as_bytes_vec(), JsonVal::Obj(members)));
            },
            None => {},
        }
        match &self.key {
            Some(k) => {
                ps.push((("key").as_bytes_vec(), k.to_json()));
            },
            None => {},
        }
        Ok(JsonVal::Obj(ps))
    }

    /// The record's document.
    pub(crate) fn to_json(&self) -> Result<JsonVal, Error> {
        self.to_json_depth(MAX_ENTITY_DEPTH)
    }

    /// Decodes one record, following nested entities to `depth`.
    #[verifier::loop_isolation(false)]
    fn from_json_depth(v: &JsonVal, depth: u64) -> (r: Result<Entity, Error>)
        decreases depth, 0int,
    {
        if depth == 0 {
            return Err(Error::JsonError(crate::svc::common::shape_text()));
        }
        let properties: Option<ValueMap> = match crate::svc::common::opt_obj(
            v,
            ("properties").as_bytes_vec().as_slice(),
        )? {
            Some(obj) => match obj {
                JsonVal::Obj(members) => {
                    let mut props: ValueMap = Vec::new();
                    let mut i: usize = 0;
                    while i < members.len()
                        decreases members.len() - i,
                    {
                        let name = match bytes_to_string(bytes_clone(&members[i].0)) {
                            Ok(s) => s,
                            Err(_) => {
                                return Err(Error::JsonError(crate::svc::common::shape_text()));
                            },
                        };
                        props.push((name, Value::from_json_depth(&members[i].1, depth - 1)?));
                        i += 1;
                    }
                    Some(props)
                },
                _ => {
                    return Err(Error::JsonError(crate::svc::common::shape_text()));
                },
            },
            None => None,
        };
        let key = match crate::svc::common::opt_obj(v, ("key").as_bytes_vec().as_slice())? {
            Some(k) => Some(Key::from_json(k)?),
            None => None,
        };
        Ok(Entity { properties, key })
    }

    /// Decodes one record.
    pub(crate) fn from_json(v: &JsonVal) -> Result<Entity, Error> {
        Entity::from_json_depth(v, MAX_ENTITY_DEPTH)
    }
}

impl EntityResult {
    /// Decodes one record.
    pub(crate) fn from_json(v: &JsonVal) -> Result<EntityResult, Error> {
        let entity = match crate::svc::common::opt_obj(v, ("entity").as_bytes_vec().as_slice())? {
            Some(e) => Some(Entity::from_json(e)?),
            None => None,
        };
        Ok(
            EntityResult {
                cursor: crate::svc::common::opt_string(v, ("cursor").as_bytes_vec().as_slice())?,
                version: crate::svc::common::opt_string(v, ("version").as_bytes_vec().as_slice())?,
                entity,
            },
        )
    }
}

impl MutationResult {
    /// Decodes one record.
    pub(crate) fn from_json(v: &JsonVal) -> Result<MutationResult, Error> {
        let key = match crate::svc::common::opt_obj(v, ("key").as_bytes_vec().as_slice())? {
            Some(k) => Some(Key::from_json(k)?),
            None => None,
        };
        let conflict_detected = match get_field(
            v,
            ("conflictDetected").as_bytes_vec().as_slice(),
        ) {
            Some(f) => crate::json::as_bool(f),
            None => None,
        };
        Ok(
            MutationResult {
                version: crate::svc::common::opt_string(v, ("version").as_bytes_vec().as_slice())?,
                conflict_detected,
                key,
            },
        )
    }
}

impl Mutation {
    /// The record's document.
    pub(crate) fn to_json(&self) -> Result<JsonVal, Error> {
        let mut ps: Vec<(Vec<u8>, JsonVal)> = Vec::new();
        match &self.insert {
            Some(e) => {
                ps.push((("insert").as_bytes_vec(), e.to_json()?));
            },
            None => {},
        }
        match &self.upsert {
            Some(e) => {
                ps.push((("upsert").as_bytes_vec(), e.to_json()?));
            },
            None => {},
        }
        match &self.update {
            Some(e) => {
                ps.push((("update").as_bytes_vec(), e.to_json()?));
            },
            None => {},
        }
        crate::svc::common::push_opt_str_member(
            &mut ps,
            ("baseVersion").as_bytes_vec(),
            &self.base_version,
        );
        match &self.delete {
            Some(k) => {
                ps.push((("delete").as_bytes_vec(), k.to_json()));
            },
            None => {},
        }
        Ok(JsonVal::Obj(ps))
    }

    /// A mutation with every member absent.
    pub fn empty() -> (r: Mutation)
        ensures
            r.insert is None && r.upsert is None && r.update is None && r.base_version is None
                && r.delete is None,
    {
        Mutation { insert: None, upsert: None, update: None, base_version: None, delete: None }
    }
}

impl ReadOptions {
    /// The record's document.
    pub(crate) fn to_json(&self) -> JsonVal {
        let mut ps: Vec<(Vec<u8>, JsonVal)> = Vec::new();
        crate::svc::common::push_opt_str_member(
            &mut ps,
            ("transaction").as_bytes_vec(),
            &self.transaction,
        );
        crate::svc::common::push_opt_str_member(
            &mut ps,
            ("readConsistency").as_bytes_vec(),
            &self.read_consistency,
        );
        JsonVal::Obj(ps)
    }
}

} // verus!

verus! {

impl<'a, T: HttpTransport> Hub<'a, T> {
    /// Opens a transaction and returns its handle.
    pub fn begin_transaction(&self, token: &str) -> Result<String, Error> {
        let uri = self.mk_uri("beginTransaction");
        let body = JsonVal::Obj(Vec::new());
        let v = self.post_ds(uri, &body, token)?;
        crate::svc::common::req_string(&v, ("transaction").as_bytes_vec().as_slice())
    }

    /// Abandons a transaction.
    pub fn rollback(&self, token: &str, txn: &str) -> Result<(), Error> {
        let uri = self.mk_uri("rollback");
        let mut ps: Vec<(Vec<u8>, JsonVal)> = Vec::new();
        ps.push((("transaction").as_bytes_vec(), JsonVal::Str(txn.as_bytes_vec())));
        let body = JsonVal::Obj(ps);
        let _v = self.post_ds(uri, &body, token)?;
        Ok(())
    }

    /// Applies a commit under its transaction.
    pub fn commit(&self, token: &str, req: &CommitRequest) -> Result<CommitResponse, Error> {
        let uri = self.mk_uri("commit");
        let mut ps: Vec<(Vec<u8>, JsonVal)> = Vec::new();
        crate::svc::common::push_str_member(
            &mut ps,
            ("transaction").as_bytes_vec(),
            &req.transaction,
        );
        crate::svc::common::push_opt_str_member(&mut ps, ("mode").as_bytes_vec(), &req.mode);
        match &req.mutations {
            Some(ms) => {
                let mut arr: Vec<JsonVal> = Vec::new();
                let mut i: usize = 0;
                while i < ms.len()
                    decreases ms.len() - i,
                {
                    arr.push(ms[i].to_json()?);
                    i += 1;
                }
                ps.push((("mutations").as_bytes_vec(), JsonVal::Arr(arr)));
            },
            None => {},
        }
        let body = JsonVal::Obj(ps);
        let v = self.post_ds(uri, &body, token)?;
        let mutation_results = match crate::svc::common::opt_arr(
            &v,
            ("mutationResults").as_bytes_vec().as_slice(),
        )? {
            Some(items) => {
                let mut out: Vec<MutationResult> = Vec::new();
                let mut i: usize = 0;
                while i < items.len()
                    decreases items.len() - i,
                {
                    out.push(MutationResult::from_json(&items[i])?);
                    i += 1;
                }
                Some(out)
            },
            None => None,
        };
        Ok(
            CommitResponse {
                mutation_results,
                index_updates: crate::svc::common::opt_i64(
                    &v,
                    ("indexUpdates").as_bytes_vec().as_slice(),
                )?,
            },
        )
    }

    /// Reserves ids for the given keys.
    pub fn allocate_ids(&self, token: &str, keys: Vec<Key>) -> Result<Vec<Key>, Error> {
        let uri = self.mk_uri("allocateIds");
        let mut arr: Vec<JsonVal> = Vec::new();
        let mut i: usize = 0;
        while i < keys.len()
            decreases keys.len() - i,
        {
            arr.push(keys[i].to_json());
            i += 1;
        }
        let mut ps: Vec<(Vec<u8>, JsonVal)> = Vec::new();
        ps.push((("keys").as_bytes_vec(), JsonVal::Arr(arr)));
        let body = JsonVal::Obj(ps);
        let v = self.post_ds(uri, &body, token)?;
        let items = crate::svc::common::req_arr(&v, ("keys").as_bytes_vec().as_slice())?;
        let mut out: Vec<Key> = Vec::new();
        let mut j: usize = 0;
        while j < items.len()
            decreases items.len() - j,
        {
            out.push(Key::from_json(&items[j])?);
            j += 1;
        }
        Ok(out)
    }

    /// Inserts an entity under a fresh transaction, letting the store
    /// choose its id, and returns that id.
    pub fn insert_entity_auto_id(
        &self,
        token: &str,
        kind: &str,
        ns: &str,
        ancestors: Vec<PathElement>,
        props: ValueMap,
    ) -> Result<String, Error> {
        let key = self.mk_key(kind, Some(ns), ancestors, None, None);
        let res = self.insert(token, key, props)?;
        let results = match res.mutation_results {
            Some(r) => r,
            None => {
                return Err(Error::JsonError(crate::svc::common::shape_text()));
            },
        };
        if results.len() == 0 {
            return Err(Error::JsonError(crate::svc::common::shape_text()));
        }
        let key = match &results[0].key {
            Some(k) => k,
            None => {
                return Err(Error::JsonError(crate::svc::common::shape_text()));
            },
        };
        if key.path.len() == 0 {
            return Err(Error::JsonError(crate::svc::common::shape_text()));
        }
        match &key.path[key.path.len() - 1].id {
            Some(id) => Ok(id.clone()),
            None => Err(Error::JsonError(crate::svc::common::shape_text())),
        }
    }

    /// Inserts an entity under a fresh transaction, keyed by name.
    pub fn insert_entity_by_name(
        &self,
        token: &str,
        kind: &str,
        ns: &str,
        ancestors: Vec<PathElement>,
        name: &str,
        props: ValueMap,
    ) -> Result<(), Error> {
        let key = self.mk_key(kind, Some(ns), ancestors, Some(name), None);
        let _res = self.insert(token, key, props)?;
        Ok(())
    }

    /// Inserts one entity under a fresh transaction.
    fn insert(&self, token: &str, key: Key, props: ValueMap) -> Result<CommitResponse, Error> {
        let entity = Entity { key: Some(key), properties: Some(props) };
        let mut insert = Mutation::empty();
        insert.insert = Some(entity);
        let txn = self.begin_transaction(token)?;
        let mut muts: Vec<Mutation> = Vec::new();
        muts.push(insert);
        let req = CommitRequest { transaction: txn, mode: None, mutations: Some(muts) };
        self.commit(token, &req)
    }

    /// Reads one entity's properties by numeric id.
    pub fn lookup_by_id(
        &self,
        token: &str,
        kind: &str,
        ns: &str,
        ancestors: Vec<PathElement>,
        id: &str,
        txn: Option<&str>,
    ) -> Result<Option<ValueMap>, Error> {
        let key = self.mk_key(kind, Some(ns), ancestors, None, Some(id));
        self.lookup_one(token, key, txn)
    }

    /// Reads one entity's properties by name.
    pub fn lookup_by_name(
        &self,
        token: &str,
        kind: &str,
        ns: &str,
        ancestors: Vec<PathElement>,
        name: &str,
        txn: Option<&str>,
    ) -> Result<Option<ValueMap>, Error> {
        let key = self.mk_key(kind, Some(ns), ancestors, Some(name), None);
        self.lookup_one(token, key, txn)
    }

    /// Runs a GQL query with named bindings in a namespace.
    pub fn gql(
        &self,
        token: &str,
        ns: &str,
        q: &str,
        txn: Option<&str>,
        bindings: Vec<(String, Value)>,
    ) -> Result<RunQueryResponse, Error> {
        let mut named: Vec<(Vec<u8>, JsonVal)> = Vec::new();
        let mut i: usize = 0;
        while i < bindings.len()
            decreases bindings.len() - i,
        {
            let mut wrap: Vec<(Vec<u8>, JsonVal)> = Vec::new();
            wrap.push((("value").as_bytes_vec(), bindings[i].1.to_json()?));
            named.push((bindings[i].0.as_str().as_bytes_vec(), JsonVal::Obj(wrap)));
            i += 1;
        }
        let mut query: Vec<(Vec<u8>, JsonVal)> = Vec::new();
        query.push((("queryString").as_bytes_vec(), JsonVal::Str(q.as_bytes_vec())));
        query.push((("allowLiterals").as_bytes_vec(), JsonVal::Bool(false)));
        query.push((("namedBindings").as_bytes_vec(), JsonVal::Obj(named)));
        let mut partition: Vec<(Vec<u8>, JsonVal)> = Vec::new();
        partition.push((("projectId").as_bytes_vec(), JsonVal::Str(
            self.project_id().as_bytes_vec(),
        )));
        partition.push((("namespaceId").as_bytes_vec(), JsonVal::Str(ns.as_bytes_vec())));
        let read_options = ReadOptions {
            transaction: match txn {
                Some(t) => Some(String::from_str(t)),
                None => None,
            },
            read_consistency: None,
        };
        let mut req: Vec<(Vec<u8>, JsonVal)> = Vec::new();
        req.push((("partitionId").as_bytes_vec(), JsonVal::Obj(partition)));
        req.push((("readOptions").as_bytes_vec(), read_options.to_json()));
        req.push((("gqlQuery").as_bytes_vec(), JsonVal::Obj(query)));
        let body = JsonVal::Obj(req);
        let uri = self.mk_uri("runQuery");
        let v = self.post_ds(uri, &body, token)?;
        let batch_doc = crate::svc::common::req_obj(&v, ("batch").as_bytes_vec().as_slice())?;
        let entity_results = match crate::svc::common::opt_arr(
            batch_doc,
            ("entityResults").as_bytes_vec().as_slice(),
        )? {
            Some(items) => {
                let mut out: Vec<EntityResult> = Vec::new();
                let mut j: usize = 0;
                while j < items.len()
                    decreases items.len() - j,
                {
                    out.push(EntityResult::from_json(&items[j])?);
                    j += 1;
                }
                Some(out)
            },
            None => None,
        };
        Ok(RunQueryResponse { batch: QueryResultBatch { entity_results } })
    }

    /// Reads one key with default read options and keeps its properties
    /// only when exactly one entity came back.
    pub fn lookup_one(&self, token: &str, key: Key, txn: Option<&str>) -> Result<
        Option<ValueMap>,
        Error,
    > {
        let mut keys: Vec<JsonVal> = Vec::new();
        keys.push(key.to_json());
        let read_options = ReadOptions {
            transaction: match txn {
                Some(t) => Some(String::from_str(t)),
                None => None,
            },
            read_consistency: None,
        };
        let mut req: Vec<(Vec<u8>, JsonVal)> = Vec::new();
        req.push((("keys").as_bytes_vec(), JsonVal::Arr(keys)));
        req.push((("readOptions").as_bytes_vec(), read_options.to_json()));
        let body = JsonVal::Obj(req);
        let uri = self.mk_uri("lookup");
        let v = self.post_ds(uri, &body, token)?;
        let found = match crate::svc::common::opt_arr(&v, ("found").as_bytes_vec().as_slice())? {
            Some(items) => {
                let mut out: Vec<EntityResult> = Vec::new();
                let mut j: usize = 0;
                while j < items.len()
                    decreases items.len() - j,
                {
                    out.push(EntityResult::from_json(&items[j])?);
                    j += 1;
                }
                Some(out)
            },
            None => None,
        };
        Ok(lookup_one_pick(found))
    }

    /// Updates one entity by id under a fresh transaction.
    pub fn update_by_id(
        &self,
        token: &str,
        kind: &str,
        ns: &str,
        ancestors: Vec<PathElement>,
        id: &str,
        props: ValueMap,
    ) -> Result<(), Error> {
        let key = self.mk_key(kind, Some(ns), ancestors, None, Some(id));
        let entity = Entity { key: Some(key), properties: Some(props) };
        let mut update = Mutation::empty();
        update.update = Some(entity);
        let txn = self.begin_transaction(token)?;
        let mut muts: Vec<Mutation> = Vec::new();
        muts.push(update);
        let req = CommitRequest { transaction: txn, mode: None, mutations: Some(muts) };
        let _res = self.commit(token, &req)?;
        Ok(())
    }

    /// Deletes one entity by id under a fresh transaction.
    pub fn delete_by_id(
        &self,
        token: &str,
        kind: &str,
        ns: &str,
        ancestors: Vec<PathElement>,
        id: &str,
    ) -> Result<(), Error> {
        let key = self.mk_key(kind, Some(ns), ancestors, None, Some(id));
        let mut delete = Mutation::empty();
        delete.delete = Some(key);
        let txn = self.begin_transaction(token)?;
        let mut muts: Vec<Mutation> = Vec::new();
        muts.push(delete);
        let req = CommitRequest { transaction: txn, mode: None, mutations: Some(muts) };
        let _res = self.commit(token, &req)?;
        Ok(())
    }

    /// The URI of one datastore action on this project.
    fn mk_uri(&self, action: &str) -> Vec<u8> {
        let mut uri = ("https://datastore.googleapis.com/v1/projects/").as_bytes_vec();
        push_all(&mut uri, self.project_id().as_bytes());
        push_all(&mut uri, (":").as_bytes_vec().as_slice());
        push_all(&mut uri, action.as_bytes());
        uri
    }

    /// A key in this project: the ancestors' path, then one element of the
    /// given kind carrying the name or id.
    fn mk_key(
        &self,
        kind: &str,
        ns: Option<&str>,
        ancestors: Vec<PathElement>,
        name: Option<&str>,
        id: Option<&str>,
    ) -> (r: Key)
        ensures
            r.path@.len() == ancestors@.len() + 1,
    {
        let partition_id = PartitionId {
            project_id: String::from_str(self.project_id()),
            namespace_id: match ns {
                Some(n) => Some(String::from_str(n)),
                None => None,
            },
        };
        let mut path = ancestors;
        path.push(
            PathElement {
                kind: String::from_str(kind),
                name: match name {
                    Some(n) => Some(String::from_str(n)),
                    None => None,
                },
                id: match id {
                    Some(i) => Some(String::from_str(i)),
                    None => None,
                },
            },
        );
        Key { path, partition_id: Some(partition_id) }
    }

    /// A POST of a JSON body carrying the caller's own bearer token.
    fn post_ds(&self, uri: Vec<u8>, body: &JsonVal, token: &str) -> Result<JsonVal, Error> {
        let mut hv = ("Bearer ").as_bytes_vec();
        push_all(&mut hv, token.as_bytes());
        let mut headers: Vec<(Vec<u8>, Vec<u8>)> = Vec::new();
        headers.push((crate::client::auth_header_name(), hv));
        headers.push((crate::client::content_type_name(), crate::client::json_content_type()));
        let req = HttpRequest {
            method: HttpMethod::Post,
            uri,
            headers,
            body: crate::json::to_json_bytes(body),
        };
        match self.request(req) {
            Ok((_, v)) => Ok(v),
            Err(e) => Err(e),
        }
    }
}

/// The choice `lookup_one` makes: properties only when exactly one entity
/// came back, carrying properties.
pub fn lookup_one_pick(found: Option<Vec<EntityResult>>) -> (r: Option<ValueMap>)
    ensures
        r is Some <==> (found matches Some(f) && f@.len() == 1 && (f@[0].entity matches Some(e)
            && e.properties is Some)),
        r matches Some(p) ==> (found matches Some(f) && (f@[0].entity matches Some(e)
            && e.properties == Some(p))),
{
    match found {
        Some(mut f) => {
            if f.len() != 1 {
                None
            } else {
                match f.pop() {
                    Some(er) => match er.entity {
                        Some(e) => e.properties,
                        None => None,
                    },
                    None => None,
                }
            }
        },
        None => None,
    }
}

} // verus!
