//! The BigQuery service surface: record shapes, query-string builders and
//! the dataset, table and job requests.

use vstd::prelude::*;

use crate::client::{
    ApiClient, Error, HttpMethod, HttpRequest, HttpTransport, RawApi, encode_query_params,
    query_string, pair_views, auth_header_name, content_type_name, json_content_type,
};
use crate::json::{
    JVal, JsonVal, get_field, as_str, as_i64, as_bool, bytes_to_string, bytes_clone, to_json_bytes,
    obj_get, push_all,
};
use crate::num::{u64_dec, u64_to_dec};
use vstd::utf8::encode_utf8;
use vstd::string::{StrSliceExecFns, StringExecFns};

verus! {

/// Marker for the BigQuery service.
pub struct BigQueryService {}

/// The BigQuery handle.
pub type Hub<'a, T> = crate::client::Hub<'a, BigQueryService, T>;

/// A dataset-listing request.
#[derive(Debug)]
pub struct ListDatasetsRequest {
    pub all: bool,
    pub filter: Option<String>,
    pub max_results: Option<usize>,
    pub page_token: Option<String>,
}

/// The text `true` or `false`.
pub open spec fn bool_bytes(b: bool) -> Seq<u8> {
    if b {
        seq![116u8, 114u8, 117u8, 101u8]
    } else {
        seq![102u8, 97u8, 108u8, 115u8, 101u8]
    }
}

/// The parameter name `all`.
pub open spec fn k_all() -> Seq<u8> {
    seq![97u8, 108u8, 108u8]
}

/// The parameter name `filter`.
pub open spec fn k_filter() -> Seq<u8> {
    seq![102u8, 105u8, 108u8, 116u8, 101u8, 114u8]
}

/// The parameter name `maxResults`.
pub open spec fn k_max_results() -> Seq<u8> {
    seq![109u8, 97u8, 120u8, 82u8, 101u8, 115u8, 117u8, 108u8, 116u8, 115u8]
}

/// The parameter name `pageToken`.
pub open spec fn k_page_token() -> Seq<u8> {
    seq![112u8, 97u8, 103u8, 101u8, 84u8, 111u8, 107u8, 101u8, 110u8]
}

/// The parameter name `timeoutMs`.
pub open spec fn k_timeout_ms() -> Seq<u8> {
    seq![116u8, 105u8, 109u8, 101u8, 111u8, 117u8, 116u8, 77u8, 115u8]
}

/// The parameter name `startIndex`.
pub open spec fn k_start_index() -> Seq<u8> {
    seq![115u8, 116u8, 97u8, 114u8, 116u8, 73u8, 110u8, 100u8, 101u8, 120u8]
}

/// The query parameters of a dataset-listing request, in a fixed order.
pub open spec fn list_datasets_params(r: ListDatasetsRequest) -> Seq<(Seq<u8>, Seq<u8>)> {
    let s0 = seq![(k_all(), bool_bytes(r.all))];
    let s1 = match r.filter {
        Some(f) => s0.push((k_filter(), encode_utf8(f@))),
        None => s0,
    };
    let s2 = match r.max_results {
        Some(m) => s1.push((k_max_results(), u64_dec(m as nat))),
        None => s1,
    };
    match r.page_token {
        Some(p) => s2.push((k_page_token(), encode_utf8(p@))),
        None => s2,
    }
}

impl ListDatasetsRequest {
    /// The request's query string.
    pub fn to_query(&self) -> (r: Vec<u8>)
        ensures
            r@ == query_string(list_datasets_params(*self)),
    {
        let mut params: Vec<(Vec<u8>, Vec<u8>)> = Vec::new();
        let all_k: Vec<u8> = vec![97u8, 108, 108];
        let filter_k: Vec<u8> = vec![102u8, 105, 108, 116, 101, 114];
        let max_k: Vec<u8> = vec![109u8, 97, 120, 82, 101, 115, 117, 108, 116, 115];
        let page_k: Vec<u8> = vec![112u8, 97, 103, 101, 84, 111, 107, 101, 110];
        proof {
            assert(all_k@ =~= k_all());
            assert(filter_k@ =~= k_filter());
            assert(max_k@ =~= k_max_results());
            assert(page_k@ =~= k_page_token());
        }
        params.push((all_k, bool_text(self.all)));
        match &self.filter {
            Some(f) => {
                params.push((filter_k, f.as_str().as_bytes_vec()));
            },
            None => {},
        }
        match self.max_results {
            Some(m) => {
                params.push((max_k, u64_to_dec(m as u64)));
            },
            None => {},
        }
        match &self.page_token {
            Some(p) => {
                params.push((page_k, p.as_str().as_bytes_vec()));
            },
            None => {},
        }
        let out = encode_query_params(&params);
        proof {
            lemma_pair_views_concrete(params@, list_datasets_params(*self));
        }
        out
    }
}

/// The text `true` or `false`.
fn bool_text(b: bool) -> (r: Vec<u8>)
    ensures
        r@ == bool_bytes(b),
{
    if b {
        let r: Vec<u8> = vec![116u8, 114, 117, 101];
        proof {
            assert(r@ =~= bool_bytes(b));
        }
        r
    } else {
        let r: Vec<u8> = vec![102u8, 97, 108, 115, 101];
        proof {
            assert(r@ =~= bool_bytes(b));
        }
        r
    }
}

/// Unrolls the pair-view recursion against a known parameter sequence.
proof fn lemma_pair_views_concrete(ps: Seq<(Vec<u8>, Vec<u8>)>, want: Seq<(Seq<u8>, Seq<u8>)>)
    requires
        ps.len() == want.len(),
        forall|i: int| 0 <= i < ps.len() ==> (#[trigger] want[i]) == (ps[i].0@, ps[i].1@),
    ensures
        pair_views(ps) == want,
    decreases ps.len(),
{
    if ps.len() == 0 {
        assert(pair_views(ps) =~= want);
    } else {
        assert(want.subrange(1, want.len() as int).len() == ps.subrange(1, ps.len() as int).len());
        assert forall|i: int| 0 <= i < ps.subrange(1, ps.len() as int).len() implies (
        #[trigger] want.subrange(1, want.len() as int)[i]) == (
        ps.subrange(1, ps.len() as int)[i].0@,
        ps.subrange(1, ps.len() as int)[i].1@,
        ) by {
            assert(want.subrange(1, want.len() as int)[i] == want[i + 1]);
            assert(ps.subrange(1, ps.len() as int)[i] == ps[i + 1]);
        }
        lemma_pair_views_concrete(
            ps.subrange(1, ps.len() as int),
            want.subrange(1, want.len() as int),
        );
        assert(pair_views(ps) =~= want);
    }
}

} // verus!

verus! {

/// A dataset-listing response.
#[derive(Debug)]
pub struct ListDatasetsResponse {
    pub next_page_token: Option<String>,
    pub datasets: Vec<DatasetMeta>,
}

/// One dataset of a listing.
#[derive(Debug)]
pub struct DatasetMeta {
    pub id: String,
    pub dataset_reference: DatasetReference,
    pub friendly_name: Option<String>,
}

/// The project and dataset a record refers to.
#[derive(Debug)]
pub struct DatasetReference {
    pub project_id: String,
    pub dataset_id: String,
}

/// A table-listing request.
#[derive(Debug)]
pub struct ListTablesRequest {
    pub max_results: Option<usize>,
    pub page_token: Option<String>,
}

/// The query parameters of a table-listing request, in a fixed order.
pub open spec fn list_tables_params(r: ListTablesRequest) -> Seq<(Seq<u8>, Seq<u8>)> {
    let s0 = Seq::<(Seq<u8>, Seq<u8>)>::empty();
    let s1 = match r.max_results {
        Some(m) => s0.push((k_max_results(), u64_dec(m as nat))),
        None => s0,
    };
    match r.page_token {
        Some(p) => s1.push((k_page_token(), encode_utf8(p@))),
        None => s1,
    }
}

impl ListTablesRequest {
    /// The request's query string.
    pub fn to_query(&self) -> (r: Vec<u8>)
        ensures
            r@ == query_string(list_tables_params(*self)),
    {
        let mut params: Vec<(Vec<u8>, Vec<u8>)> = Vec::new();
        let max_k: Vec<u8> = vec![109u8, 97, 120, 82, 101, 115, 117, 108, 116, 115];
        let page_k: Vec<u8> = vec![112u8, 97, 103, 101, 84, 111, 107, 101, 110];
        proof {
            assert(max_k@ =~= k_max_results());
            assert(page_k@ =~= k_page_token());
        }
        match self.max_results {
            Some(m) => {
                params.push((max_k, u64_to_dec(m as u64)));
            },
            None => {},
        }
        match &self.page_token {
            Some(p) => {
                params.push((page_k, p.as_str().as_bytes_vec()));
            },
            None => {},
        }
        let out = encode_query_params(&params);
        proof {
            lemma_pair_views_concrete(params@, list_tables_params(*self));
        }
        out
    }
}

/// A table-listing response.
#[derive(Debug)]
pub struct ListTablesResponse {
    pub next_page_token: Option<String>,
    pub tables: Option<Vec<TableMeta>>,
    pub total_items: usize,
}

/// One table of a listing.
#[derive(Debug)]
pub struct TableMeta {
    pub id: String,
    pub table_reference: TableReference,
    pub friendly_name: Option<String>,
    pub view: Option<ViewMeta>,
    pub type0: String,
}

/// A view's query and dialect.
#[derive(Debug)]
pub struct ViewMeta {
    pub query: Option<String>,
    pub use_legacy_sql: bool,
}

/// The dialect a view uses when the record names none.
pub fn default_view_use_legacy_sql() -> (r: bool)
    ensures
        r == true,
{
    true
}

/// The project, dataset and table a record refers to.
#[derive(Debug)]
pub struct TableReference {
    pub project_id: String,
    pub dataset_id: String,
    pub table_id: String,
}

/// A table-description response.
#[derive(Debug)]
pub struct DescribeTableResponse {
    pub id: String,
    pub schema: Option<TableFieldSchema>,
    pub type0: String,
    pub table_reference: TableReference,
    pub friendly_name: Option<String>,
    pub time_partitioning: Option<TimePartitioning>,
    pub external_data_configuration: Option<ExtDataConfig>,
    pub view: Option<ViewMeta>,
}

/// An external table's schema.
#[derive(Debug)]
pub struct ExtDataConfig {
    pub schema: Option<TableFieldSchema>,
}

/// A table's field list.
#[derive(Debug)]
pub struct TableFieldSchema {
    pub fields: Vec<TableField>,
}

/// How a table is partitioned by time.
#[derive(Debug)]
pub struct TimePartitioning {
    pub type0: String,
    pub expiration_ms: Option<i64>,
    pub field: Option<String>,
}

/// One field of a table schema.
#[derive(Debug)]
pub struct TableField {
    pub name: String,
    pub mode: String,
    pub type0: String,
    pub fields: Option<Vec<TableField>>,
}

/// The mode a field has when the record names none.
pub fn default_table_field_mode() -> (r: String)
    ensures
        r@ == "NULLABLE"@,
{
    String::from_str("NULLABLE")
}

/// A job record.
#[derive(Debug)]
pub struct JobResource {
    pub kind: Option<String>,
    pub id: Option<String>,
    pub dry_run: Option<bool>,
    pub job_reference: Option<JobReference>,
    pub status: Option<JobStatus>,
    pub configuration: JobConfiguration,
}

/// A job's configuration.
#[derive(Debug)]
pub struct JobConfiguration {
    pub query: Option<QueryResource>,
}

/// A query job's text and options.
#[derive(Debug)]
pub struct QueryResource {
    pub query: String,
    pub use_legacy_sql: bool,
    pub use_query_cache: bool,
    pub destination_table: Option<TableReference>,
}

/// A job's state and errors.
#[derive(Debug)]
pub struct JobStatus {
    pub state: String,
    pub error_result: Option<QueryError>,
    pub errors: Option<Vec<QueryError>>,
}

/// The project and job a record refers to.
#[derive(Debug)]
pub struct JobReference {
    pub project_id: String,
    pub job_id: String,
}

/// One error of a query job.
#[derive(Debug)]
pub struct QueryError {
    pub reason: Option<String>,
    pub location: Option<String>,
    pub message: Option<String>,
    pub debug_info: Option<String>,
}

/// A query-results request.
#[derive(Debug)]
pub struct GetQueryResultsRequest {
    pub timeout_ms: Option<usize>,
    pub max_results: Option<usize>,
    pub start_index: Option<usize>,
    pub page_token: Option<String>,
}

/// The query parameters of a query-results request, in a fixed order.
pub open spec fn get_query_results_params(r: GetQueryResultsRequest) -> Seq<(Seq<u8>, Seq<u8>)> {
    let s0 = Seq::<(Seq<u8>, Seq<u8>)>::empty();
    let s1 = match r.timeout_ms {
        Some(t) => s0.push((k_timeout_ms(), u64_dec(t as nat))),
        None => s0,
    };
    let s2 = match r.max_results {
        Some(m) => s1.push((k_max_results(), u64_dec(m as nat))),
        None => s1,
    };
    let s3 = match r.page_token {
        Some(p) => s2.push((k_page_token(), encode_utf8(p@))),
        None => s2,
    };
    match r.start_index {
        Some(i) => s3.push((k_start_index(), u64_dec(i as nat))),
        None => s3,
    }
}

impl GetQueryResultsRequest {
    /// The request's query string.
    pub fn to_query(&self) -> (r: Vec<u8>)
        ensures
            r@ == query_string(get_query_results_params(*self)),
    {
        let mut params: Vec<(Vec<u8>, Vec<u8>)> = Vec::new();
        let timeout_k: Vec<u8> = vec![116u8, 105, 109, 101, 111, 117, 116, 77, 115];
        let max_k: Vec<u8> = vec![109u8, 97, 120, 82, 101, 115, 117, 108, 116, 115];
        let page_k: Vec<u8> = vec![112u8, 97, 103, 101, 84, 111, 107, 101, 110];
        let start_k: Vec<u8> = vec![115u8, 116, 97, 114, 116, 73, 110, 100, 101, 120];
        proof {
            assert(timeout_k@ =~= k_timeout_ms());
            assert(max_k@ =~= k_max_results());
            assert(page_k@ =~= k_page_token());
            assert(start_k@ =~= k_start_index());
        }
        match self.timeout_ms {
            Some(t) => {
                params.push((timeout_k, u64_to_dec(t as u64)));
            },
            None => {},
        }
        match self.max_results {
            Some(m) => {
                params.push((max_k, u64_to_dec(m as u64)));
            },
            None => {},
        }
        match &self.page_token {
            Some(p) => {
                params.push((page_k, p.as_str().as_bytes_vec()));
            },
            None => {},
        }
        match self.start_index {
            Some(i) => {
                params.push((start_k, u64_to_dec(i as u64)));
            },
            None => {},
        }
        let out = encode_query_params(&params);
        proof {
            lemma_pair_views_concrete(params@, get_query_results_params(*self));
        }
        out
    }
}

/// A query-results response.
#[derive(Debug)]
pub struct GetQueryResultsResponse {
    pub schema: Option<TableFieldSchema>,
    pub job_reference: Option<JobReference>,
    pub total_rows: Option<String>,
    pub rows: Option<Vec<TableRow>>,
    pub job_complete: bool,
    pub page_token: Option<String>,
    pub errors: Option<Vec<QueryError>>,
}

/// One result row.
#[derive(Debug)]
pub struct TableRow {
    pub f: Vec<TableCell>,
}

/// One result cell.
#[derive(Debug)]
pub struct TableCell {
    pub v: Cell,
}

/// A cell's value: a scalar, a repetition, or a nested row.
#[derive(Debug)]
pub enum Cell {
    Value(Option<String>),
    Repeat(Vec<TableCell>),
    Row(TableRow),
}

impl Cell {
    /// The value an absent cell stands for.
    pub fn default() -> (r: Cell)
        ensures
            r == Cell::Value(None::<String>),
    {
        Cell::Value(None)
    }
}

} // verus!

verus! {

impl DatasetReference {
    /// Decodes one reference record.
    pub(crate) fn from_json(v: &JsonVal) -> Result<DatasetReference, Error> {
        Ok(
            DatasetReference {
                project_id: crate::svc::common::req_string(
                    v,
                    ("projectId").as_bytes_vec().as_slice(),
                )?,
                dataset_id: crate::svc::common::req_string(
                    v,
                    ("datasetId").as_bytes_vec().as_slice(),
                )?,
            },
        )
    }
}

impl DatasetMeta {
    /// Decodes one dataset record.
    pub(crate) fn from_json(v: &JsonVal) -> Result<DatasetMeta, Error> {
        let dr = crate::svc::common::req_obj(v, ("datasetReference").as_bytes_vec().as_slice())?;
        Ok(
            DatasetMeta {
                id: crate::svc::common::req_string(v, ("id").as_bytes_vec().as_slice())?,
                dataset_reference: DatasetReference::from_json(dr)?,
                friendly_name: crate::svc::common::opt_string(
                    v,
                    ("friendlyName").as_bytes_vec().as_slice(),
                )?,
            },
        )
    }
}

impl ListDatasetsResponse {
    /// Decodes a dataset-listing response.
    pub(crate) fn from_json(v: &JsonVal) -> Result<ListDatasetsResponse, Error> {
        let items = crate::svc::common::req_arr(v, ("datasets").as_bytes_vec().as_slice())?;
        let mut datasets: Vec<DatasetMeta> = Vec::new();
        let mut i: usize = 0;
        while i < items.len()
            decreases items.len() - i,
        {
            datasets.push(DatasetMeta::from_json(&items[i])?);
            i += 1;
        }
        Ok(
            ListDatasetsResponse {
                next_page_token: crate::svc::common::opt_string(
                    v,
                    ("nextPageToken").as_bytes_vec().as_slice(),
                )?,
                datasets,
            },
        )
    }
}

impl TableReference {
    /// Decodes one reference record.
    pub(crate) fn from_json(v: &JsonVal) -> Result<TableReference, Error> {
        Ok(
            TableReference {
                project_id: crate::svc::common::req_string(
                    v,
                    ("projectId").as_bytes_vec().as_slice(),
                )?,
                dataset_id: crate::svc::common::req_string(
                    v,
                    ("datasetId").as_bytes_vec().as_slice(),
                )?,
                table_id: crate::svc::common::req_string(
                    v,
                    ("tableId").as_bytes_vec().as_slice(),
                )?,
            },
        )
    }

    /// The reference's document.
    pub(crate) fn to_json(&self) -> JsonVal {
        let mut ps: Vec<(Vec<u8>, JsonVal)> = Vec::new();
        crate::svc::common::push_str_member(&mut ps, ("projectId").as_bytes_vec(), &self.project_id);
        crate::svc::common::push_str_member(&mut ps, ("datasetId").as_bytes_vec(), &self.dataset_id);
        crate::svc::common::push_str_member(&mut ps, ("tableId").as_bytes_vec(), &self.table_id);
        JsonVal::Obj(ps)
    }
}

impl ViewMeta {
    /// Decodes one view record; an absent dialect defaults to legacy SQL.
    pub(crate) fn from_json(v: &JsonVal) -> Result<ViewMeta, Error> {
        Ok(
            ViewMeta {
                query: crate::svc::common::opt_string(v, ("query").as_bytes_vec().as_slice())?,
                use_legacy_sql: crate::svc::common::bool_or(
                    v,
                    ("useLegacySql").as_bytes_vec().as_slice(),
                    default_view_use_legacy_sql(),
                )?,
            },
        )
    }
}

impl TableMeta {
    /// Decodes one table record.
    pub(crate) fn from_json(v: &JsonVal) -> Result<TableMeta, Error> {
        let tr = crate::svc::common::req_obj(v, ("tableReference").as_bytes_vec().as_slice())?;
        let view = match crate::svc::common::opt_obj(v, ("view").as_bytes_vec().as_slice())? {
            Some(w) => Some(ViewMeta::from_json(w)?),
            None => None,
        };
        Ok(
            TableMeta {
                id: crate::svc::common::req_string(v, ("id").as_bytes_vec().as_slice())?,
                table_reference: TableReference::from_json(tr)?,
                friendly_name: crate::svc::common::opt_string(
                    v,
                    ("friendlyName").as_bytes_vec().as_slice(),
                )?,
                view,
                type0: crate::svc::common::req_string(v, ("type").as_bytes_vec().as_slice())?,
            },
        )
    }
}

impl ListTablesResponse {
    /// Decodes a table-listing response.
    pub(crate) fn from_json(v: &JsonVal) -> Result<ListTablesResponse, Error> {
        let tables: Option<Vec<TableMeta>> = match crate::svc::common::opt_arr(
            v,
            ("tables").as_bytes_vec().as_slice(),
        )? {
            Some(items) => {
                let mut out: Vec<TableMeta> = Vec::new();
                let mut i: usize = 0;
                while i < items.len()
                    decreases items.len() - i,
                {
                    out.push(TableMeta::from_json(&items[i])?);
                    i += 1;
                }
                Some(out)
            },
            None => None,
        };
        Ok(
            ListTablesResponse {
                next_page_token: crate::svc::common::opt_string(
                    v,
                    ("nextPageToken").as_bytes_vec().as_slice(),
                )?,
                tables,
                total_items: crate::svc::common::req_usize(
                    v,
                    ("totalItems").as_bytes_vec().as_slice(),
                )?,
            },
        )
    }
}

} // verus!

verus! {

/// How deeply nested record trees are followed before a decode gives up;
/// far beyond anything the API returns.
pub const MAX_RECORD_DEPTH: u64 = 64;

impl TableField {
    /// Decodes one schema field, following nested records to `depth`.
    #[verifier::loop_isolation(false)]
    fn from_json_depth(v: &JsonVal, depth: u64) -> (r: Result<TableField, Error>)
        decreases depth,
    {
        if depth == 0 {
            return Err(Error::JsonError(crate::svc::common::shape_text()));
        }
        let fields: Option<Vec<TableField>> = match crate::svc::common::opt_arr(
            v,
            ("fields").as_bytes_vec().as_slice(),
        )? {
            Some(items) => {
                let mut out: Vec<TableField> = Vec::new();
                let mut i: usize = 0;
                while i < items.len()
                    decreases items.len() - i,
                {
                    out.push(TableField::from_json_depth(&items[i], depth - 1)?);
                    i += 1;
                }
                Some(out)
            },
            None => None,
        };
        let mode = match crate::svc::common::opt_string(v, ("mode").as_bytes_vec().as_slice())? {
            Some(m) => m,
            None => default_table_field_mode(),
        };
        Ok(
            TableField {
                name: crate::svc::common::req_string(v, ("name").as_bytes_vec().as_slice())?,
                mode,
                type0: crate::svc::common::req_string(v, ("type").as_bytes_vec().as_slice())?,
                fields,
            },
        )
    }

    /// Decodes one schema field.
    pub(crate) fn from_json(v: &JsonVal) -> Result<TableField, Error> {
        TableField::from_json_depth(v, MAX_RECORD_DEPTH)
    }
}

impl TableFieldSchema {
    /// Decodes a schema record.
    pub(crate) fn from_json(v: &JsonVal) -> Result<TableFieldSchema, Error> {
        let items = crate::svc::common::req_arr(v, ("fields").as_bytes_vec().as_slice())?;
        let mut fields: Vec<TableField> = Vec::new();
        let mut i: usize = 0;
        while i < items.len()
            decreases items.len() - i,
        {
            fields.push(TableField::from_json(&items[i])?);
            i += 1;
        }
        Ok(TableFieldSchema { fields })
    }
}

impl TimePartitioning {
    /// Decodes a partitioning record.
    pub(crate) fn from_json(v: &JsonVal) -> Result<TimePartitioning, Error> {
        Ok(
            TimePartitioning {
                type0: crate::svc::common::req_string(v, ("type").as_bytes_vec().as_slice())?,
                expiration_ms: crate::svc::common::opt_i64(
                    v,
                    ("expirationMs").as_bytes_vec().as_slice(),
                )?,
                field: crate::svc::common::opt_string(v, ("field").as_bytes_vec().as_slice())?,
            },
        )
    }
}

impl ExtDataConfig {
    /// Decodes an external-configuration record.
    pub(crate) fn from_json(v: &JsonVal) -> Result<ExtDataConfig, Error> {
        let schema = match crate::svc::common::opt_obj(v, ("schema").as_bytes_vec().as_slice())? {
            Some(s) => Some(TableFieldSchema::from_json(s)?),
            None => None,
        };
        Ok(ExtDataConfig { schema })
    }
}

impl DescribeTableResponse {
    /// Decodes a table-description response.
    pub(crate) fn from_json(v: &JsonVal) -> Result<DescribeTableResponse, Error> {
        let tr = crate::svc::common::req_obj(v, ("tableReference").as_bytes_vec().as_slice())?;
        let schema = match crate::svc::common::opt_obj(v, ("schema").as_bytes_vec().as_slice())? {
            Some(s) => Some(TableFieldSchema::from_json(s)?),
            None => None,
        };
        let time_partitioning = match crate::svc::common::opt_obj(
            v,
            ("timePartitioning").as_bytes_vec().as_slice(),
        )? {
            Some(t) => Some(TimePartitioning::from_json(t)?),
            None => None,
        };
        let external_data_configuration = match crate::svc::common::opt_obj(
            v,
            ("externalDataConfiguration").as_bytes_vec().as_slice(),
        )? {
            Some(e) => Some(ExtDataConfig::from_json(e)?),
            None => None,
        };
        let view = match crate::svc::common::opt_obj(v, ("view").as_bytes_vec().as_slice())? {
            Some(w) => Some(ViewMeta::from_json(w)?),
            None => None,
        };
        Ok(
            DescribeTableResponse {
                id: crate::svc::common::req_string(v, ("id").as_bytes_vec().as_slice())?,
                schema,
                type0: crate::svc::common::req_string(v, ("type").as_bytes_vec().as_slice())?,
                table_reference: TableReference::from_json(tr)?,
                friendly_name: crate::svc::common::opt_string(
                    v,
                    ("friendlyName").as_bytes_vec().as_slice(),
                )?,
                time_partitioning,
                external_data_configuration,
                view,
            },
        )
    }
}

impl QueryError {
    /// Decodes one query-error record.
    pub(crate) fn from_json(v: &JsonVal) -> Result<QueryError, Error> {
        Ok(
            QueryError {
                reason: crate::svc::common::opt_string(v, ("reason").as_bytes_vec().as_slice())?,
                location: crate::svc::common::opt_string(
                    v,
                    ("location").as_bytes_vec().as_slice(),
                )?,
                message: crate::svc::common::opt_string(v, ("message").as_bytes_vec().as_slice())?,
                debug_info: crate::svc::common::opt_string(
                    v,
                    ("debugInfo").as_bytes_vec().as_slice(),
                )?,
            },
        )
    }

    /// The record's document.
    pub(crate) fn to_json(&self) -> JsonVal {
        let mut ps: Vec<(Vec<u8>, JsonVal)> = Vec::new();
        crate::svc::common::push_opt_str_member(&mut ps, ("reason").as_bytes_vec(), &self.reason);
        crate::svc::common::push_opt_str_member(
            &mut ps,
            ("location").as_bytes_vec(),
            &self.location,
        );
        crate::svc::common::push_opt_str_member(&mut ps, ("message").as_bytes_vec(), &self.message);
        crate::svc::common::push_opt_str_member(
            &mut ps,
            ("debugInfo").as_bytes_vec(),
            &self.debug_info,
        );
        JsonVal::Obj(ps)
    }
}

impl JobReference {
    /// Decodes one reference record.
    pub(crate) fn from_json(v: &JsonVal) -> Result<JobReference, Error> {
        Ok(
            JobReference {
                project_id: crate::svc::common::req_string(
                    v,
                    ("projectId").as_bytes_vec().as_slice(),
                )?,
                job_id: crate::svc::common::req_string(v, ("jobId").as_bytes_vec().as_slice())?,
            },
        )
    }

    /// The reference's document.
    pub(crate) fn to_json(&self) -> JsonVal {
        let mut ps: Vec<(Vec<u8>, JsonVal)> = Vec::new();
        crate::svc::common::push_str_member(&mut ps, ("projectId").as_bytes_vec(), &self.project_id);
        crate::svc::common::push_str_member(&mut ps, ("jobId").as_bytes_vec(), &self.job_id);
        JsonVal::Obj(ps)
    }
}

impl JobStatus {
    /// Decodes one status record.
    pub(crate) fn from_json(v: &JsonVal) -> Result<JobStatus, Error> {
        let error_result = match crate::svc::common::opt_obj(
            v,
            ("errorResult").as_bytes_vec().as_slice(),
        )? {
            Some(e) => Some(QueryError::from_json(e)?),
            None => None,
        };
        let errors = match crate::svc::common::opt_arr(v, ("errors").as_bytes_vec().as_slice())? {
            Some(items) => {
                let mut out: Vec<QueryError> = Vec::new();
                let mut i: usize = 0;
                while i < items.len()
                    decreases items.len() - i,
                {
                    out.push(QueryError::from_json(&items[i])?);
                    i += 1;
                }
                Some(out)
            },
            None => None,
        };
        Ok(
            JobStatus {
                state: crate::svc::common::req_string(v, ("state").as_bytes_vec().as_slice())?,
                error_result,
                errors,
            },
        )
    }
}

impl QueryResource {
    /// Decodes one query record.
    pub(crate) fn from_json(v: &JsonVal) -> Result<QueryResource, Error> {
        let destination_table = match crate::svc::common::opt_obj(
            v,
            ("destinationTable").as_bytes_vec().as_slice(),
        )? {
            Some(t) => Some(TableReference::from_json(t)?),
            None => None,
        };
        Ok(
            QueryResource {
                query: crate::svc::common::req_string(v, ("query").as_bytes_vec().as_slice())?,
                use_legacy_sql: crate::svc::common::req_bool(
                    v,
                    ("useLegacySql").as_bytes_vec().as_slice(),
                )?,
                use_query_cache: crate::svc::common::req_bool(
                    v,
                    ("useQueryCache").as_bytes_vec().as_slice(),
                )?,
                destination_table,
            },
        )
    }

    /// The record's document.
    pub(crate) fn to_json(&self) -> JsonVal {
        let mut ps: Vec<(Vec<u8>, JsonVal)> = Vec::new();
        crate::svc::common::push_str_member(&mut ps, ("query").as_bytes_vec(), &self.query);
        crate::svc::common::push_bool_member(
            &mut ps,
            ("useLegacySql").as_bytes_vec(),
            self.use_legacy_sql,
        );
        crate::svc::common::push_bool_member(
            &mut ps,
            ("useQueryCache").as_bytes_vec(),
            self.use_query_cache,
        );
        match &self.destination_table {
            Some(t) => {
                ps.push((("destinationTable").as_bytes_vec(), t.to_json()));
            },
            None => {},
        }
        JsonVal::Obj(ps)
    }
}

impl JobConfiguration {
    /// Decodes one configuration record.
    pub(crate) fn from_json(v: &JsonVal) -> Result<JobConfiguration, Error> {
        let query = match crate::svc::common::opt_obj(v, ("query").as_bytes_vec().as_slice())? {
            Some(q) => Some(QueryResource::from_json(q)?),
            None => None,
        };
        Ok(JobConfiguration { query })
    }

    /// The record's document.
    pub(crate) fn to_json(&self) -> JsonVal {
        let mut ps: Vec<(Vec<u8>, JsonVal)> = Vec::new();
        match &self.query {
            Some(q) => {
                ps.push((("query").as_bytes_vec(), q.to_json()));
            },
            None => {},
        }
        JsonVal::Obj(ps)
    }
}

impl JobResource {
    /// Decodes one job record.
    pub(crate) fn from_json(v: &JsonVal) -> Result<JobResource, Error> {
        let job_reference = match crate::svc::common::opt_obj(
            v,
            ("jobReference").as_bytes_vec().as_slice(),
        )? {
            Some(j) => Some(JobReference::from_json(j)?),
            None => None,
        };
        let status = match crate::svc::common::opt_obj(v, ("status").as_bytes_vec().as_slice())? {
            Some(s) => Some(JobStatus::from_json(s)?),
            None => None,
        };
        let dry_run = match crate::json::get_field(v, ("dryRun").as_bytes_vec().as_slice()) {
            Some(f) => crate::json::as_bool(f),
            None => None,
        };
        let cfg = crate::svc::common::req_obj(v, ("configuration").as_bytes_vec().as_slice())?;
        Ok(
            JobResource {
                kind: crate::svc::common::opt_string(v, ("kind").as_bytes_vec().as_slice())?,
                id: crate::svc::common::opt_string(v, ("id").as_bytes_vec().as_slice())?,
                dry_run,
                job_reference,
                status,
                configuration: JobConfiguration::from_json(cfg)?,
            },
        )
    }

    /// The record's document.
    pub(crate) fn to_json(&self) -> JsonVal {
        let mut ps: Vec<(Vec<u8>, JsonVal)> = Vec::new();
        crate::svc::common::push_opt_str_member(&mut ps, ("kind").as_bytes_vec(), &self.kind);
        crate::svc::common::push_opt_str_member(&mut ps, ("id").as_bytes_vec(), &self.id);
        match self.dry_run {
            Some(b) => {
                ps.push((("dryRun").as_bytes_vec(), JsonVal::Bool(b)));
            },
            None => {},
        }
        match &self.job_reference {
            Some(j) => {
                ps.push((("jobReference").as_bytes_vec(), j.to_json()));
            },
            None => {},
        }
        ps.push((("configuration").as_bytes_vec(), self.configuration.to_json()));
        JsonVal::Obj(ps)
    }
}

impl Cell {
    /// Decodes one cell value, following nested rows to `depth`.
    #[verifier::loop_isolation(false)]
    fn from_json_depth(v: &JsonVal, depth: u64) -> (r: Result<Cell, Error>)
        decreases depth, 2int,
    {
        if depth == 0 {
            return Err(Error::JsonError(crate::svc::common::shape_text()));
        }
        match v {
            JsonVal::Null => Ok(Cell::Value(None)),
            JsonVal::Str(t) => match crate::json::bytes_to_string(crate::json::bytes_clone(t)) {
                Ok(s) => Ok(Cell::Value(Some(s))),
                Err(_) => Err(Error::JsonError(crate::svc::common::shape_text())),
            },
            JsonVal::Arr(items) => {
                let mut out: Vec<TableCell> = Vec::new();
                let mut i: usize = 0;
                while i < items.len()
                    decreases items.len() - i,
                {
                    out.push(TableCell::from_json_depth(&items[i], depth - 1)?);
                    i += 1;
                }
                Ok(Cell::Repeat(out))
            },
            JsonVal::Obj(_) => Ok(Cell::Row(TableRow::from_json_depth(v, depth - 1)?)),
            _ => Err(Error::JsonError(crate::svc::common::shape_text())),
        }
    }
}

impl TableCell {
    /// Decodes one cell record, following nested rows to `depth`.
    #[verifier::loop_isolation(false)]
    fn from_json_depth(v: &JsonVal, depth: u64) -> (r: Result<TableCell, Error>)
        decreases depth, 1int,
    {
        if depth == 0 {
            return Err(Error::JsonError(crate::svc::common::shape_text()));
        }
        match crate::json::get_field(v, ("v").as_bytes_vec().as_slice()) {
            Some(f) => Ok(TableCell { v: Cell::from_json_depth(f, depth - 1)? }),
            None => Ok(TableCell { v: Cell::default() }),
        }
    }
}

impl TableRow {
    /// Decodes one row record, following nested rows to `depth`.
    #[verifier::loop_isolation(false)]
    fn from_json_depth(v: &JsonVal, depth: u64) -> (r: Result<TableRow, Error>)
        decreases depth, 0int,
    {
        if depth == 0 {
            return Err(Error::JsonError(crate::svc::common::shape_text()));
        }
        let items = crate::svc::common::req_arr(v, ("f").as_bytes_vec().as_slice())?;
        let mut f: Vec<TableCell> = Vec::new();
        let mut i: usize = 0;
        while i < items.len()
            decreases items.len() - i,
        {
            f.push(TableCell::from_json_depth(&items[i], depth - 1)?);
            i += 1;
        }
        Ok(TableRow { f })
    }

    /// Decodes one row record.
    pub(crate) fn from_json(v: &JsonVal) -> Result<TableRow, Error> {
        TableRow::from_json_depth(v, MAX_RECORD_DEPTH)
    }
}

impl GetQueryResultsResponse {
    /// Decodes a query-results response.
    pub(crate) fn from_json(v: &JsonVal) -> Result<GetQueryResultsResponse, Error> {
        let schema = match crate::svc::common::opt_obj(v, ("schema").as_bytes_vec().as_slice())? {
            Some(s) => Some(TableFieldSchema::from_json(s)?),
            None => None,
        };
        let job_reference = match crate::svc::common::opt_obj(
            v,
            ("jobReference").as_bytes_vec().as_slice(),
        )? {
            Some(j) => Some(JobReference::from_json(j)?),
            None => None,
        };
        let rows = match crate::svc::common::opt_arr(v, ("rows").as_bytes_vec().as_slice())? {
            Some(items) => {
                let mut out: Vec<TableRow> = Vec::new();
                let mut i: usize = 0;
                while i < items.len()
                    decreases items.len() - i,
                {
                    out.push(TableRow::from_json(&items[i])?);
                    i += 1;
                }
                Some(out)
            },
            None => None,
        };
        let errors = match crate::svc::common::opt_arr(v, ("errors").as_bytes_vec().as_slice())? {
            Some(items) => {
                let mut out: Vec<QueryError> = Vec::new();
                let mut i: usize = 0;
                while i < items.len()
                    decreases items.len() - i,
                {
                    out.push(QueryError::from_json(&items[i])?);
                    i += 1;
                }
                Some(out)
            },
            None => None,
        };
        Ok(
            GetQueryResultsResponse {
                schema,
                job_reference,
                total_rows: crate::svc::common::opt_string(
                    v,
                    ("totalRows").as_bytes_vec().as_slice(),
                )?,
                rows,
                job_complete: crate::svc::common::req_bool(
                    v,
                    ("jobComplete").as_bytes_vec().as_slice(),
                )?,
                page_token: crate::svc::common::opt_string(
                    v,
                    ("pageToken").as_bytes_vec().as_slice(),
                )?,
                errors,
            },
        )
    }
}

} // verus!

verus! {

impl<'a, T: HttpTransport> Hub<'a, T> {
    /// Lists a project's datasets.
    pub fn list_datasets(&self, token: &str, project_id: &str, req: &ListDatasetsRequest) -> Result<
        ListDatasetsResponse,
        Error,
    > {
        let mut uri = ("https://www.googleapis.com/bigquery/v2/projects/").as_bytes_vec();
        push_all(&mut uri, project_id.as_bytes());
        push_all(&mut uri, ("/datasets?").as_bytes_vec().as_slice());
        let q = req.to_query();
        push_all(&mut uri, q.as_slice());
        let v = self.get_bq(uri, token)?;
        ListDatasetsResponse::from_json(&v)
    }

    /// Lists a dataset's tables.
    pub fn list_tables(
        &self,
        token: &str,
        project_id: &str,
        dataset_id: &str,
        req: &ListTablesRequest,
    ) -> Result<ListTablesResponse, Error> {
        let mut uri = ("https://www.googleapis.com/bigquery/v2/projects/").as_bytes_vec();
        push_all(&mut uri, project_id.as_bytes());
        push_all(&mut uri, ("/datasets/").as_bytes_vec().as_slice());
        push_all(&mut uri, dataset_id.as_bytes());
        push_all(&mut uri, ("/tables?").as_bytes_vec().as_slice());
        let q = req.to_query();
        push_all(&mut uri, q.as_slice());
        let v = self.get_bq(uri, token)?;
        ListTablesResponse::from_json(&v)
    }

    /// Describes one table.
    pub fn describe_table(
        &self,
        token: &str,
        project_id: &str,
        dataset_id: &str,
        table_id: &str,
    ) -> Result<DescribeTableResponse, Error> {
        let mut uri = ("https://www.googleapis.com/bigquery/v2/projects/").as_bytes_vec();
        push_all(&mut uri, project_id.as_bytes());
        push_all(&mut uri, ("/datasets/").as_bytes_vec().as_slice());
        push_all(&mut uri, dataset_id.as_bytes());
        push_all(&mut uri, ("/tables/").as_bytes_vec().as_slice());
        push_all(&mut uri, table_id.as_bytes());
        let v = self.get_bq(uri, token)?;
        DescribeTableResponse::from_json(&v)
    }

    /// Creates a job.
    pub fn create_job(&self, token: &str, project_id: &str, req: &JobResource) -> Result<
        JobResource,
        Error,
    > {
        let mut uri = ("https://www.googleapis.com/bigquery/v2/projects/").as_bytes_vec();
        push_all(&mut uri, project_id.as_bytes());
        push_all(&mut uri, ("/jobs").as_bytes_vec().as_slice());
        let body = req.to_json();
        let v = self.post_bq(uri, &body, token)?;
        JobResource::from_json(&v)
    }

    /// Cancels a job.
    pub fn cancel_job(&self, token: &str, project_id: &str, job_id: &str) -> Result<
        JobResource,
        Error,
    > {
        let mut uri = ("https://www.googleapis.com/bigquery/v2/projects/").as_bytes_vec();
        push_all(&mut uri, project_id.as_bytes());
        push_all(&mut uri, ("/jobs/").as_bytes_vec().as_slice());
        push_all(&mut uri, job_id.as_bytes());
        push_all(&mut uri, ("/cancel").as_bytes_vec().as_slice());
        let empty = crate::svc::common::Empty {};
        let body = empty.to_json();
        let v = self.post_bq(uri, &body, token)?;
        let job = crate::svc::common::req_obj(&v, ("job").as_bytes_vec().as_slice())?;
        JobResource::from_json(job)
    }

    /// Reads one job.
    pub fn get_job(&self, token: &str, project_id: &str, job_id: &str) -> Result<
        JobResource,
        Error,
    > {
        let mut uri = ("https://www.googleapis.com/bigquery/v2/projects/").as_bytes_vec();
        push_all(&mut uri, project_id.as_bytes());
        push_all(&mut uri, ("/jobs/").as_bytes_vec().as_slice());
        push_all(&mut uri, job_id.as_bytes());
        let v = self.get_bq(uri, token)?;
        JobResource::from_json(&v)
    }

    /// Reads a query job's results.
    pub fn get_query_results(
        &self,
        token: &str,
        project_id: &str,
        job_id: &str,
        req: &GetQueryResultsRequest,
    ) -> Result<GetQueryResultsResponse, Error> {
        let mut uri = ("https://www.googleapis.com/bigquery/v2/projects/").as_bytes_vec();
        push_all(&mut uri, project_id.as_bytes());
        push_all(&mut uri, ("/queries/").as_bytes_vec().as_slice());
        push_all(&mut uri, job_id.as_bytes());
        push_all(&mut uri, ("?").as_bytes_vec().as_slice());
        let q = req.to_query();
        push_all(&mut uri, q.as_slice());
        let v = self.get_bq(uri, token)?;
        GetQueryResultsResponse::from_json(&v)
    }

    /// A GET carrying the caller's own bearer token.
    fn get_bq(&self, uri: Vec<u8>, token: &str) -> Result<JsonVal, Error> {
        let mut hv = ("Bearer ").as_bytes_vec();
        push_all(&mut hv, token.as_bytes());
        let mut headers: Vec<(Vec<u8>, Vec<u8>)> = Vec::new();
        headers.push((auth_header_name(), hv));
        let req = HttpRequest { method: HttpMethod::Get, uri, headers, body: Vec::new() };
        match self.request(req) {
            Ok((_, v)) => Ok(v),
            Err(e) => Err(e),
        }
    }

    /// A POST of a JSON body carrying the caller's own bearer token.
    fn post_bq(&self, uri: Vec<u8>, body: &JsonVal, token: &str) -> Result<JsonVal, Error> {
        let mut hv = ("Bearer ").as_bytes_vec();
        push_all(&mut hv, token.as_bytes());
        let mut headers: Vec<(Vec<u8>, Vec<u8>)> = Vec::new();
        headers.push((auth_header_name(), hv));
        headers.push((content_type_name(), json_content_type()));
        let req = HttpRequest {
            method: HttpMethod::Post,
            uri,
            headers,
            body: to_json_bytes(body),
        };
        match self.request(req) {
            Ok((_, v)) => Ok(v),
            Err(e) => Err(e),
        }
    }
}

} // verus!
