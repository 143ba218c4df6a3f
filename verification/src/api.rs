//! Plain models of what the remote service sends and receives. The
//! transport itself lives outside the library; these types carry the
//! values its responses decode to.
use vstd::prelude::*;

use crate::decode::SchemaField;
use crate::json::JsonValue;

verus! {

/// One compute cluster as the service lists it.
#[derive(Debug, PartialEq)]
pub struct Cluster {
    pub id: String,
    pub name: String,
    pub state: String,
}

pub struct ListClustersResponse {
    pub clusters: Vec<Cluster>,
}

pub struct GetClusterInfoResponse {
    pub state: String,
}

pub struct RunCommandResponse {
    pub id: String,
}

pub struct CreateContextResponse {
    pub id: String,
}

pub struct GetContextStatusResponse {
    pub status: String,
}

pub struct Table {
    pub name: String,
}

pub struct ListTablesResponse {
    pub tables: Vec<Table>,
}

/// The result payload of a finished command, as the status endpoint
/// reports it: a result-type tag and the fields that type may carry.
pub struct CommandResults {
    pub data: Option<JsonValue>,
    pub result_type: String,
    pub schema: Option<Vec<SchemaField>>,
    pub cause: Option<String>,
    pub summary: Option<String>,
}

/// A command's status as the polling endpoint reports it.
pub struct GetCommandInfoResponse {
    pub id: String,
    pub status: String,
    pub results: Option<CommandResults>,
}

} // verus!
