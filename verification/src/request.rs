//! What the library contributes to each remote call: the request bodies
//! and query paths, built exactly. Sending them is the caller's business.
use vstd::prelude::*;
use vstd::string::StringExecFns;

use crate::json::JsonModel;
use crate::json::JsonValue;
use crate::json::json_of;
use crate::json::json_view_members;
use crate::json::lemma_json_view_members;
use crate::json::to_json_string;

verus! {

/// The body of a command execution request: the four fields as one
/// compact JSON object, keys in lexicographic order, the source text
/// escaped as JSON asks.
pub fn run_command_request_body(
    command: &str,
    cluster_id: &str,
    context_id: &str,
    language: &str,
) -> (r: String)
    ensures
        r@ == json_of(
            JsonModel::Object(
                seq![
                    ("clusterId"@, JsonModel::Str(cluster_id@)),
                    ("command"@, JsonModel::Str(command@)),
                    ("contextId"@, JsonModel::Str(context_id@)),
                    ("language"@, JsonModel::Str(language@)),
                ],
            ),
            false,
        ),
{
    broadcast use lemma_json_view_members;

    let members: Vec<(String, JsonValue)> = vec![
        (String::from_str("clusterId"), JsonValue::Str(cluster_id.to_owned())),
        (String::from_str("command"), JsonValue::Str(command.to_owned())),
        (String::from_str("contextId"), JsonValue::Str(context_id.to_owned())),
        (String::from_str("language"), JsonValue::Str(language.to_owned())),
    ];
    let v = JsonValue::Object(members);
    proof {
        assert(json_view_members(v->Object_0@) =~= seq![
            ("clusterId"@, JsonModel::Str(cluster_id@)),
            ("command"@, JsonModel::Str(command@)),
            ("contextId"@, JsonModel::Str(context_id@)),
            ("language"@, JsonModel::Str(language@)),
        ]);
    }
    to_json_string(&v, false)
}

/// The body of a context creation request: a hand-formatted object with
/// one space after each key.
pub fn create_context_request_body(cluster_id: &str, language: &str) -> (r: String)
    ensures
        r@ == "{\"clusterId\": \""@ + cluster_id@ + "\", \"language\": \""@ + language@ + "\"}"@,
{
    let mut s = String::from_str("{\"clusterId\": \"");
    s.append(cluster_id);
    s.append("\", \"language\": \"");
    s.append(language);
    s.append("\"}");
    s
}

/// The body of a cluster start request, hand-formatted the same way.
pub fn cluster_start_request_body(cluster_id: &str) -> (r: String)
    ensures
        r@ == "{\"clusterId\": \""@ + cluster_id@ + "\"}"@,
{
    let mut s = String::from_str("{\"clusterId\": \"");
    s.append(cluster_id);
    s.append("\"}");
    s
}

/// The query path that fetches one cluster's state.
pub fn clusters_get_path(cluster_id: &str) -> (r: String)
    ensures
        r@ == "/api/2.1/clusters/get?cluster_id="@ + cluster_id@,
{
    let mut s = String::from_str("/api/2.1/clusters/get?cluster_id=");
    s.append(cluster_id);
    s
}

/// The query path that fetches one context's status.
pub fn contexts_status_path(cluster_id: &str, context_id: &str) -> (r: String)
    ensures
        r@ == "/api/1.2/contexts/status?clusterId="@ + cluster_id@ + "&contextId="@
            + context_id@,
{
    let mut s = String::from_str("/api/1.2/contexts/status?clusterId=");
    s.append(cluster_id);
    s.append("&contextId=");
    s.append(context_id);
    s
}

/// The query path that fetches one command's status.
pub fn commands_status_path(cluster_id: &str, context_id: &str, command_id: &str) -> (r: String)
    ensures
        r@ == "/api/1.2/commands/status?clusterId="@ + cluster_id@ + "&contextId="@ + context_id@
            + "&commandId="@ + command_id@,
{
    let mut s = String::from_str("/api/1.2/commands/status?clusterId=");
    s.append(cluster_id);
    s.append("&contextId=");
    s.append(context_id);
    s.append("&commandId=");
    s.append(command_id);
    s
}

} // verus!
