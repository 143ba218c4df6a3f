use brichka::CommandResults;
use brichka::CommandRunResult;
use brichka::ContextConfig;
use brichka::ContextResolution;
use brichka::GateAction;
use brichka::GetCommandInfoResponse;
use brichka::JsonValue;
use brichka::PipelineError;
use brichka::PollVerdict;
use brichka::SchemaField;
use brichka::TypeDesc;
use brichka::check_cluster_state;
use brichka::cluster_start_poll;
use brichka::command_status_is_terminal;
use brichka::context_status_poll;
use brichka::dec_string;
use brichka::format_command_result;
use brichka::resolve_context;
use brichka::spill_relative_path;
use brichka::table_spill_content;
use brichka::format_table_result;

fn num(n: i64) -> JsonValue {
    JsonValue::Num(n.to_string())
}

fn results(result_type: &str) -> CommandResults {
    CommandResults {
        data: None,
        result_type: result_type.to_string(),
        schema: None,
        cause: None,
        summary: None,
    }
}

fn response(res: CommandResults) -> GetCommandInfoResponse {
    GetCommandInfoResponse {
        id: "cmd1".to_string(),
        status: "Finished".to_string(),
        results: Some(res),
    }
}

#[test]
fn running_and_resizing_clusters_are_ready() {
    assert_eq!(check_cluster_state("RUNNING", false).unwrap(), GateAction::Ready);
    assert_eq!(check_cluster_state("RESIZING", true).unwrap(), GateAction::Ready);
}

#[test]
fn terminated_cluster_needs_the_start_flag() {
    assert_eq!(check_cluster_state("TERMINATED", true).unwrap(), GateAction::StartAndPoll);
    let err = check_cluster_state("TERMINATED", false).unwrap_err();
    assert_eq!(err, PipelineError::ClusterTerminated);
    assert_eq!(
        err.message(),
        "Cluster is terminated. Use the --start flag if you want to start it"
    );
}

#[test]
fn other_cluster_states_fail_with_the_state_named() {
    for state in ["PENDING", "RESTARTING", "TERMINATING", "ERROR", "UNKNOWN"] {
        let err = check_cluster_state(state, true).unwrap_err();
        assert_eq!(err, PipelineError::ClusterBadState { state: state.to_string() });
        assert_eq!(
            err.message(),
            format!("Can not run command, cluster state is `{}`", state)
        );
    }
}

#[test]
fn cluster_start_poll_verdicts() {
    assert_eq!(cluster_start_poll("RUNNING"), PollVerdict::Done);
    assert_eq!(cluster_start_poll("ERROR"), PollVerdict::Failed);
    assert_eq!(cluster_start_poll("PENDING"), PollVerdict::Wait);
    assert_eq!(
        PipelineError::ClusterStartFailed.message(),
        "Failed to start the cluster"
    );
}

#[test]
fn context_poll_verdicts() {
    assert_eq!(context_status_poll("Running"), PollVerdict::Done);
    assert_eq!(context_status_poll("Error"), PollVerdict::Failed);
    assert_eq!(context_status_poll("Pending"), PollVerdict::Wait);
    assert_eq!(
        PipelineError::ContextCreateFailed.message(),
        "Failed creating an execution context"
    );
}

#[test]
fn command_terminal_statuses() {
    assert!(command_status_is_terminal("Finished"));
    assert!(command_status_is_terminal("Error"));
    assert!(command_status_is_terminal("Cancelled"));
    assert!(!command_status_is_terminal("Running"));
    assert!(!command_status_is_terminal("Queued"));
    assert!(!command_status_is_terminal("Cancelling"));
}

#[test]
fn live_persisted_context_is_reused() {
    let persisted = ContextConfig::new("c1".to_string());
    let r = resolve_context(Some(&persisted), true, false).unwrap();
    assert_eq!(r, ContextResolution::Reuse { context_id: "c1".to_string() });
}

#[test]
fn dead_persisted_context_without_reinit_fails() {
    let persisted = ContextConfig::new("c1".to_string());
    let err = resolve_context(Some(&persisted), false, false).unwrap_err();
    assert_eq!(err, PipelineError::ContextGone);
    assert_eq!(
        err.message(),
        "Execution context does not exist anymore. Recreate it with `brichka init`"
    );
}

#[test]
fn dead_persisted_context_with_reinit_recreates_and_persists() {
    let persisted = ContextConfig::new("c1".to_string());
    let r = resolve_context(Some(&persisted), false, true).unwrap();
    assert_eq!(r, ContextResolution::CreateAndPersist);
}

#[test]
fn absent_context_with_reinit_creates_and_persists() {
    assert_eq!(
        resolve_context(None, false, true).unwrap(),
        ContextResolution::CreateAndPersist
    );
}

#[test]
fn absent_context_without_reinit_creates_ephemeral() {
    assert_eq!(
        resolve_context(None, false, false).unwrap(),
        ContextResolution::CreateEphemeral
    );
}

#[test]
fn error_result_maps_summary_and_cause() {
    let mut res = results("error");
    res.summary = Some("boom".to_string());
    res.cause = Some("stack".to_string());
    let r = format_command_result(&response(res)).unwrap();
    assert_eq!(
        r,
        CommandRunResult::Error { message: "boom".to_string(), cause: Some("stack".to_string()) }
    );
}

#[test]
fn error_result_without_summary_is_malformed() {
    let err = format_command_result(&response(results("error"))).unwrap_err();
    assert_eq!(err, PipelineError::MissingSummary);
    assert_eq!(err.message(), "Error result is missing summary");
}

#[test]
fn text_result_stringifies_its_data() {
    let mut res = results("text");
    res.data = Some(JsonValue::Str("hello".to_string()));
    let r = format_command_result(&response(res)).unwrap();
    assert_eq!(r, CommandRunResult::Text { value: "\"hello\"".to_string() });
}

#[test]
fn text_result_without_data_is_malformed() {
    let err = format_command_result(&response(results("text"))).unwrap_err();
    assert_eq!(err, PipelineError::MissingTextData);
    assert_eq!(err.message(), "Text result is missing data");
}

#[test]
fn table_result_without_data_is_malformed() {
    let err = format_command_result(&response(results("table"))).unwrap_err();
    assert_eq!(err, PipelineError::MissingTableData);
    assert_eq!(err.message(), "Table result is missing data");
}

#[test]
fn table_result_without_schema_is_malformed() {
    let mut res = results("table");
    res.data = Some(JsonValue::Array(vec![]));
    let err = format_command_result(&response(res)).unwrap_err();
    assert_eq!(err, PipelineError::MissingSchema);
    assert_eq!(err.message(), "Missing schema for tabular data");
}

#[test]
fn unknown_result_type_is_fatal() {
    let err = format_command_result(&response(results("images"))).unwrap_err();
    assert_eq!(err, PipelineError::UnknownResultType { result_type: "images".to_string() });
    assert_eq!(
        err.message(),
        "Failed to format command results. Unexpected result type images"
    );
}

#[test]
fn table_end_to_end_spills_compact_array_and_path() {
    let schema = vec![SchemaField { name: "n".to_string(), tpe: TypeDesc::Primitive }];
    let data = JsonValue::Array(vec![
        JsonValue::Array(vec![num(1)]),
        JsonValue::Array(vec![num(2)]),
    ]);
    let mut res = results("table");
    res.data = Some(data);
    res.schema = Some(schema);
    let r = format_command_result(&response(res)).unwrap();
    match r {
        CommandRunResult::Table { rows } => {
            assert_eq!(table_spill_content(&rows), "[{\"n\":1},{\"n\":2}]");
        }
        other => panic!("expected a table, got {:?}", other),
    }
    assert_eq!(spill_relative_path("cmd1"), "brichka/results/cmd1.jsonl");
}

#[test]
fn table_decode_failure_propagates_through_formatting() {
    let schema = vec![SchemaField { name: "n".to_string(), tpe: TypeDesc::Primitive }];
    let mut res = results("table");
    res.data = Some(JsonValue::Array(vec![JsonValue::Array(vec![num(1), num(2)])]));
    res.schema = Some(schema);
    let err = format_command_result(&response(res)).unwrap_err();
    assert_eq!(err.message(), "Row length 2 doesn't match schema length 1");
}

#[test]
fn decimal_rendering_is_exact() {
    assert_eq!(dec_string(0), "0");
    assert_eq!(dec_string(7), "7");
    assert_eq!(dec_string(10), "10");
    assert_eq!(dec_string(4096), "4096");
    assert_eq!(dec_string(usize::MAX), usize::MAX.to_string());
}

#[test]
fn empty_table_decodes_to_empty_spill() {
    let schema = vec![SchemaField { name: "n".to_string(), tpe: TypeDesc::Primitive }];
    let rows = format_table_result(&schema, &JsonValue::Array(vec![])).unwrap();
    assert_eq!(rows.len(), 0);
    assert_eq!(table_spill_content(&rows), "[]");
}
