//! The execution pipeline's decisions: gating on cluster readiness,
//! polling remote states to a terminal verdict, resolving which execution
//! context to use, and shaping a finished command's payload into its
//! final result. The remote calls and the sleeps between polls happen
//! outside the library; each decision here is a function from the
//! observed state to the next action.
use vstd::prelude::*;
use vstd::string::StrSliceExecFns;
use vstd::string::StringExecFns;

use crate::api::GetCommandInfoResponse;
use crate::config::ContextConfig;
use crate::decode::DecodeError;
use crate::decode::decode_table;
use crate::decode::fields_view;
use crate::decode::format_table_result;
use crate::json::JsonModel;
use crate::json::JsonValue;
use crate::json::json_of;
use crate::json::json_of_elems;
use crate::json::json_view;
use crate::json::json_view_seq;
use crate::json::lemma_json_view_seq;
use crate::json::to_json_string;
use crate::json::write_json;
use crate::strutil::str_eq;

verus! {

/// The decimal digit character for `n < 10`.
pub open spec fn dec_digit(n: nat) -> char {
    if n == 0 {
        '0'
    } else if n == 1 {
        '1'
    } else if n == 2 {
        '2'
    } else if n == 3 {
        '3'
    } else if n == 4 {
        '4'
    } else if n == 5 {
        '5'
    } else if n == 6 {
        '6'
    } else if n == 7 {
        '7'
    } else if n == 8 {
        '8'
    } else {
        '9'
    }
}

/// The decimal rendering of `n`, most significant digit first.
pub open spec fn dec_chars(n: nat) -> Seq<char>
    decreases n,
{
    if n < 10 {
        seq![dec_digit(n)]
    } else {
        dec_chars(n / 10) + seq![dec_digit(n % 10)]
    }
}

fn push_digit(d: u64, out: &mut String)
    requires
        d < 10,
    ensures
        final(out)@ == old(out)@ + seq![dec_digit(d as nat)],
{
    if d == 0 {
        out.append("0");
        proof {
            reveal_strlit("0");
        }
    } else if d == 1 {
        out.append("1");
        proof {
            reveal_strlit("1");
        }
    } else if d == 2 {
        out.append("2");
        proof {
            reveal_strlit("2");
        }
    } else if d == 3 {
        out.append("3");
        proof {
            reveal_strlit("3");
        }
    } else if d == 4 {
        out.append("4");
        proof {
            reveal_strlit("4");
        }
    } else if d == 5 {
        out.append("5");
        proof {
            reveal_strlit("5");
        }
    } else if d == 6 {
        out.append("6");
        proof {
            reveal_strlit("6");
        }
    } else if d == 7 {
        out.append("7");
        proof {
            reveal_strlit("7");
        }
    } else if d == 8 {
        out.append("8");
        proof {
            reveal_strlit("8");
        }
    } else {
        out.append("9");
        proof {
            reveal_strlit("9");
        }
    }
}

fn push_dec(n: u64, out: &mut String)
    ensures
        final(out)@ == old(out)@ + dec_chars(n as nat),
    decreases n,
{
    if n >= 10 {
        push_dec(n / 10, out);
    }
    push_digit(n % 10, out);
    proof {
        if n >= 10 {
            assert(old(out)@ + (dec_chars(n as nat / 10) + seq![dec_digit(n as nat % 10)])
                =~= (old(out)@ + dec_chars(n as nat / 10)) + seq![dec_digit(n as nat % 10)]);
        }
    }
}

/// The decimal rendering of `n` as a string.
pub fn dec_string(n: usize) -> (r: String)
    ensures
        r@ == dec_chars(n as nat),
{
    let mut out = String::new();
    push_dec(n as u64, &mut out);
    out
}

/// Why the pipeline stopped before it could report a result.
#[derive(Debug, PartialEq)]
pub enum PipelineError {
    /// The cluster is terminated and autostart was not requested.
    ClusterTerminated,
    /// The cluster is in a state from which a run cannot proceed.
    ClusterBadState { state: String },
    /// The cluster start poll reached the error state.
    ClusterStartFailed,
    /// The context creation poll reached the error state.
    ContextCreateFailed,
    /// The persisted context is no longer usable and reinitialization was
    /// not requested.
    ContextGone,
    /// An error result came without its summary.
    MissingSummary,
    /// A text result came without its data.
    MissingTextData,
    /// A table result came without its data.
    MissingTableData,
    /// A table result came without its schema.
    MissingSchema,
    /// The terminal payload carried a result type this pipeline does not
    /// know.
    UnknownResultType { result_type: String },
    /// The table payload failed to decode.
    Decode { error: DecodeError },
}

/// The message a table decode failure surfaces.
pub open spec fn decode_message(e: DecodeError) -> Seq<char> {
    match e {
        DecodeError::DataNotArray => "Data is not an array"@,
        DecodeError::RowNotArray => "Row is not an array"@,
        DecodeError::RowLengthMismatch { row_len, schema_len } => "Row length "@ + dec_chars(
            row_len as nat,
        ) + " doesn't match schema length "@ + dec_chars(schema_len as nat),
    }
}

/// The message each pipeline failure surfaces.
pub open spec fn pipeline_message(e: PipelineError) -> Seq<char> {
    match e {
        PipelineError::ClusterTerminated => "Cluster is terminated. Use the --start flag if you want to start it"@,
        PipelineError::ClusterBadState { state } => "Can not run command, cluster state is `"@
            + state@ + "`"@,
        PipelineError::ClusterStartFailed => "Failed to start the cluster"@,
        PipelineError::ContextCreateFailed => "Failed creating an execution context"@,
        PipelineError::ContextGone => "Execution context does not exist anymore. Recreate it with `brichka init`"@,
        PipelineError::MissingSummary => "Error result is missing summary"@,
        PipelineError::MissingTextData => "Text result is missing data"@,
        PipelineError::MissingTableData => "Table result is missing data"@,
        PipelineError::MissingSchema => "Missing schema for tabular data"@,
        PipelineError::UnknownResultType { result_type } => "Failed to format command results. Unexpected result type "@
            + result_type@,
        PipelineError::Decode { error } => decode_message(error),
    }
}

impl DecodeError {
    /// The human-readable message for this failure.
    pub fn message(&self) -> (r: String)
        ensures
            r@ == decode_message(*self),
    {
        match self {
            DecodeError::DataNotArray => String::from_str("Data is not an array"),
            DecodeError::RowNotArray => String::from_str("Row is not an array"),
            DecodeError::RowLengthMismatch { row_len, schema_len } => {
                let mut s = String::from_str("Row length ");
                push_dec(*row_len as u64, &mut s);
                s.append(" doesn't match schema length ");
                push_dec(*schema_len as u64, &mut s);
                proof {
                    assert(s@ =~= decode_message(*self));
                }
                s
            },
        }
    }
}

impl PipelineError {
    /// The human-readable message for this failure.
    pub fn message(&self) -> (r: String)
        ensures
            r@ == pipeline_message(*self),
    {
        match self {
            PipelineError::ClusterTerminated => String::from_str(
                "Cluster is terminated. Use the --start flag if you want to start it",
            ),
            PipelineError::ClusterBadState { state } => {
                let mut s = String::from_str("Can not run command, cluster state is `");
                s.append(state.as_str());
                s.append("`");
                proof {
                    assert(s@ =~= pipeline_message(*self));
                }
                s
            },
            PipelineError::ClusterStartFailed => String::from_str("Failed to start the cluster"),
            PipelineError::ContextCreateFailed => String::from_str(
                "Failed creating an execution context",
            ),
            PipelineError::ContextGone => String::from_str(
                "Execution context does not exist anymore. Recreate it with `brichka init`",
            ),
            PipelineError::MissingSummary => String::from_str("Error result is missing summary"),
            PipelineError::MissingTextData => String::from_str("Text result is missing data"),
            PipelineError::MissingTableData => String::from_str("Table result is missing data"),
            PipelineError::MissingSchema => String::from_str("Missing schema for tabular data"),
            PipelineError::UnknownResultType { result_type } => {
                let mut s = String::from_str(
                    "Failed to format command results. Unexpected result type ",
                );
                s.append(result_type.as_str());
                proof {
                    assert(s@ =~= pipeline_message(*self));
                }
                s
            },
            PipelineError::Decode { error } => error.message(),
        }
    }
}

/// What the readiness gate decides for an observed cluster state.
#[derive(Debug, Clone, Copy, PartialEq, Eq, Structural)]
pub enum GateAction {
    /// The cluster can take work now.
    Ready,
    /// The cluster is terminated and autostart was requested: issue the
    /// start call, then poll until the cluster runs.
    StartAndPoll,
}

/// The readiness gate. A running or resizing cluster is ready; a
/// terminated one is started only when the caller opted in; every other
/// state stops the run with the state named in the message.
pub fn check_cluster_state(state: &str, start: bool) -> (r: Result<GateAction, PipelineError>)
    ensures
        (state@ == "RUNNING"@ || state@ == "RESIZING"@) <==> r matches Ok(GateAction::Ready),
        (state@ == "TERMINATED"@ && start) <==> r matches Ok(GateAction::StartAndPoll),
        (state@ == "TERMINATED"@ && !start) <==> r matches Err(PipelineError::ClusterTerminated),
        !(state@ == "RUNNING"@ || state@ == "RESIZING"@ || state@ == "TERMINATED"@) ==> (
        r matches Err(PipelineError::ClusterBadState { state: st }) && st@ == state@),
{
    proof {
        reveal_strlit("RUNNING");
        reveal_strlit("RESIZING");
        reveal_strlit("TERMINATED");
        assert("RUNNING"@.len() == 7);
        assert("RESIZING"@.len() == 8);
        assert("TERMINATED"@.len() == 10);
    }
    if str_eq(state, "RUNNING") || str_eq(state, "RESIZING") {
        Ok(GateAction::Ready)
    } else if str_eq(state, "TERMINATED") {
        if start {
            Ok(GateAction::StartAndPoll)
        } else {
            Err(PipelineError::ClusterTerminated)
        }
    } else {
        Err(PipelineError::ClusterBadState { state: state.to_owned() })
    }
}

/// What one observation tells a poll loop.
#[derive(Debug, Clone, Copy, PartialEq, Eq, Structural)]
pub enum PollVerdict {
    /// The awaited state is reached; stop polling.
    Done,
    /// The error state is reached; stop and fail.
    Failed,
    /// Neither yet; sleep the fixed interval and ask again.
    Wait,
}

/// One step of the cluster start poll: done on `RUNNING`, failed on
/// `ERROR`, otherwise keep waiting.
pub fn cluster_start_poll(state: &str) -> (r: PollVerdict)
    ensures
        r == (if state@ == "RUNNING"@ {
            PollVerdict::Done
        } else if state@ == "ERROR"@ {
            PollVerdict::Failed
        } else {
            PollVerdict::Wait
        }),
{
    proof {
        reveal_strlit("RUNNING");
        reveal_strlit("ERROR");
    }
    if str_eq(state, "RUNNING") {
        PollVerdict::Done
    } else if str_eq(state, "ERROR") {
        PollVerdict::Failed
    } else {
        PollVerdict::Wait
    }
}

/// One step of the context creation poll: done on `Running`, failed on
/// `Error`, otherwise keep waiting.
pub fn context_status_poll(status: &str) -> (r: PollVerdict)
    ensures
        r == (if status@ == "Running"@ {
            PollVerdict::Done
        } else if status@ == "Error"@ {
            PollVerdict::Failed
        } else {
            PollVerdict::Wait
        }),
{
    proof {
        reveal_strlit("Running");
        reveal_strlit("Error");
    }
    if str_eq(status, "Running") {
        PollVerdict::Done
    } else if str_eq(status, "Error") {
        PollVerdict::Failed
    } else {
        PollVerdict::Wait
    }
}

/// Whether a command status is terminal: `Finished`, `Error` or
/// `Cancelled`; the command poll stops exactly there.
pub fn command_status_is_terminal(status: &str) -> (r: bool)
    ensures
        r == (status@ == "Finished"@ || status@ == "Error"@ || status@ == "Cancelled"@),
{
    str_eq(status, "Finished") || str_eq(status, "Error") || str_eq(status, "Cancelled")
}

/// What the context resolver decides.
#[derive(Debug, PartialEq)]
pub enum ContextResolution {
    /// The persisted context is live: use its id, making no create call.
    Reuse { context_id: String },
    /// Create a context, persist its id, and wait for it to run.
    CreateAndPersist,
    /// Create an unpersisted context and wait for it to run.
    CreateEphemeral,
}

/// The context resolver's decision table. `persisted` is the locally
/// persisted context, if any; `live_running` says whether its re-queried
/// live status came back `Running` (false also when the query failed);
/// `reinitialize` is the caller's opt-in to replacing it.
pub fn resolve_context(
    persisted: Option<&ContextConfig>,
    live_running: bool,
    reinitialize: bool,
) -> (r: Result<ContextResolution, PipelineError>)
    ensures
        persisted is None && reinitialize ==> r == Ok::<ContextResolution, PipelineError>(
            ContextResolution::CreateAndPersist,
        ),
        persisted is None && !reinitialize ==> r == Ok::<ContextResolution, PipelineError>(
            ContextResolution::CreateEphemeral,
        ),
        persisted is Some && live_running ==> (r matches Ok(
            ContextResolution::Reuse { context_id },
        ) && context_id == persisted->0.id),
        persisted is Some && !live_running && reinitialize ==> r == Ok::<
            ContextResolution,
            PipelineError,
        >(ContextResolution::CreateAndPersist),
        persisted is Some && !live_running && !reinitialize ==> r == Err::<
            ContextResolution,
            PipelineError,
        >(PipelineError::ContextGone),
{
    match persisted {
        None => {
            if reinitialize {
                Ok(ContextResolution::CreateAndPersist)
            } else {
                Ok(ContextResolution::CreateEphemeral)
            }
        },
        Some(ctx) => {
            if live_running {
                Ok(ContextResolution::Reuse { context_id: ctx.id.clone() })
            } else if reinitialize {
                Ok(ContextResolution::CreateAndPersist)
            } else {
                Err(PipelineError::ContextGone)
            }
        },
    }
}

/// A finished command's result, shaped for the caller: a text value, an
/// error with its summary and optional cause, or a decoded table.
#[derive(Debug, PartialEq)]
pub enum CommandRunResult {
    Text { value: String },
    Error { message: String, cause: Option<String> },
    Table { rows: Vec<JsonValue> },
}

fn clone_opt_string(o: &Option<String>) -> (r: Option<String>)
    ensures
        r == *o,
{
    match o {
        Some(s) => Some(s.clone()),
        None => None,
    }
}

/// Shapes a terminal command response by its result-type tag: `error`
/// needs a summary, `text` needs data (stringified), `table` needs data
/// and schema and decodes the rows; anything else is refused as unknown.
pub fn format_command_result(result: &GetCommandInfoResponse) -> (r: Result<
    CommandRunResult,
    PipelineError,
>)
    requires
        result.results is Some,
    ensures
        ({
            let res = result.results->0;
            &&& (res.result_type@ == "error"@ && res.summary is Some ==> r == Ok::<
                CommandRunResult,
                PipelineError,
            >(CommandRunResult::Error { message: res.summary->0, cause: res.cause }))
            &&& (res.result_type@ == "error"@ && res.summary is None ==> r == Err::<
                CommandRunResult,
                PipelineError,
            >(PipelineError::MissingSummary))
            &&& (res.result_type@ == "text"@ && res.data is Some ==> (r matches Ok(
                CommandRunResult::Text { value },
            ) && value@ == json_of(res.data->0@, false)))
            &&& (res.result_type@ == "text"@ && res.data is None ==> r == Err::<
                CommandRunResult,
                PipelineError,
            >(PipelineError::MissingTextData))
            &&& (res.result_type@ == "table"@ && res.data is None ==> r == Err::<
                CommandRunResult,
                PipelineError,
            >(PipelineError::MissingTableData))
            &&& (res.result_type@ == "table"@ && res.data is Some && res.schema is None ==> r
                == Err::<CommandRunResult, PipelineError>(PipelineError::MissingSchema))
            &&& (res.result_type@ == "table"@ && res.data is Some && res.schema is Some ==> (
            match decode_table(fields_view(res.schema->0@), res.data->0@) {
                Ok(rows) => r matches Ok(CommandRunResult::Table { rows: out })
                    && json_view_seq(out@) == rows,
                Err(e) => r == Err::<CommandRunResult, PipelineError>(
                    PipelineError::Decode { error: e },
                ),
            }))
            &&& (!(res.result_type@ == "error"@ || res.result_type@ == "text"@
                || res.result_type@ == "table"@) ==> r == Err::<CommandRunResult, PipelineError>(
                PipelineError::UnknownResultType { result_type: res.result_type },
            ))
        }),
{
    proof {
        reveal_strlit("error");
        reveal_strlit("text");
        reveal_strlit("table");
        assert("error"@.len() == 5);
        assert("text"@.len() == 4);
        assert("table"@.len() == 5);
        assert("error"@[0] == 'e');
        assert("table"@[0] == 't');
    }
    let results = match &result.results {
        Some(res) => res,
        None => {
            proof {
                assert(false);
            }
            return Err(PipelineError::MissingSummary);
        },
    };
    if str_eq(results.result_type.as_str(), "error") {
        match &results.summary {
            Some(summary) => Ok(
                CommandRunResult::Error {
                    message: summary.clone(),
                    cause: clone_opt_string(&results.cause),
                },
            ),
            None => Err(PipelineError::MissingSummary),
        }
    } else if str_eq(results.result_type.as_str(), "text") {
        match &results.data {
            Some(d) => Ok(CommandRunResult::Text { value: to_json_string(d, false) }),
            None => Err(PipelineError::MissingTextData),
        }
    } else if str_eq(results.result_type.as_str(), "table") {
        match &results.data {
            None => Err(PipelineError::MissingTableData),
            Some(d) => match &results.schema {
                None => Err(PipelineError::MissingSchema),
                Some(schema) => match format_table_result(schema, d) {
                    Ok(rows) => Ok(CommandRunResult::Table { rows }),
                    Err(e) => Err(PipelineError::Decode { error: e }),
                },
            },
        }
    } else {
        Err(PipelineError::UnknownResultType { result_type: results.result_type.clone() })
    }
}

/// The path, relative to the temporary directory, at which a command's
/// decoded table is spilled.
pub fn spill_relative_path(command_id: &str) -> (r: String)
    ensures
        r@ == "brichka/results/"@ + command_id@ + ".jsonl"@,
{
    let mut s = String::from_str("brichka/results/");
    s.append(command_id);
    s.append(".jsonl");
    s
}

/// The bytes spilled for a decoded table: the rows as one compact JSON
/// array.
#[verifier::loop_isolation(false)]
pub fn table_spill_content(rows: &Vec<JsonValue>) -> (r: String)
    ensures
        r@ == json_of(JsonModel::Array(json_view_seq(rows@)), false),
{
    broadcast use lemma_json_view_seq;

    let ghost mes = json_view_seq(rows@);
    let mut out = String::new();
    out.append("[");
    proof {
        reveal_strlit("[");
        assert("["@ =~= seq!['[']);
        assert(mes.take(0) =~= Seq::<JsonModel>::empty());
        assert(out@ =~= seq!['['] + json_of_elems(mes.take(0), false));
    }
    let mut i: usize = 0;
    while i < rows.len()
        invariant
            i <= rows@.len(),
            mes == json_view_seq(rows@),
            out@ == seq!['['] + json_of_elems(mes.take(i as int), false),
        decreases rows@.len() - i,
    {
        if i > 0 {
            out.append(",");
            proof {
                reveal_strlit(",");
            }
        }
        write_json(&rows[i], false, &mut out);
        proof {
            reveal_strlit(",");
            assert(","@ =~= seq![',']);
            assert(json_view_seq(rows@).len() == rows@.len());
            assert(mes.take(i + 1).drop_last() =~= mes.take(i as int));
            assert(mes.take(i + 1).last() == json_view(rows@[i as int]));
            assert(out@ =~= seq!['['] + json_of_elems(mes.take(i + 1), false));
        }
        i += 1;
    }
    out.append("]");
    proof {
        reveal_strlit("]");
        assert("]"@ =~= seq![']']);
        assert(mes.take(rows@.len() as int) =~= mes);
        assert(out@ =~= json_of(JsonModel::Array(mes), false));
    }
    out
}

} // verus!
