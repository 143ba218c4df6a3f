//! Core logic of a command-line client for a cluster-hosted execution
//! engine: resolving a live execution context, gating on cluster readiness,
//! preprocessing source text, deciding when a polled command is done, and
//! decoding schema-tagged tabular results into structured objects.

mod api;
mod cli;
mod config;
mod decode;
mod json;
mod pipeline;
mod preprocess;
mod request;
mod strutil;

pub use api::Cluster;
pub use api::CommandResults;
pub use api::CreateContextResponse;
pub use api::GetClusterInfoResponse;
pub use api::GetCommandInfoResponse;
pub use api::GetContextStatusResponse;
pub use api::ListClustersResponse;
pub use api::ListTablesResponse;
pub use api::RunCommandResponse;
pub use api::Table;
pub use cli::ClusterCommands;
pub use cli::ConfigCommands;
pub use cli::StatusCommands;
pub use config::AuthConfig;
pub use config::BrichkaContext;
pub use config::ClusterConfig;
pub use config::ContextConfig;
pub use decode::DecodeError;
pub use decode::SchemaField;
pub use decode::TypeDesc;
pub use decode::build_row_object;
pub use decode::convert_field_value;
pub use decode::format_complex_value;
pub use decode::format_table_result;
pub use decode::is_complex_type;
pub use json::JsonValue;
pub use json::to_json_string;
pub use pipeline::CommandRunResult;
pub use pipeline::ContextResolution;
pub use pipeline::GateAction;
pub use pipeline::PipelineError;
pub use pipeline::PollVerdict;
pub use pipeline::check_cluster_state;
pub use pipeline::cluster_start_poll;
pub use pipeline::command_status_is_terminal;
pub use pipeline::context_status_poll;
pub use pipeline::dec_string;
pub use pipeline::format_command_result;
pub use pipeline::resolve_context;
pub use pipeline::spill_relative_path;
pub use pipeline::table_spill_content;
pub use preprocess::filter_excluded_sections;
pub use request::cluster_start_request_body;
pub use request::clusters_get_path;
pub use request::commands_status_path;
pub use request::contexts_status_path;
pub use request::create_context_request_body;
pub use request::run_command_request_body;
pub use strutil::str_eq;
