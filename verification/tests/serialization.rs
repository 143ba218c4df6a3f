use brichka::AuthConfig;
use brichka::Cluster;
use brichka::ClusterConfig;
use brichka::ContextConfig;
use brichka::JsonValue;
use brichka::cluster_start_request_body;
use brichka::clusters_get_path;
use brichka::commands_status_path;
use brichka::contexts_status_path;
use brichka::create_context_request_body;
use brichka::run_command_request_body;
use brichka::str_eq;
use brichka::to_json_string;

#[test]
fn scalars_serialize_in_conventional_form() {
    assert_eq!(to_json_string(&JsonValue::Null, false), "null");
    assert_eq!(to_json_string(&JsonValue::Bool(true), false), "true");
    assert_eq!(to_json_string(&JsonValue::Bool(false), false), "false");
    assert_eq!(to_json_string(&JsonValue::Num("-2.5".to_string()), false), "-2.5");
    assert_eq!(to_json_string(&JsonValue::Str("hi".to_string()), false), "\"hi\"");
}

#[test]
fn strings_are_escaped() {
    let v = JsonValue::Str("a\"b\\c\nd\u{1}".to_string());
    assert_eq!(to_json_string(&v, false), "\"a\\\"b\\\\c\\u000ad\\u0001\"");
}

#[test]
fn nested_values_serialize_compactly() {
    let v = JsonValue::Object(vec![
        (
            "xs".to_string(),
            JsonValue::Array(vec![JsonValue::Num("1".to_string()), JsonValue::Null]),
        ),
        ("ok".to_string(), JsonValue::Bool(true)),
    ]);
    assert_eq!(to_json_string(&v, false), "{\"xs\":[1,null],\"ok\":true}");
    assert_eq!(to_json_string(&v, true), "{\"xs\": [1,null],\"ok\": true}");
}

#[test]
fn serialized_output_parses_back_with_a_reference_parser() {
    let v = JsonValue::Object(vec![
        ("s".to_string(), JsonValue::Str("li\ne \"q\"".to_string())),
        ("n".to_string(), JsonValue::Num("42".to_string())),
    ]);
    let text = to_json_string(&v, false);
    let parsed: serde_json::Value = serde_json::from_str(&text).unwrap();
    assert_eq!(parsed["s"], serde_json::Value::String("li\ne \"q\"".to_string()));
    assert_eq!(parsed["n"], serde_json::Value::from(42u64));
}

#[test]
fn cluster_config_round_trip_shape() {
    let cluster = Cluster {
        id: "clu1".to_string(),
        name: "main".to_string(),
        state: "RUNNING".to_string(),
    };
    let config = ClusterConfig::new(&cluster);
    assert_eq!(config.id, "clu1");
    assert_eq!(config.name, "main");
    assert_eq!(config.to_json(), "{\"id\":\"clu1\",\"name\":\"main\"}");
    let parsed: serde_json::Value = serde_json::from_str(&config.to_json()).unwrap();
    assert_eq!(parsed["id"], serde_json::Value::String("clu1".to_string()));
}

#[test]
fn context_config_serializes_its_id() {
    let config = ContextConfig::new("ctx9".to_string());
    assert_eq!(config.id, "ctx9");
    assert_eq!(config.to_json(), "{\"id\":\"ctx9\"}");
}

#[test]
fn selection_paths_are_keyed_by_directory() {
    assert_eq!(ClusterConfig::local_path("/work"), "/work/.brichka/cluster.json");
    assert_eq!(
        ClusterConfig::global_path("/home/me"),
        "/home/me/.config/brichka/cluster.json"
    );
    assert_eq!(ContextConfig::local_path("/work"), "/work/.brichka/context.json");
    assert_eq!(AuthConfig::global_path("/home/me"), "/home/me/.config/brichka/auth.json");
}

#[test]
fn run_command_body_matches_reference_parser() {
    let body = run_command_request_body("select \"x\"\n", "clu1", "ctx1", "sql");
    let parsed: serde_json::Value = serde_json::from_str(&body).unwrap();
    assert_eq!(parsed["clusterId"], serde_json::Value::String("clu1".to_string()));
    assert_eq!(parsed["contextId"], serde_json::Value::String("ctx1".to_string()));
    assert_eq!(parsed["language"], serde_json::Value::String("sql".to_string()));
    assert_eq!(
        parsed["command"],
        serde_json::Value::String("select \"x\"\n".to_string())
    );
}

#[test]
fn hand_formatted_request_bodies_keep_their_shape() {
    assert_eq!(
        create_context_request_body("clu1", "sql"),
        "{\"clusterId\": \"clu1\", \"language\": \"sql\"}"
    );
    assert_eq!(cluster_start_request_body("clu1"), "{\"clusterId\": \"clu1\"}");
}

#[test]
fn query_paths_embed_their_ids() {
    assert_eq!(clusters_get_path("c1"), "/api/2.1/clusters/get?cluster_id=c1");
    assert_eq!(
        contexts_status_path("c1", "x2"),
        "/api/1.2/contexts/status?clusterId=c1&contextId=x2"
    );
    assert_eq!(
        commands_status_path("c1", "x2", "k3"),
        "/api/1.2/commands/status?clusterId=c1&contextId=x2&commandId=k3"
    );
}

#[test]
fn str_eq_compares_by_characters() {
    assert!(str_eq("abc", "abc"));
    assert!(!str_eq("abc", "abd"));
    assert!(!str_eq("abc", "ab"));
    assert!(str_eq("", ""));
}
