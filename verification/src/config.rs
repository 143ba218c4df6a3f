//! Locally persisted selections: the chosen cluster, the persisted
//! execution context, and the way credentials are obtained. The library
//! builds the paths and the serialized forms; reading and writing the
//! files happens outside it.
use vstd::prelude::*;
use vstd::string::StringExecFns;

use crate::api::Cluster;
use crate::json::JsonModel;
use crate::json::JsonValue;
use crate::json::json_of;
use crate::json::json_view_members;
use crate::json::lemma_json_view_members;
use crate::json::to_json_string;

verus! {

/// Process-wide settings, passed explicitly: the working directory that
/// keys local selections, and whether debug output was asked for.
#[derive(Debug)]
pub struct BrichkaContext {
    pub debug: bool,
    pub cwd: String,
}

/// The locally selected cluster.
#[derive(Debug, PartialEq)]
pub struct ClusterConfig {
    pub id: String,
    pub name: String,
}

impl ClusterConfig {
    /// Where the working-directory-local cluster selection is kept.
    pub fn local_path(cwd: &str) -> (r: String)
        ensures
            r@ == cwd@ + "/.brichka/cluster.json"@,
    {
        let mut s = cwd.to_owned();
        s.append("/.brichka/cluster.json");
        s
    }

    /// Where the global cluster selection is kept, under the home
    /// directory's configuration tree.
    pub fn global_path(home_dir: &str) -> (r: String)
        ensures
            r@ == home_dir@ + "/.config/brichka/cluster.json"@,
    {
        let mut s = home_dir.to_owned();
        s.append("/.config/brichka/cluster.json");
        s
    }

    /// The selection that remembers `cluster`.
    pub fn new(cluster: &Cluster) -> (r: ClusterConfig)
        ensures
            r.id == cluster.id,
            r.name == cluster.name,
    {
        ClusterConfig { id: cluster.id.clone(), name: cluster.name.clone() }
    }

    /// The serialized selection: a JSON object with the id and name.
    pub fn to_json(&self) -> (r: String)
        ensures
            r@ == json_of(
                JsonModel::Object(
                    seq![
                        ("id"@, JsonModel::Str(self.id@)),
                        ("name"@, JsonModel::Str(self.name@)),
                    ],
                ),
                false,
            ),
    {
        broadcast use lemma_json_view_members;

        let members: Vec<(String, JsonValue)> = vec![
            (String::from_str("id"), JsonValue::Str(self.id.clone())),
            (String::from_str("name"), JsonValue::Str(self.name.clone())),
        ];
        let v = JsonValue::Object(members);
        proof {
            assert(json_view_members(v->Object_0@) =~= seq![
                ("id"@, JsonModel::Str(self.id@)),
                ("name"@, JsonModel::Str(self.name@)),
            ]);
        }
        to_json_string(&v, false)
    }
}

/// The locally persisted execution context.
#[derive(Debug, PartialEq)]
pub struct ContextConfig {
    pub id: String,
}

impl ContextConfig {
    /// Where the working-directory-local context selection is kept.
    pub fn local_path(cwd: &str) -> (r: String)
        ensures
            r@ == cwd@ + "/.brichka/context.json"@,
    {
        let mut s = cwd.to_owned();
        s.append("/.brichka/context.json");
        s
    }

    /// The persisted form of the context with this id.
    pub fn new(id: String) -> (r: ContextConfig)
        ensures
            r.id == id,
    {
        ContextConfig { id }
    }

    /// The serialized selection: a JSON object with the id.
    pub fn to_json(&self) -> (r: String)
        ensures
            r@ == json_of(
                JsonModel::Object(seq![("id"@, JsonModel::Str(self.id@))]),
                false,
            ),
    {
        broadcast use lemma_json_view_members;

        let members: Vec<(String, JsonValue)> = vec![
            (String::from_str("id"), JsonValue::Str(self.id.clone())),
        ];
        let v = JsonValue::Object(members);
        proof {
            assert(json_view_members(v->Object_0@) =~= seq![("id"@, JsonModel::Str(self.id@))]);
        }
        to_json_string(&v, false)
    }
}

/// How credentials are obtained: through the external command-line tool,
/// or from a stored token.
#[derive(Debug, PartialEq)]
pub enum AuthConfig {
    DatabricksCli { path: String, profile: String },
    Token { value: String, host: String },
}

impl AuthConfig {
    /// Where the global credential selection is kept.
    pub fn global_path(home_dir: &str) -> (r: String)
        ensures
            r@ == home_dir@ + "/.config/brichka/auth.json"@,
    {
        let mut s = home_dir.to_owned();
        s.append("/.config/brichka/auth.json");
        s
    }
}

} // verus!
