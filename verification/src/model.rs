//! Data model for plugin invocations and their results.

use vstd::prelude::*;

verus! {

/// A JSON value as carried by invocation parameters. Numbers are modelled as
/// 64-bit signed integers, which covers every value the workflow protocol
/// exchanges.
#[derive(Debug, PartialEq, Eq)]
pub enum JsonValue {
    Null,
    Bool(bool),
    Int(i64),
    Str(String),
    Arr(Vec<JsonValue>),
    Obj(Vec<(String, JsonValue)>),
}

/// A named input or output parameter of an invocation.
#[derive(Debug, PartialEq, Eq)]
pub struct Parameter {
    pub name: String,
    pub value: JsonValue,
}

/// Location of an artifact in the object store.
#[derive(Debug, Clone, PartialEq, Eq)]
pub struct S3Artifact {
    pub key: String,
}

/// A named file exchanged with the module, addressed relative to the
/// working directory.
#[derive(Debug, Clone, PartialEq, Eq)]
pub struct ArtifactRef {
    pub name: String,
    pub path: String,
    pub s3: Option<S3Artifact>,
}

/// `path` with a single leading slash removed, if one is present.
pub open spec fn spec_working_dir_path(path: Seq<char>) -> Seq<char> {
    if path.len() > 0 && path[0] == '/' {
        path.skip(1)
    } else {
        path
    }
}

impl ArtifactRef {
    /// The artifact's location relative to the working directory: a leading
    /// `/` in `path` is stripped when joining.
    pub fn working_dir_path(&self) -> (r: &str)
        ensures
            r@ == spec_working_dir_path(self.path@),
    {
        let len = self.path.unicode_len();
        if len > 0 && self.path.get_char(0) == '/' {
            self.path.as_str().substring_char(1, len)
        } else {
            self.path.as_str()
        }
    }
}

/// Outcome phase of an invocation; no other value is representable.
#[derive(Debug, Clone, Copy, PartialEq, Eq)]
pub enum Phase {
    Succeeded,
    Failed,
}

impl Phase {
    /// Parses the two phase names used in `result.json`.
    pub fn from_str(s: &str) -> (r: Result<Phase, ()>)
        ensures
            s@ == "Succeeded"@ ==> r == Ok::<Phase, ()>(Phase::Succeeded),
            s@ == "Failed"@ ==> r == Ok::<Phase, ()>(Phase::Failed),
            s@ != "Succeeded"@ && s@ != "Failed"@ ==> r == Err::<Phase, ()>(()),
    {
        proof {
            reveal_strlit("Succeeded");
            reveal_strlit("Failed");
            assert("Succeeded"@.len() == 9);
            assert("Failed"@.len() == 6);
            assert("Succeeded"@ != "Failed"@);
        }
        if compare_str(s, "Succeeded") {
            Ok(Phase::Succeeded)
        } else if compare_str(s, "Failed") {
            Ok(Phase::Failed)
        } else {
            Err(())
        }
    }
}

/// Every phase is either `Succeeded` or `Failed`: the result type cannot
/// carry any other outcome.
pub proof fn phase_is_binary(p: Phase)
    ensures
        p == Phase::Succeeded || p == Phase::Failed,
{
}

/// Output parameters and artifacts reported by a module.
#[derive(Debug, PartialEq, Eq)]
pub struct Outputs {
    pub artifacts: Vec<ArtifactRef>,
    pub parameters: Vec<Parameter>,
}

impl Outputs {
    pub fn empty() -> (r: Outputs)
        ensures
            r.artifacts@ =~= Seq::<ArtifactRef>::empty(),
            r.parameters@ =~= Seq::<Parameter>::empty(),
    {
        Outputs { artifacts: Vec::new(), parameters: Vec::new() }
    }
}

/// The structured outcome a module reports for one invocation.
#[derive(Debug, PartialEq, Eq)]
pub struct PluginResult {
    pub phase: Phase,
    pub message: String,
    pub outputs: Outputs,
}

/// One request to execute a module as a workflow step.
#[derive(Debug, PartialEq, Eq)]
pub struct PluginInvocation {
    pub workflow_name: String,
    pub plugin_options: Vec<Parameter>,
    pub parameters: Vec<Parameter>,
    pub artifacts: Vec<ArtifactRef>,
}

/// Credentials and addressing for the S3-compatible object store,
/// resolved once at startup.
#[derive(Debug, Clone, PartialEq, Eq)]
pub struct S3ArtifactRepositoryConfig {
    pub access_key: String,
    pub secret_key: String,
    pub bucket: String,
    pub endpoint: String,
    pub region: String,
    pub insecure: bool,
    pub path_style_endpoint: bool,
}

/// HTTP capability granted to a module: a host whitelist and a concurrency
/// bound. An absent whitelist denies all outbound requests.
#[derive(Debug, Clone, PartialEq, Eq)]
pub struct HTTPPermissions {
    pub allowed_hosts: Vec<String>,
    pub max_concurrent_requests: u32,
}

/// Capability bounds for one module run.
#[derive(Debug, Clone, PartialEq, Eq)]
pub struct ModulePermissions {
    pub http: Option<HTTPPermissions>,
}

/// Default bound on concurrent outbound HTTP requests from a module.
pub fn default_max_concurrent_requests() -> (r: u32)
    ensures
        r == 8,
{
    8
}

/// Where the module binary comes from: an OCI image reference.
#[derive(Debug, Clone, PartialEq, Eq)]
pub enum ModuleSource {
    OCI(String),
}

/// Compares two string slices character by character.
pub fn compare_str(a: &str, b: &str) -> (r: bool)
    ensures
        r <==> a@ == b@,
{
    let a_len = a.unicode_len();
    let b_len = b.unicode_len();
    if a_len != b_len {
        return false;
    }
    let mut i: usize = 0;
    while i < a_len
        invariant
            i <= a_len,
            a_len == a@.len(),
            b_len == b@.len(),
            a_len == b_len,
            forall|j: int| 0 <= j < i ==> a@[j] == b@[j],
        decreases a_len - i,
    {
        if a.get_char(i) != b.get_char(i) {
            return false;
        }
        i = i + 1;
    }
    proof {
        assert(a@ =~= b@);
    }
    true
}

} // verus!
