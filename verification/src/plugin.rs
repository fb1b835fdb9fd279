//! The in-module side of the protocol: how a module finds its invocation,
//! where it reads and writes artifacts, and how it reports its result.

use vstd::prelude::*;
use vstd::string::StringExecFns;

use crate::model::{ArtifactRef, PluginInvocation, PluginResult};

verus! {

/// Reads the invocation and writes the result from inside the sandbox; the
/// file I/O itself belongs to the module's runtime, this holds the texts.
pub struct PluginManager {}

impl PluginManager {
    pub fn new() -> (r: PluginManager)
        ensures
            r == (PluginManager {  }),
    {
        PluginManager {  }
    }

    /// The invocation denoted by the text of `/work/input.json`.
    pub fn invocation(&self, input_text: &str) -> (r: Option<PluginInvocation>)
        ensures
            match r {
                Some(inv) => crate::protocol::spec_parse_invocation(input_text@) == Some(inv@),
                None => crate::protocol::spec_parse_invocation(input_text@) is None,
            },
    {
        crate::protocol::parse_invocation(input_text)
    }

    /// The exact text the module writes to `/work/result.json`.
    pub fn set_result(&self, result: &PluginResult) -> (r: String)
        ensures
            r@ == crate::json::spec_json(crate::protocol::result_json(result@)),
    {
        crate::protocol::result_json_text(result)
    }
}

/// Path arithmetic for the artifacts a module exchanges through its working
/// directory.
pub struct ArtifactManager {
    pub base_path: String,
}

impl ArtifactManager {
    /// A manager rooted at the sandbox's working directory.
    pub fn new() -> (r: ArtifactManager)
        ensures
            r.base_path@ == "/work"@,
    {
        ArtifactManager { base_path: crate::artifacts::working_dir_plugin_path() }
    }

    pub fn new_with_base_path(base_path: String) -> (r: ArtifactManager)
        ensures
            r.base_path == base_path,
    {
        ArtifactManager { base_path }
    }

    /// Where an input artifact sits: `<base>/artifacts-in/<stripped path>`.
    pub fn input_artifact_path(&self, artifact: &ArtifactRef) -> (r: String)
        ensures
            r@ == self.base_path@ + "/artifacts-in/"@ + crate::model::spec_working_dir_path(
                artifact.path@,
            ),
    {
        let mut path = self.base_path.as_str().to_owned();
        path.append("/artifacts-in/");
        path.append(artifact.working_dir_path());
        path
    }

    /// Where an output artifact sits: `<base>/artifacts-out/<stripped path>`.
    pub fn output_artifact_path(&self, artifact: &ArtifactRef) -> (r: String)
        ensures
            r@ == self.base_path@ + "/artifacts-out/"@ + crate::model::spec_working_dir_path(
                artifact.path@,
            ),
    {
        let mut path = self.base_path.as_str().to_owned();
        path.append("/artifacts-out/");
        path.append(artifact.working_dir_path());
        path
    }
}

} // verus!
