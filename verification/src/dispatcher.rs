//! The dispatcher: the public entry point that routes an invocation to the
//! local or the distributed executor, shapes the request into an
//! invocation, and normalises outcomes for the HTTP layer.

use vstd::prelude::*;
use vstd::string::StringExecFns;

use crate::model::{
    ModulePermissions, ModuleSource, Parameter, Phase, PluginInvocation, PluginResult,
};
use crate::model::JsonValue;

verus! {

/// The error taxonomy the dispatcher surfaces; it is exhaustive.
///
/// `Invocation` is an infrastructure-level failure of a launched module; a
/// module-reported `Phase::Failed` is a successful dispatch with a negative
/// result and never becomes one of these.
pub enum WasmError {
    EnvironmentSetup(String),
    Retrieve(String),
    Precompile(String),
    Invocation(String),
    OutputProcessing(String),
    Timeout(String),
}

impl WasmError {
    /// The message carried by the error.
    pub fn message(&self) -> (r: &str)
        ensures
            r@ == self.spec_message(),
    {
        match self {
            WasmError::EnvironmentSetup(m) => m.as_str(),
            WasmError::Retrieve(m) => m.as_str(),
            WasmError::Precompile(m) => m.as_str(),
            WasmError::Invocation(m) => m.as_str(),
            WasmError::OutputProcessing(m) => m.as_str(),
            WasmError::Timeout(m) => m.as_str(),
        }
    }

    pub open spec fn spec_message(&self) -> Seq<char> {
        match self {
            WasmError::EnvironmentSetup(m) => m@,
            WasmError::Retrieve(m) => m@,
            WasmError::Precompile(m) => m@,
            WasmError::Invocation(m) => m@,
            WasmError::OutputProcessing(m) => m@,
            WasmError::Timeout(m) => m@,
        }
    }
}

/// The template part of an execute request that concerns this plugin: the
/// module source, its permissions, and whatever extra options stand under
/// the `wasm` key.
pub struct WasmPluginConfig {
    pub module: ModuleSource,
    pub permissions: Option<ModulePermissions>,
    pub extra: Vec<(String, JsonValue)>,
}

/// An execute-template request already decoded from JSON: the workflow
/// name, the declared input parameters, and the plugin configuration if the
/// template is a Wasm plugin at all.
pub struct ExecuteTemplateRequest {
    pub workflow_name: String,
    pub parameters: Option<Vec<Parameter>>,
    pub artifacts: Vec<crate::model::ArtifactRef>,
    pub wasm: Option<WasmPluginConfig>,
}

/// The response body: `node` is absent when the template is not a Wasm
/// plugin template.
pub struct ExecuteTemplateResponse {
    pub node: Option<ExecuteTemplateResult>,
}

/// The node status reported back to the workflow controller.
pub struct ExecuteTemplateResult {
    pub phase: Phase,
    pub message: String,
    pub outputs: Option<crate::model::Outputs>,
}

impl ExecuteTemplateResult {
    /// Shapes a module's result for the controller: outputs are reported
    /// only when there are any, and output artifacts are not echoed back.
    pub fn from_plugin_result(src: PluginResult) -> (r: ExecuteTemplateResult)
        ensures
            r.phase == src.phase,
            r.message@ == src.message@,
            src.outputs.parameters@.len() == 0 && src.outputs.artifacts@.len() == 0 <==> r.outputs
                is None,
            r.outputs matches Some(o) ==> o.parameters@ == src.outputs.parameters@ && o.artifacts@
                =~= Seq::<crate::model::ArtifactRef>::empty(),
    {
        if src.outputs.parameters.len() > 0 || src.outputs.artifacts.len() > 0 {
            ExecuteTemplateResult {
                phase: src.phase,
                message: src.message,
                outputs: Some(
                    crate::model::Outputs { artifacts: Vec::new(), parameters: src.outputs.parameters },
                ),
            }
        } else {
            ExecuteTemplateResult { phase: src.phase, message: src.message, outputs: None }
        }
    }
}

/// Builds the invocation for a request whose template is a Wasm plugin:
/// input parameters carry over, extra keys under `wasm` become plugin
/// options, and the OCI reference names the module.
///
/// A request without a `wasm` plugin entry yields no invocation, and the
/// response to it carries no node.
pub fn plan_invocation(request: ExecuteTemplateRequest) -> (r: Option<
    (String, Option<ModulePermissions>, PluginInvocation),
>)
    ensures
        r is Some <==> request.wasm is Some,
        r matches Some((image, perms, inv)) ==> (request.wasm matches Some(cfg) && (
        cfg.module matches ModuleSource::OCI(oci) && image@ == oci@) && perms == cfg.permissions
            && inv.workflow_name@ == request.workflow_name@ && inv.plugin_options@.len()
            == cfg.extra@.len() && (forall|i: int|
            0 <= i < cfg.extra@.len() ==> (#[trigger] inv.plugin_options@[i]).name@
                == cfg.extra@[i].0@ && inv.plugin_options@[i].value == cfg.extra@[i].1) && (
        match request.parameters {
            Some(ps) => inv.parameters@ == ps@,
            None => inv.parameters@.len() == 0,
        }) && inv.artifacts@ == request.artifacts@),
{
    let ExecuteTemplateRequest { workflow_name, parameters, artifacts, wasm } = request;
    let cfg = match wasm {
        Some(cfg) => cfg,
        None => {
            return None;
        },
    };
    let WasmPluginConfig { module, permissions, extra } = cfg;
    let ghost extra0 = cfg.extra@;
    let mut plugin_options: Vec<Parameter> = Vec::new();
    let mut rest = extra;
    while rest.len() > 0
        invariant
            plugin_options@.len() + rest@.len() == extra0.len(),
            rest@ == extra0.skip(plugin_options@.len() as int),
            forall|i: int|
                0 <= i < plugin_options@.len() ==> (#[trigger] plugin_options@[i]).name@
                    == extra0[i].0@ && plugin_options@[i].value == extra0[i].1,
        decreases rest@.len(),
    {
        proof {
            assert(rest@[0] == extra0[plugin_options@.len() as int]);
            assert(rest@.remove(0) =~= extra0.skip(plugin_options@.len() as int + 1));
        }
        let (name, value) = rest.remove(0);
        plugin_options.push(Parameter { name, value });
    }
    proof {
        assert(extra0.skip(0) =~= extra0);
    }
    let in_params = match parameters {
        Some(ps) => ps,
        None => Vec::new(),
    };
    let image = match module {
        ModuleSource::OCI(oci) => oci,
    };
    let invocation = PluginInvocation {
        workflow_name,
        plugin_options,
        parameters: in_params,
        artifacts,
    };
    Some((image, permissions, invocation))
}

/// The HTTP application error: a module execution that failed at the
/// infrastructure level.
pub enum AppError {
    ModuleExecution(WasmError),
}

impl AppError {
    pub fn from_wasm_error(inner: WasmError) -> (r: AppError)
        ensures
            r matches AppError::ModuleExecution(e) && e == inner,
    {
        AppError::ModuleExecution(inner)
    }

    /// The status code and synthetic failed-node body for an infrastructure
    /// error: always a server-side status, never a module-reported failure.
    pub fn response_parts(&self) -> (r: (u16, ExecuteTemplateResponse))
        ensures
            r.0 == 500,
            r.1.node matches Some(node) && node.phase == Phase::Failed && node.outputs is None,
    {
        let message: &str = match self {
            AppError::ModuleExecution(WasmError::EnvironmentSetup(_)) => {
                "Wasm environment is not set up correctly"
            },
            AppError::ModuleExecution(WasmError::Invocation(_)) => {
                "Wasm module invocation failed"
            },
            AppError::ModuleExecution(WasmError::OutputProcessing(_)) => {
                "Wasm module output processing failed"
            },
            AppError::ModuleExecution(WasmError::Retrieve(_)) => {
                "Wasm module could not be retrieved"
            },
            AppError::ModuleExecution(WasmError::Precompile(_)) => {
                "Wasm module could not be precompiled"
            },
            AppError::ModuleExecution(WasmError::Timeout(_)) => {
                "Wasm module invocation timed out"
            },
        };
        let node = ExecuteTemplateResult {
            phase: Phase::Failed,
            message: message.to_owned(),
            outputs: None,
        };
        (500, ExecuteTemplateResponse { node: Some(node) })
    }
}

/// Every successful dispatch reports one of exactly two phases.
pub proof fn lemma_dispatch_phase_binary(outcome: Result<PluginResult, WasmError>)
    ensures
        outcome matches Ok(res) ==> res.phase == Phase::Succeeded || res.phase == Phase::Failed,
{
    match outcome {
        Ok(res) => {
            crate::model::phase_is_binary(res.phase);
        },
        Err(_) => {},
    }
}

/// The HTTP settings handed to the sandbox for one module run: the host
/// whitelist and the concurrency bound, both absent when the request grants
/// no HTTP permissions at all.
pub struct HttpSettings {
    pub allowed_hosts: Option<Vec<String>>,
    pub max_concurrent_requests: Option<u32>,
}

/// Derives the sandbox HTTP capability from the request's permissions: no
/// permissions means no hosts may be contacted.
pub fn http_settings_from_perms(perms: Option<ModulePermissions>) -> (r: HttpSettings)
    ensures
        match perms {
            Some(p) => match p.http {
                Some(h) => (r.allowed_hosts matches Some(hosts) && hosts@ == h.allowed_hosts@)
                    && r.max_concurrent_requests == Some(h.max_concurrent_requests),
                None => r.allowed_hosts is None && r.max_concurrent_requests is None,
            },
            None => r.allowed_hosts is None && r.max_concurrent_requests is None,
        },
{
    match perms {
        Some(p) => match p.http {
            Some(h) => HttpSettings {
                allowed_hosts: Some(h.allowed_hosts),
                max_concurrent_requests: Some(h.max_concurrent_requests),
            },
            None => HttpSettings { allowed_hosts: None, max_concurrent_requests: None },
        },
        None => HttpSettings { allowed_hosts: None, max_concurrent_requests: None },
    }
}

} // verus!
