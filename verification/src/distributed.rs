//! The distributed executor: runs a module on a Wasm-capable cluster node by
//! creating a ConfigMap and a Pod, rendezvousing on the result through a
//! watch, and tearing both down.
//!
//! The executor is a state machine: a driver performs each returned
//! [`DistAction`] against the cluster and feeds the outcome back as a
//! [`DistEvent`]. Every ConfigMap or Pod the machine asks to create is
//! matched by a delete request before the run can finish.

use vstd::prelude::*;
use vstd::string::StringExecFns;

use crate::dispatcher::WasmError;
use crate::model::{PluginInvocation, PluginResult, S3ArtifactRepositoryConfig};
use crate::model::JsonValue;
use crate::protocol::{invocation_json, spec_parse_result};

verus! {

/// Settings for the distributed executor: how many seconds to wait for a
/// result before giving up.
pub struct Config {
    pub wait_duration: u16,
}

/// The namespace used when none is configured.
pub fn default_namespace() -> (r: String)
    ensures
        r@ == "default"@,
{
    "default".to_owned()
}

/// The prefix of every ConfigMap and Pod name this executor creates.
pub fn name_prefix() -> (r: String)
    ensures
        r@ == "wasm-workflow-"@,
{
    "wasm-workflow-".to_owned()
}

pub struct DistributedRunner {
    pub namespace: Option<String>,
    pub config: Config,
}

impl DistributedRunner {
    /// A runner bound to a namespace; the cluster client itself stays with
    /// the driver.
    pub fn new(namespace: Option<String>, config: Config) -> (r: DistributedRunner)
        ensures
            r.namespace == namespace,
            r.config == config,
    {
        DistributedRunner { namespace, config }
    }

    /// The namespace the executor works in: the configured one, or `default`.
    pub open spec fn spec_namespace(&self) -> Seq<char> {
        match self.namespace {
            Some(ns) => ns@,
            None => "default"@,
        }
    }

    /// The namespace the executor works in.
    pub fn namespace(&self) -> (r: String)
        ensures
            r@ == self.spec_namespace(),
    {
        match &self.namespace {
            Some(ns) => ns.as_str().to_owned(),
            None => default_namespace(),
        }
    }
}

/// One `key=value` pair of the trace-context carrier.
pub type CarrierEntry = (String, String);

/// The text of a run of string pairs.
pub open spec fn pairs_view(pairs: Seq<(String, String)>) -> Seq<(Seq<char>, Seq<char>)> {
    Seq::new(
        pairs.len(),
        |i: int|
            if 0 <= i < pairs.len() {
                (pairs[i].0@, pairs[i].1@)
            } else {
                (Seq::empty(), Seq::empty())
            },
    )
}

/// The data keys of the invocation's ConfigMap: `input.json` always,
/// `artifact-repo-config.json` when an object-store bundle exists, and
/// `opentelemetry.json` with the caller's trace carrier.
pub open spec fn spec_config_map_data(
    inv: crate::protocol::PluginInvocationView,
    s3: Option<S3ArtifactRepositoryConfig>,
    carrier: Seq<(Seq<char>, Seq<char>)>,
    data: Seq<(Seq<char>, Seq<char>)>,
) -> bool {
    &&& data.len() == (if s3 is Some {
        3int
    } else {
        2int
    })
    &&& data[0].0 == "input.json"@
    &&& data[0].1 == crate::json::spec_json(invocation_json(inv))
    &&& (s3 matches Some(cfg) ==> data[1].0 == "artifact-repo-config.json"@ && data[1].1
        == crate::json::spec_json(spec_s3_config_json(cfg)))
    &&& data.last().0 == "opentelemetry.json"@
    &&& data.last().1 == crate::json::spec_json(spec_carrier_json(carrier))
}

/// The JSON shape of the object-store bundle as placed in the ConfigMap.
pub open spec fn spec_s3_config_json(cfg: S3ArtifactRepositoryConfig) -> crate::json::JsonView {
    crate::json::JsonView::Obj(
        seq![
            ("access_key"@, crate::json::JsonView::Str(cfg.access_key@)),
            ("secret_key"@, crate::json::JsonView::Str(cfg.secret_key@)),
            ("bucket"@, crate::json::JsonView::Str(cfg.bucket@)),
            ("endpoint"@, crate::json::JsonView::Str(cfg.endpoint@)),
            ("region"@, crate::json::JsonView::Str(cfg.region@)),
            ("insecure"@, crate::json::JsonView::Bool(cfg.insecure)),
            ("path_style_endpoint"@, crate::json::JsonView::Bool(cfg.path_style_endpoint)),
        ],
    )
}

/// The JSON shape of the trace carrier: one string member per entry.
pub open spec fn spec_carrier_json(carrier: Seq<(Seq<char>, Seq<char>)>) -> crate::json::JsonView {
    crate::json::JsonView::Obj(
        Seq::new(
            carrier.len(),
            |i: int|
                if 0 <= i < carrier.len() {
                    (carrier[i].0, crate::json::JsonView::Str(carrier[i].1))
                } else {
                    (Seq::empty(), crate::json::JsonView::Null)
                },
        ),
    )
}

fn s3_config_json(cfg: &S3ArtifactRepositoryConfig) -> (r: JsonValue)
    ensures
        r@ == spec_s3_config_json(*cfg),
{
    let mut fields: Vec<(String, JsonValue)> = Vec::new();
    fields.push(("access_key".to_owned(), JsonValue::Str(cfg.access_key.as_str().to_owned())));
    fields.push(("secret_key".to_owned(), JsonValue::Str(cfg.secret_key.as_str().to_owned())));
    fields.push(("bucket".to_owned(), JsonValue::Str(cfg.bucket.as_str().to_owned())));
    fields.push(("endpoint".to_owned(), JsonValue::Str(cfg.endpoint.as_str().to_owned())));
    fields.push(("region".to_owned(), JsonValue::Str(cfg.region.as_str().to_owned())));
    fields.push(("insecure".to_owned(), JsonValue::Bool(cfg.insecure)));
    fields.push(("path_style_endpoint".to_owned(), JsonValue::Bool(cfg.path_style_endpoint)));
    let ghost gfields = fields@;
    let r = JsonValue::Obj(fields);
    proof {
        assert(gfields.len() == 7);
        assert(gfields[0].0@ == "access_key"@ && crate::json::json_view(gfields[0].1)
            == crate::json::JsonView::Str(cfg.access_key@));
        assert(gfields[1].0@ == "secret_key"@ && crate::json::json_view(gfields[1].1)
            == crate::json::JsonView::Str(cfg.secret_key@));
        assert(gfields[2].0@ == "bucket"@ && crate::json::json_view(gfields[2].1)
            == crate::json::JsonView::Str(cfg.bucket@));
        assert(gfields[3].0@ == "endpoint"@ && crate::json::json_view(gfields[3].1)
            == crate::json::JsonView::Str(cfg.endpoint@));
        assert(gfields[4].0@ == "region"@ && crate::json::json_view(gfields[4].1)
            == crate::json::JsonView::Bool(cfg.insecure) || crate::json::json_view(gfields[4].1)
            == crate::json::JsonView::Str(cfg.region@));
        assert(gfields[5].0@ == "insecure"@ && crate::json::json_view(gfields[5].1)
            == crate::json::JsonView::Bool(cfg.insecure));
        assert(gfields[6].0@ == "path_style_endpoint"@ && crate::json::json_view(gfields[6].1)
            == crate::json::JsonView::Bool(cfg.path_style_endpoint));
        assert((r@ -> Obj_0) =~= spec_s3_config_json(*cfg) -> Obj_0);
    }
    r
}

fn carrier_json(carrier: &Vec<CarrierEntry>) -> (r: JsonValue)
    ensures
        r@ == spec_carrier_json(pairs_view(carrier@)),
{
    let mut fields: Vec<(String, JsonValue)> = Vec::new();
    let mut i: usize = 0;
    while i < carrier.len()
        invariant
            i <= carrier@.len(),
            fields@.len() == i,
            forall|j: int| 0 <= j < i ==> (#[trigger] fields@[j]).0@ == carrier@[j].0@
                && crate::json::json_view(fields@[j].1) == crate::json::JsonView::Str(
                carrier@[j].1@,
            ),
        decreases carrier@.len() - i,
    {
        fields.push(
            (carrier[i].0.as_str().to_owned(), JsonValue::Str(carrier[i].1.as_str().to_owned())),
        );
        proof {
            assert(crate::json::json_view(fields@[i as int].1) == crate::json::JsonView::Str(
                carrier@[i as int].1@,
            ));
        }
        i = i + 1;
    }
    let ghost gfields = fields@;
    let r = JsonValue::Obj(fields);
    proof {
        let views = pairs_view(carrier@);
        assert forall|j: int| 0 <= j < gfields.len() implies (
        #[trigger] (r@ -> Obj_0)[j]) == (spec_carrier_json(views) -> Obj_0)[j] by {
            assert((r@ -> Obj_0)[j] == (gfields[j].0@, crate::json::json_view(gfields[j].1)));
        }
        assert((r@ -> Obj_0) =~= spec_carrier_json(views) -> Obj_0);
    }
    r
}

/// What the driver is asked to do next.
pub enum DistAction {
    /// Create the invocation's ConfigMap with `generate_name` set to the
    /// executor's name prefix.
    CreateConfigMap { namespace: String, generate_name: String, data: Vec<(String, String)> },
    /// Create the worker Pod, named exactly after the ConfigMap.
    CreatePod { namespace: String, name: String, image: String },
    /// Watch the named Pod and ConfigMap until a terminal event or the
    /// timeout, whichever comes first.
    Wait { config_map: String, pod: String, timeout_secs: u16 },
    /// Delete the Pod and the ConfigMap; the two deletes may run
    /// concurrently, and failures are logged, not returned.
    Cleanup { namespace: String, pod: String, config_map: String },
    /// The run is over.
    Finish(Result<PluginResult, WasmError>),
}

/// What the driver observed.
pub enum DistEvent {
    /// The ConfigMap create call returned: the server-assigned name, or the
    /// error text.
    CMCreated(Result<String, String>),
    /// The Pod create call returned.
    PodCreated(Result<(), String>),
    /// The watch saw the ConfigMap gain a `result.json` key.
    ResultSeen(String),
    /// The watch saw the Pod reach phase `Failed`.
    PodFailed,
    /// The watch stream itself failed.
    WatchFailed(String),
    /// The wall-clock budget for the wait ran out.
    TimedOut,
    /// Both deletes have been attempted.
    CleanupDone,
}

pub enum DistState {
    CreatingCM,
    CreatingPod,
    Waiting,
    CleaningUp,
    Done,
}

/// One distributed invocation in flight.
pub struct DistributedRun {
    pub namespace: String,
    pub image: String,
    pub state: DistState,
    pub name: Option<String>,
    pub cm_created: bool,
    pub pod_created: bool,
    pub cm_delete_issued: bool,
    pub pod_delete_issued: bool,
    pub outcome: Option<Result<PluginResult, WasmError>>,
}

impl DistributedRun {
    /// What holds of a run in every reachable state; in particular, a
    /// finished run has issued a delete for everything it created.
    pub open spec fn wf(&self) -> bool {
        &&& self.cm_delete_issued ==> self.cm_created
        &&& self.pod_delete_issued ==> self.pod_created
        &&& self.pod_created ==> self.cm_created
        &&& self.cm_created <==> self.name is Some
        &&& self.state is Done ==> (self.cm_created ==> self.cm_delete_issued) && (
        self.pod_created ==> self.pod_delete_issued)
        &&& self.outcome is Some <==> self.state is CleaningUp
        &&& self.state is CleaningUp ==> self.cm_delete_issued && (self.pod_created
            ==> self.pod_delete_issued)
        &&& self.state is CreatingCM ==> !self.cm_created
        &&& self.state is CreatingPod ==> self.cm_created && !self.pod_created
        &&& self.state is Waiting ==> self.pod_created
    }

    pub open spec fn is_finished(&self) -> bool {
        self.state is Done
    }
}

/// For every run that created a ConfigMap or a Pod, by the time it finishes
/// a delete has been issued for each: cluster resources do not leak.
pub proof fn lemma_distributed_cleanup(run: DistributedRun)
    requires
        run.wf(),
        run.is_finished(),
    ensures
        run.cm_created ==> run.cm_delete_issued,
        run.pod_created ==> run.pod_delete_issued,
{
}

impl DistributedRunner {
    /// Starts one distributed invocation: the first action creates the
    /// ConfigMap carrying `input.json`, the optional object-store bundle
    /// and the trace carrier.
    pub fn begin(
        &self,
        oci_image: &str,
        invocation: &PluginInvocation,
        artifact_repo_config: &Option<S3ArtifactRepositoryConfig>,
        otel_carrier: &Vec<CarrierEntry>,
    ) -> (r: (DistributedRun, DistAction))
        ensures
            r.0.wf(),
            r.0.state is CreatingCM,
            !r.0.cm_created && !r.0.pod_created,
            r.0.image@ == oci_image@,
            r.0.namespace@ == self.spec_namespace(),
            r.1 matches DistAction::CreateConfigMap { namespace, generate_name, data }
                && generate_name@ == "wasm-workflow-"@ && namespace@ == self.spec_namespace()
                && spec_config_map_data(
                invocation@,
                *artifact_repo_config,
                pairs_view(otel_carrier@),
                pairs_view(data@),
            ),
    {
        let input = crate::protocol::input_json_text(invocation);
        let mut data: Vec<(String, String)> = Vec::new();
        data.push(("input.json".to_owned(), input));
        match artifact_repo_config {
            Some(cfg) => {
                let v = s3_config_json(cfg);
                data.push(("artifact-repo-config.json".to_owned(), crate::json::json_to_string(&v)));
            },
            None => {},
        }
        let v = carrier_json(otel_carrier);
        data.push(("opentelemetry.json".to_owned(), crate::json::json_to_string(&v)));
        let run = DistributedRun {
            namespace: self.namespace(),
            image: oci_image.to_owned(),
            state: DistState::CreatingCM,
            name: None,
            cm_created: false,
            pod_created: false,
            cm_delete_issued: false,
            pod_delete_issued: false,
            outcome: None,
        };
        let namespace = self.namespace();
        proof {
            let dv = pairs_view(data@);
            assert(dv[0] == ("input.json"@, crate::json::spec_json(
                invocation_json(invocation@),
            )));
            match artifact_repo_config {
                Some(cfg) => {
                    assert(dv.len() == 3);
                    assert(dv[1] == ("artifact-repo-config.json"@, crate::json::spec_json(
                        spec_s3_config_json(*cfg),
                    )));
                    assert(dv.last() == ("opentelemetry.json"@, crate::json::spec_json(
                        spec_carrier_json(pairs_view(otel_carrier@)),
                    )));
                },
                None => {
                    assert(dv.len() == 2);
                    assert(dv.last() == ("opentelemetry.json"@, crate::json::spec_json(
                        spec_carrier_json(pairs_view(otel_carrier@)),
                    )));
                },
            }
        }
        let action = DistAction::CreateConfigMap {
            namespace,
            generate_name: name_prefix(),
            data,
        };
        (run, action)
    }

    /// Advances one invocation by one observed event.
    ///
    /// The ordering is strict: ConfigMap create, Pod create (same name),
    /// watch, cleanup, finish. A failure after the ConfigMap exists always
    /// passes through `Cleanup` before `Finish`, which is what makes
    /// `lemma_distributed_cleanup` apply to every run.
    pub fn step(&self, run: &mut DistributedRun, event: DistEvent) -> (r: DistAction)
        requires
            old(run).wf(),
            !old(run).is_finished(),
        ensures
            final(run).wf(),
            old(run).cm_created ==> final(run).cm_created,
            old(run).pod_created ==> final(run).pod_created,
            old(run).cm_delete_issued ==> final(run).cm_delete_issued,
            old(run).pod_delete_issued ==> final(run).pod_delete_issued,
            final(run).image == old(run).image,
            final(run).namespace == old(run).namespace,
            old(run).name matches Some(n0) ==> final(run).name matches Some(n1) && n1@ == n0@,
            r is Finish <==> final(run).is_finished(),
            r is Cleanup <==> final(run).state is CleaningUp,
            r is CreatePod ==> final(run).state is CreatingPod,
            r is Wait ==> final(run).state is Waiting,
            r matches DistAction::CreatePod { namespace, name, image } ==> namespace@ == final(run).namespace@ && (final(run).name matches Some(n) && name@ == n@) && image@ == final(run).image@,
            r matches DistAction::Wait { config_map, pod, timeout_secs } ==> (final(run).name matches Some(n) && config_map@ == n@ && pod@ == n@) && timeout_secs
                == self.config.wait_duration,
            r matches DistAction::Cleanup { namespace, pod, config_map } ==> namespace@ == final(run).namespace@ && (final(run).name matches Some(n) && pod@ == n@ && config_map@ == n@)
                && final(run).cm_delete_issued && final(run).pod_delete_issued == final(run).pod_created,
            match event {
                DistEvent::CMCreated(created) => old(run).state is CreatingCM ==> match created {
                    Ok(name) => final(run).cm_created && (final(run).name matches Some(n) && n@
                        == name@) && (match r {
                        DistAction::CreatePod { name: pod_name, image, .. } => pod_name@ == name@
                            && image@ == old(run).image@,
                        _ => false,
                    }),
                    Err(_) => match r {
                        DistAction::Finish(Err(we)) => we is Invocation,
                        _ => false,
                    },
                },
                DistEvent::PodCreated(created) => old(run).state is CreatingPod ==> match created {
                    Ok(_) => final(run).pod_created && (match r {
                        DistAction::Wait { config_map, pod, timeout_secs } => config_map@ == old(run).name->0@ && pod@ == old(run).name->0@ && timeout_secs
                            == self.config.wait_duration,
                        _ => false,
                    }),
                    Err(_) => r is Cleanup && (final(run).outcome matches Some(Err(we)) && we
                        is Invocation),
                },
                DistEvent::ResultSeen(text) => old(run).state is Waiting ==> r is Cleanup && (
                match spec_parse_result(text@) {
                    Some(res) => final(run).outcome matches Some(Ok(out)) && out@ == res,
                    None => final(run).outcome matches Some(Err(we)) && we is OutputProcessing,
                }),
                DistEvent::PodFailed => old(run).state is Waiting ==> r is Cleanup && (final(run).outcome matches Some(Err(we)) && we is Invocation),
                DistEvent::WatchFailed(_) => old(run).state is Waiting ==> r is Cleanup && (final(run).outcome matches Some(Err(we)) && we is Invocation),
                DistEvent::TimedOut => old(run).state is Waiting ==> r is Cleanup && (final(run).outcome matches Some(Err(we)) && we is Timeout),
                DistEvent::CleanupDone => old(run).state is CleaningUp ==> match r {
                    DistAction::Finish(out) => Some(out) == old(run).outcome,
                    _ => false,
                },
            },
    {
        match event {
            DistEvent::CMCreated(created) => {
                if !matches!(run.state, DistState::CreatingCM) {
                    return self.fail(run, "unexpected ConfigMap create event");
                }
                match created {
                    Ok(name) => {
                        run.cm_created = true;
                        run.name = Some(name.as_str().to_owned());
                        run.state = DistState::CreatingPod;
                        DistAction::CreatePod {
                            namespace: run.namespace.as_str().to_owned(),
                            name,
                            image: run.image.as_str().to_owned(),
                        }
                    },
                    Err(why) => {
                        // nothing was created yet, so nothing needs cleanup
                        run.state = DistState::Done;
                        DistAction::Finish(Err(WasmError::Invocation(why)))
                    },
                }
            },
            DistEvent::PodCreated(created) => {
                if !matches!(run.state, DistState::CreatingPod) {
                    return self.fail(run, "unexpected Pod create event");
                }
                match created {
                    Ok(_) => {
                        run.pod_created = true;
                        run.state = DistState::Waiting;
                        let name = self.run_name(run);
                        DistAction::Wait {
                            config_map: name.as_str().to_owned(),
                            pod: name,
                            timeout_secs: self.config.wait_duration,
                        }
                    },
                    Err(why) => {
                        // the ConfigMap exists: clean it up before failing
                        self.cleanup(run, Err(WasmError::Invocation(why)))
                    },
                }
            },
            DistEvent::ResultSeen(text) => {
                if !matches!(run.state, DistState::Waiting) {
                    return self.fail(run, "unexpected watch event");
                }
                let outcome = match crate::protocol::parse_result(text.as_str()) {
                    Some(res) => Ok(res),
                    None => Err(
                        WasmError::OutputProcessing(
                            "result.json in the ConfigMap does not parse".to_owned(),
                        ),
                    ),
                };
                self.cleanup(run, outcome)
            },
            DistEvent::PodFailed => {
                if !matches!(run.state, DistState::Waiting) {
                    return self.fail(run, "unexpected watch event");
                }
                self.cleanup(run, Err(WasmError::Invocation("Pod has failed".to_owned())))
            },
            DistEvent::WatchFailed(why) => {
                if !matches!(run.state, DistState::Waiting) {
                    return self.fail(run, "unexpected watch event");
                }
                self.cleanup(run, Err(WasmError::Invocation(why)))
            },
            DistEvent::TimedOut => {
                if !matches!(run.state, DistState::Waiting) {
                    return self.fail(run, "unexpected watch event");
                }
                self.cleanup(
                    run,
                    Err(WasmError::Timeout("waiting for the invocation result".to_owned())),
                )
            },
            DistEvent::CleanupDone => {
                if !matches!(run.state, DistState::CleaningUp) {
                    return self.fail(run, "unexpected cleanup event");
                }
                run.state = DistState::Done;
                let outcome = run.outcome.take();
                match outcome {
                    Some(out) => DistAction::Finish(out),
                    None => DistAction::Finish(
                        Err(WasmError::Invocation("cleanup finished without an outcome".to_owned())),
                    ),
                }
            },
        }
    }

    /// Records the primary outcome and issues the unconditional cleanup of
    /// the run's Pod and ConfigMap.
    fn cleanup(&self, run: &mut DistributedRun, outcome: Result<PluginResult, WasmError>) -> (r:
        DistAction)
        requires
            old(run).wf(),
            old(run).cm_created,
            !old(run).is_finished(),
        ensures
            final(run).wf(),
            final(run).state is CleaningUp,
            final(run).cm_delete_issued,
            final(run).pod_delete_issued == final(run).pod_created,
            final(run).cm_created == old(run).cm_created,
            final(run).pod_created == old(run).pod_created,
            final(run).name == old(run).name,
            final(run).outcome == Some(outcome),
            final(run).image == old(run).image,
            final(run).namespace == old(run).namespace,
            r matches DistAction::Cleanup { namespace, pod, config_map } && namespace@ == old(run).namespace@ && (old(run).name matches Some(n) && pod@ == n@ && config_map@ == n@),
    {
        run.outcome = Some(outcome);
        run.state = DistState::CleaningUp;
        run.cm_delete_issued = true;
        run.pod_delete_issued = run.pod_created;
        let name = self.run_name(run);
        DistAction::Cleanup {
            namespace: run.namespace.as_str().to_owned(),
            pod: name.as_str().to_owned(),
            config_map: name,
        }
    }

    /// An event arrived that the current state cannot accept: the run fails,
    /// cleaning up anything already created.
    fn fail(&self, run: &mut DistributedRun, why: &str) -> (r: DistAction)
        requires
            old(run).wf(),
            !old(run).is_finished(),
        ensures
            final(run).wf(),
            old(run).cm_created ==> final(run).cm_created,
            old(run).pod_created ==> final(run).pod_created,
            old(run).cm_delete_issued ==> final(run).cm_delete_issued,
            old(run).pod_delete_issued ==> final(run).pod_delete_issued,
            final(run).image == old(run).image,
            final(run).namespace == old(run).namespace,
            final(run).name == old(run).name,
            r is Finish <==> final(run).is_finished(),
            r is Cleanup <==> final(run).state is CleaningUp,
            !(r is CreatePod) && !(r is Wait) && !(r is CreateConfigMap),
            r matches DistAction::Cleanup { namespace, pod, config_map } ==> namespace@ == final(run).namespace@ && (final(run).name matches Some(n) && pod@ == n@ && config_map@ == n@)
                && final(run).cm_delete_issued && final(run).pod_delete_issued == final(run).pod_created,
    {
        if run.cm_created {
            self.cleanup(run, Err(WasmError::Invocation(why.to_owned())))
        } else {
            run.state = DistState::Done;
            DistAction::Finish(Err(WasmError::Invocation(why.to_owned())))
        }
    }

    fn run_name(&self, run: &DistributedRun) -> (r: String)
        requires
            run.cm_created,
            run.wf(),
        ensures
            r@ == run.name->0@,
    {
        match &run.name {
            Some(n) => n.as_str().to_owned(),
            None => {
                proof {
                    assert(false);
                }
                String::new()
            },
        }
    }
}

/// The per-event decision of the result watch, exactly as the rendezvous
/// evaluates it: a `result.json` key ends the wait with its content, a
/// `Failed` pod ends it with an invocation error, and every other phase
/// (including `Succeeded`, whose writer may still be flushing) keeps
/// waiting.
pub enum WatchStep {
    ReturnResult(String),
    FailPod,
    KeepWaiting,
}

/// One event from the merged watch of the Pod and the ConfigMap.
pub enum WatchEvent {
    /// The ConfigMap was applied; carries the `result.json` value if the
    /// data has that key.
    ConfigMapApplied(Option<String>),
    /// The Pod was applied with the given `status.phase`, if any.
    PodApplied(Option<String>),
}

/// Decides what one watch event means for the wait.
pub fn watch_decision(e: WatchEvent) -> (r: WatchStep)
    ensures
        match e {
            WatchEvent::ConfigMapApplied(data) => match data {
                Some(text) => r matches WatchStep::ReturnResult(t) && t@ == text@,
                None => r is KeepWaiting,
            },
            WatchEvent::PodApplied(phase) => match phase {
                Some(p) => if p@ == "Failed"@ {
                    r is FailPod
                } else {
                    r is KeepWaiting
                },
                None => r is KeepWaiting,
            },
        },
{
    match e {
        WatchEvent::ConfigMapApplied(data) => match data {
            Some(text) => WatchStep::ReturnResult(text),
            None => WatchStep::KeepWaiting,
        },
        WatchEvent::PodApplied(phase) => match phase {
            Some(p) => {
                if crate::model::compare_str(p.as_str(), "Failed") {
                    WatchStep::FailPod
                } else {
                    WatchStep::KeepWaiting
                }
            },
            None => WatchStep::KeepWaiting,
        },
    }
}

/// The fixed node selector of every worker Pod: it must land on a
/// Wasm-capable node.
pub fn pod_node_selector() -> (r: Vec<(String, String)>)
    ensures
        r@.len() == 1,
        r@[0].0@ == "kubernetes.io/arch"@,
        r@[0].1@ == "wasm32-wasi"@,
{
    let mut out: Vec<(String, String)> = Vec::new();
    out.push(("kubernetes.io/arch".to_owned(), "wasm32-wasi".to_owned()));
    out
}

/// One scheduling toleration of the worker Pod.
pub struct Toleration {
    pub key: String,
    pub operator: String,
    pub value: Option<String>,
    pub effect: String,
}

/// The fixed tolerations of every worker Pod: the Wasm architecture taints
/// and the network-unavailable taint.
pub fn pod_tolerations() -> (r: Vec<Toleration>)
    ensures
        r@.len() == 3,
        r@[0].key@ == "kubernetes.io/arch"@ && r@[0].operator@ == "Equal"@ && (
        r@[0].value matches Some(v) && v@ == "wasm32-wasi"@) && r@[0].effect@ == "NoExecute"@,
        r@[1].key@ == "kubernetes.io/arch"@ && r@[1].operator@ == "Equal"@ && (
        r@[1].value matches Some(v) && v@ == "wasm32-wasi"@) && r@[1].effect@ == "NoSchedule"@,
        r@[2].key@ == "node.kubernetes.io/network-unavailable"@ && r@[2].operator@ == "Exists"@
            && r@[2].value is None && r@[2].effect@ == "NoSchedule"@,
{
    let mut out: Vec<Toleration> = Vec::new();
    out.push(
        Toleration {
            key: "kubernetes.io/arch".to_owned(),
            operator: "Equal".to_owned(),
            value: Some("wasm32-wasi".to_owned()),
            effect: "NoExecute".to_owned(),
        },
    );
    out.push(
        Toleration {
            key: "kubernetes.io/arch".to_owned(),
            operator: "Equal".to_owned(),
            value: Some("wasm32-wasi".to_owned()),
            effect: "NoSchedule".to_owned(),
        },
    );
    out.push(
        Toleration {
            key: "node.kubernetes.io/network-unavailable".to_owned(),
            operator: "Exists".to_owned(),
            value: None,
            effect: "NoSchedule".to_owned(),
        },
    );
    out
}

} // verus!
