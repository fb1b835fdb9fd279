//! The local executor: obtains the precompiled module through the cache,
//! and runs it in an in-process sandbox over a scoped working directory.
//!
//! Like the distributed executor, it is a state machine: a driver performs
//! each [`LocalAction`] (the OCI pull, the engine calls, the file and
//! object-store I/O) and feeds the outcome back as a [`LocalEvent`]. Every
//! working directory the machine asks for is released before the run can
//! finish.

use vstd::prelude::*;
use vstd::string::StringExecFns;

use crate::cache::ModuleCache;
use crate::dispatcher::WasmError;
use crate::model::{Outputs, Phase, PluginInvocation, PluginResult};

verus! {

/// What the driver is asked to do next.
pub enum LocalAction {
    /// Pull the module's OCI image; registries on the list may be contacted
    /// in plaintext.
    Fetch { image: String, insecure_registries: Vec<String> },
    /// Precompile the fetched module bytes with the engine.
    Precompile { module: Vec<u8> },
    /// Deserialize the precompiled blob, build the sandbox with a fresh
    /// working directory (with its two artifact subdirectories) preopened at
    /// `/work`, and write `input.json` with exactly the given text.
    Instantiate { blob: Vec<u8>, input_json: String },
    /// Download one input artifact from the object store to the given path
    /// relative to the input-artifacts directory.
    DownloadArtifact { key: String, rel_path: String },
    /// Invoke the module's default export once.
    RunModule,
    /// Read the text of `result.json` from the working directory.
    ReadResult,
    /// Upload one output artifact, read from the given path relative to the
    /// output-artifacts directory, under the given object-store key.
    UploadArtifact { rel_path: String, key: String },
    /// Tear the working directory down.
    ReleaseWorkdir,
    /// The run is over.
    Finish(Result<PluginResult, WasmError>),
}

/// What the driver observed.
pub enum LocalEvent {
    Fetched(Result<Vec<u8>, String>),
    Precompiled(Result<Vec<u8>, String>),
    Instantiated(Result<(), String>),
    Downloaded(Result<(), String>),
    /// The module call returned; an error is the trap text.
    ModuleRan(Result<(), String>),
    ResultText(Result<String, String>),
    Uploaded(Result<(), String>),
    WorkdirReleased,
}

pub enum LocalState {
    Fetching,
    Precompiling,
    Instantiating,
    Downloading,
    Running,
    ReadingResult,
    Uploading,
    Releasing,
    Done,
}

/// One local invocation in flight.
pub struct LocalRun {
    pub image: String,
    pub invocation: PluginInvocation,
    pub s3_configured: bool,
    pub state: LocalState,
    pub next_download: usize,
    pub next_upload: usize,
    pub partial: Option<PluginResult>,
    pub uploaded: Vec<crate::model::ArtifactRef>,
    pub workdir_acquired: bool,
    pub workdir_released: bool,
    pub outcome: Option<Result<PluginResult, WasmError>>,
}

impl LocalRun {
    /// What holds of a run in every reachable state; in particular, a
    /// finished run has released the working directory it acquired.
    pub open spec fn wf(&self) -> bool {
        &&& self.workdir_released ==> self.workdir_acquired
        &&& self.state is Done ==> (self.workdir_acquired ==> self.workdir_released)
        &&& self.outcome is Some <==> self.state is Releasing
        &&& (self.state is Instantiating || self.state is Downloading || self.state is Running
            || self.state is ReadingResult || self.state is Uploading || self.state is Releasing)
            ==> self.workdir_acquired
        &&& (self.state is Fetching || self.state is Precompiling) ==> !self.workdir_acquired
        &&& self.next_download <= self.invocation.artifacts@.len()
        &&& self.state is Downloading ==> self.next_download
            < self.invocation.artifacts@.len() && self.s3_configured
        &&& self.state is Uploading ==> self.s3_configured
        &&& self.state is Uploading ==> (self.partial matches Some(res) && {
            &&& self.next_upload < res.outputs.artifacts@.len()
            &&& self.uploaded@.len() == self.next_upload + 1
            &&& forall|i: int| 0 <= i < self.uploaded@.len() ==> upload_rewrite(
                (#[trigger] self.uploaded@[i])@,
                res.outputs.artifacts@[i]@,
                self.invocation.workflow_name@,
            )
        })
    }

    pub open spec fn is_finished(&self) -> bool {
        self.state is Done
    }
}

/// How an uploaded artifact relates to the one the module wrote: the same
/// name and path, with a fresh ten-digit object-store key for the workflow.
pub open spec fn upload_rewrite(
    u: crate::protocol::ArtifactRefView,
    a: crate::protocol::ArtifactRefView,
    workflow: Seq<char>,
) -> bool {
    &&& u.name == a.name
    &&& u.path == a.path
    &&& (u.s3 matches Some(k) && (exists|n: nat|
        1000000000 <= n < 10000000000 && k == crate::artifacts::spec_upload_key(
            workflow,
            n,
            a.name,
        )))
}

/// For every local run, the working directory it acquired has been released
/// by the time the run finishes: no scratch space leaks.
pub proof fn lemma_local_workdir_released(run: LocalRun)
    requires
        run.wf(),
        run.is_finished(),
    ensures
        run.workdir_acquired ==> run.workdir_released,
{
}

/// Runs a module in process, getting the precompiled blob through the
/// module cache.
pub struct LocalRunner<C: ModuleCache> {
    pub cache: C,
    pub insecure_oci_registries: Vec<String>,
}

impl<C: ModuleCache> LocalRunner<C> {
    pub fn new(cache: C, insecure_oci_registries: Vec<String>) -> (r: LocalRunner<C>)
        requires
            cache.wf(),
        ensures
            r.cache == cache,
            r.insecure_oci_registries == insecure_oci_registries,
    {
        LocalRunner { cache, insecure_oci_registries }
    }

    pub open spec fn wf(&self) -> bool {
        self.cache.wf()
    }

    /// Starts one local invocation. A cache hit goes straight to the
    /// sandbox; a miss fetches the image first. The strict order is: cache
    /// lookup, (fetch, precompile, store)?, sandbox setup with `input.json`,
    /// artifact downloads, the module call, the result read, uploads,
    /// teardown.
    pub fn begin(&self, oci_image: &str, invocation: PluginInvocation, s3_configured: bool) -> (r:
        (LocalRun, LocalAction))
        requires
            self.wf(),
        ensures
            r.0.wf(),
            !r.0.is_finished(),
            r.0.image@ == oci_image@,
            r.0.invocation == invocation,
            r.0.s3_configured == s3_configured,
            self.cache.contents().contains_key(crate::cache::spec_canonical_name(oci_image@))
                ==> (r.0.state is Instantiating && (
            r.1 matches LocalAction::Instantiate { blob, input_json } && blob@
                == self.cache.contents()[crate::cache::spec_canonical_name(oci_image@)]
                && input_json@ == crate::json::spec_json(
                crate::protocol::invocation_json(invocation@),
            ))),
            !self.cache.contents().contains_key(crate::cache::spec_canonical_name(oci_image@))
                ==> (r.0.state is Fetching && (
            r.1 matches LocalAction::Fetch { image, insecure_registries } && image@ == oci_image@
                && insecure_registries@.len() == self.insecure_oci_registries@.len() && (forall|
                j: int,
            |
                0 <= j < insecure_registries@.len() ==> (#[trigger] insecure_registries@[j])@
                    == self.insecure_oci_registries@[j]@))),
    {
        let mut run = LocalRun {
            image: oci_image.to_owned(),
            invocation,
            s3_configured,
            state: LocalState::Fetching,
            next_download: 0,
            next_upload: 0,
            partial: None,
            uploaded: Vec::new(),
            workdir_acquired: false,
            workdir_released: false,
            outcome: None,
        };
        match self.cache.get(oci_image) {
            Ok(Some(blob)) => {
                run.state = LocalState::Instantiating;
                run.workdir_acquired = true;
                let input_json = crate::protocol::input_json_text(&run.invocation);
                let action = LocalAction::Instantiate { blob, input_json };
                (run, action)
            },
            Ok(None) => {
                let action = LocalAction::Fetch {
                    image: oci_image.to_owned(),
                    insecure_registries: self.clone_registries(),
                };
                (run, action)
            },
            Err(_) => {
                // a cache lookup never fails
                proof {
                    assert(false);
                }
                let action = LocalAction::Fetch {
                    image: oci_image.to_owned(),
                    insecure_registries: self.clone_registries(),
                };
                (run, action)
            },
        }
    }

    fn clone_registries(&self) -> (r: Vec<String>)
        ensures
            r@.len() == self.insecure_oci_registries@.len(),
            forall|j: int| 0 <= j < r@.len() ==> (#[trigger] r@[j])@
                == self.insecure_oci_registries@[j]@,
    {
        let mut out: Vec<String> = Vec::new();
        let mut i: usize = 0;
        while i < self.insecure_oci_registries.len()
            invariant
                i <= self.insecure_oci_registries@.len(),
                out@.len() == i,
                forall|j: int| 0 <= j < i ==> (#[trigger] out@[j])@
                    == self.insecure_oci_registries@[j]@,
            decreases self.insecure_oci_registries@.len() - i,
        {
            out.push(self.insecure_oci_registries[i].as_str().to_owned());
            i = i + 1;
        }
        out
    }

    /// Advances one invocation by one observed event.
    ///
    /// A trap from the module is not an infrastructure error: it finishes
    /// the dispatch successfully with a `Failed` result carrying the trap
    /// text. After the sandbox exists, every path to `Finish` passes
    /// through `ReleaseWorkdir`.
    pub fn step(&mut self, run: &mut LocalRun, event: LocalEvent) -> (r: LocalAction)
        requires
            old(self).wf(),
            old(run).wf(),
            !old(run).is_finished(),
        ensures
            final(self).wf(),
            final(run).wf(),
            old(run).workdir_acquired ==> final(run).workdir_acquired,
            old(run).workdir_released ==> final(run).workdir_released,
            final(run).image == old(run).image,
            final(run).invocation == old(run).invocation,
            final(run).s3_configured == old(run).s3_configured,
            r is Finish <==> final(run).is_finished(),
            r is Finish && old(run).workdir_acquired ==> final(run).workdir_released,
            !(r is Fetch),
            r is Precompile ==> final(run).state is Precompiling,
            r is Instantiate ==> final(run).state is Instantiating,
            r is RunModule ==> final(run).state is Running,
            r is ReadResult ==> final(run).state is ReadingResult,
            r is UploadArtifact ==> final(run).state is Uploading,
            r is ReleaseWorkdir <==> final(run).state is Releasing,
            r matches LocalAction::DownloadArtifact { key, rel_path } ==> (final(run).state is Downloading && final(run).next_download < final(run).invocation.artifacts@.len() && (final(run).invocation.artifacts@[final(run).next_download as int]@.s3 matches Some(k2) && key@ == k2) && rel_path@
                == crate::model::spec_working_dir_path(
                final(run).invocation.artifacts@[final(run).next_download as int]@.path,
            )),
            r matches LocalAction::UploadArtifact { rel_path, key } ==> (final(run).partial matches Some(p) && final(run).next_upload < p.outputs.artifacts@.len()
                && final(run).uploaded@.len() == final(run).next_upload + 1 && upload_rewrite(
                final(run).uploaded@.last()@,
                p.outputs.artifacts@[final(run).next_upload as int]@,
                final(run).invocation.workflow_name@,
            ) && rel_path@ == crate::model::spec_working_dir_path(
                p.outputs.artifacts@[final(run).next_upload as int]@.path,
            ) && (final(run).uploaded@.last()@.s3 matches Some(k3) && key@ == k3)),
            match event {
                LocalEvent::Fetched(fetched) => old(run).state is Fetching ==> match fetched {
                    Ok(bytes) => match r {
                        LocalAction::Precompile { module } => module@ == bytes@,
                        _ => false,
                    },
                    Err(_) => match r {
                        LocalAction::Finish(Err(we)) => we is Retrieve,
                        _ => false,
                    },
                },
                LocalEvent::Precompiled(compiled) => old(run).state is Precompiling
                    ==> match compiled {
                    Ok(blob) => match r {
                        LocalAction::Instantiate { blob: b, input_json } => b@ == blob@
                            && input_json@ == crate::json::spec_json(
                            crate::protocol::invocation_json(old(run).invocation@),
                        ) && final(self).cache.contents() == (if old(self).cache.retains() {
                            old(self).cache.contents().insert(
                                crate::cache::spec_canonical_name(old(run).image@),
                                blob@,
                            )
                        } else {
                            old(self).cache.contents()
                        }),
                        LocalAction::Finish(Err(we)) => we is Retrieve,
                        _ => false,
                    },
                    Err(_) => match r {
                        LocalAction::Finish(Err(we)) => we is Precompile,
                        _ => false,
                    },
                },
                LocalEvent::Instantiated(done) => old(run).state is Instantiating ==> match done {
                    Ok(_) => (match r {
                        LocalAction::DownloadArtifact { .. } => true,
                        LocalAction::RunModule => true,
                        LocalAction::ReleaseWorkdir => true,
                        _ => false,
                    }),
                    Err(_) => r is ReleaseWorkdir && (final(run).outcome matches Some(Err(we))
                        && we is EnvironmentSetup),
                },
                LocalEvent::ModuleRan(ran) => old(run).state is Running ==> match ran {
                    Ok(_) => r is ReadResult,
                    Err(trap) => r is ReleaseWorkdir && (final(run).outcome matches Some(Ok(res))
                        && res.phase == Phase::Failed && res.message@ == trap@
                        && res.outputs.parameters@.len() == 0 && res.outputs.artifacts@.len()
                        == 0),
                },
                LocalEvent::ResultText(text) => old(run).state is ReadingResult ==> match text {
                    Ok(s) => match crate::protocol::spec_parse_result(s@) {
                        Some(res) => (match r {
                            LocalAction::UploadArtifact { .. } => (final(run).partial matches Some(
                                p,
                            ) && p@ == res) && final(run).next_upload == 0,
                            LocalAction::ReleaseWorkdir => final(run).outcome matches Some(
                                Ok(out),
                            ) && out@ == res,
                            _ => false,
                        }),
                        None => r is ReleaseWorkdir && (final(run).outcome matches Some(Err(we))
                            && we is OutputProcessing),
                    },
                    Err(_) => r is ReleaseWorkdir && (final(run).outcome matches Some(Err(we))
                        && we is Invocation),
                },
                LocalEvent::Downloaded(done) => old(run).state is Downloading ==> match done {
                    Ok(_) => (match r {
                        LocalAction::DownloadArtifact { .. } => true,
                        LocalAction::RunModule => true,
                        LocalAction::ReleaseWorkdir => true,
                        _ => false,
                    }),
                    Err(_) => r is ReleaseWorkdir && (final(run).outcome matches Some(Err(we))
                        && we is Invocation),
                },
                LocalEvent::Uploaded(done) => old(run).state is Uploading ==> match done {
                    Ok(_) => (match r {
                        LocalAction::UploadArtifact { .. } => final(run).partial == old(run).partial && final(run).next_upload == old(run).next_upload + 1,
                        LocalAction::ReleaseWorkdir => (old(run).partial matches Some(p) && (
                        final(run).outcome matches Some(Ok(out)) && out.phase == p.phase
                            && out.message@ == p.message@ && crate::protocol::params_view(
                            out.outputs.parameters@,
                        ) == crate::protocol::params_view(p.outputs.parameters@)
                            && out.outputs.artifacts@.len() == p.outputs.artifacts@.len() && (
                        forall|i: int|
                            0 <= i < out.outputs.artifacts@.len() ==> upload_rewrite(
                                (#[trigger] out.outputs.artifacts@[i])@,
                                p.outputs.artifacts@[i]@,
                                old(run).invocation.workflow_name@,
                            )))),
                        _ => false,
                    }),
                    Err(_) => r is ReleaseWorkdir && (final(run).outcome matches Some(Err(we))
                        && we is Invocation),
                },
                LocalEvent::WorkdirReleased => old(run).state is Releasing ==> final(run).workdir_released && (match r {
                    LocalAction::Finish(out) => Some(out) == old(run).outcome,
                    _ => false,
                }),
            },
    {
        match event {
            LocalEvent::Fetched(fetched) => {
                if !matches!(run.state, LocalState::Fetching) {
                    return self.fail(run, "unexpected fetch event");
                }
                match fetched {
                    Ok(bytes) => {
                        run.state = LocalState::Precompiling;
                        LocalAction::Precompile { module: bytes }
                    },
                    Err(why) => {
                        run.state = LocalState::Done;
                        let mut msg = "module retrieve failed: ".to_owned();
                        msg.append(why.as_str());
                        LocalAction::Finish(Err(WasmError::Retrieve(msg)))
                    },
                }
            },
            LocalEvent::Precompiled(compiled) => {
                if !matches!(run.state, LocalState::Precompiling) {
                    return self.fail(run, "unexpected precompile event");
                }
                match compiled {
                    Ok(blob) => {
                        match self.cache.put(run.image.as_str(), blob.as_slice()) {
                            Ok(_) => {
                                run.state = LocalState::Instantiating;
                                run.workdir_acquired = true;
                                let input_json = crate::protocol::input_json_text(&run.invocation);
                                LocalAction::Instantiate { blob, input_json }
                            },
                            Err(_) => {
                                run.state = LocalState::Done;
                                LocalAction::Finish(
                                    Err(
                                        WasmError::Retrieve(
                                            "storing the module in the cache failed".to_owned(),
                                        ),
                                    ),
                                )
                            },
                        }
                    },
                    Err(why) => {
                        run.state = LocalState::Done;
                        let mut msg = "module precompilation failed: ".to_owned();
                        msg.append(why.as_str());
                        LocalAction::Finish(Err(WasmError::Precompile(msg)))
                    },
                }
            },
            LocalEvent::Instantiated(done) => {
                if !matches!(run.state, LocalState::Instantiating) {
                    return self.fail(run, "unexpected sandbox event");
                }
                match done {
                    Ok(_) => self.next_download(run),
                    Err(why) => {
                        let mut msg = "sandbox setup failed: ".to_owned();
                        msg.append(why.as_str());
                        self.release(run, Err(WasmError::EnvironmentSetup(msg)))
                    },
                }
            },
            LocalEvent::Downloaded(done) => {
                if !matches!(run.state, LocalState::Downloading) {
                    return self.fail(run, "unexpected download event");
                }
                match done {
                    Ok(_) => {
                        proof {
                            assert(run.next_download < run.invocation.artifacts.len());
                        }
                        run.next_download = run.next_download + 1;
                        self.next_download(run)
                    },
                    Err(why) => {
                        let mut msg = "artifact download failed: ".to_owned();
                        msg.append(why.as_str());
                        self.release(run, Err(WasmError::Invocation(msg)))
                    },
                }
            },
            LocalEvent::ModuleRan(ran) => {
                if !matches!(run.state, LocalState::Running) {
                    return self.fail(run, "unexpected module event");
                }
                match ran {
                    Ok(_) => {
                        run.state = LocalState::ReadingResult;
                        LocalAction::ReadResult
                    },
                    Err(trap) => {
                        // a trap is a failed invocation, not an infrastructure error
                        let res = PluginResult {
                            phase: Phase::Failed,
                            message: trap,
                            outputs: Outputs::empty(),
                        };
                        self.release(run, Ok(res))
                    },
                }
            },
            LocalEvent::ResultText(text) => {
                if !matches!(run.state, LocalState::ReadingResult) {
                    return self.fail(run, "unexpected result event");
                }
                match text {
                    Ok(s) => {
                        match crate::protocol::parse_result(s.as_str()) {
                            Some(res) => {
                                let ghost parsed = res@;
                                run.partial = Some(res);
                                run.next_upload = 0;
                                run.uploaded = Vec::new();
                                run.state = LocalState::Uploading;
                                let ghost uploaded0 = run.uploaded@;
                                let action = self.next_upload(run);
                                proof {
                                    if action is ReleaseWorkdir {
                                        let out = run.outcome->0->Ok_0;
                                        assert(crate::protocol::artifacts_view(uploaded0)
                                            =~= Seq::<crate::protocol::ArtifactRefView>::empty());
                                        if run.s3_configured {
                                            assert(parsed.outputs.artifacts.len() == 0);
                                            assert(crate::protocol::artifacts_view(
                                                out.outputs.artifacts@,
                                            ) =~= parsed.outputs.artifacts);
                                        }
                                        assert(out@ =~= parsed);
                                    }
                                }
                                action
                            },
                            None => self.release(
                                run,
                                Err(
                                    WasmError::OutputProcessing(
                                        "result.json does not parse".to_owned(),
                                    ),
                                ),
                            ),
                        }
                    },
                    Err(why) => {
                        let mut msg = "reading result.json failed: ".to_owned();
                        msg.append(why.as_str());
                        self.release(run, Err(WasmError::Invocation(msg)))
                    },
                }
            },
            LocalEvent::Uploaded(done) => {
                if !matches!(run.state, LocalState::Uploading) {
                    return self.fail(run, "unexpected upload event");
                }
                match done {
                    Ok(_) => {
                        let ghost p = run.partial->0;
                        let ghost uploaded0 = run.uploaded@;
                        let ghost wf_name = run.invocation.workflow_name@;
                        proof {
                            assert(run.next_upload < (run.partial->0).outputs.artifacts.len());
                        }
                        run.next_upload = run.next_upload + 1;
                        let action = self.next_upload(run);
                        proof {
                            if action is ReleaseWorkdir {
                                let out = run.outcome->0->Ok_0;
                                assert(uploaded0.len() == p.outputs.artifacts@.len());
                                assert(out.outputs.artifacts@.len() == uploaded0.len()) by {
                                    assert(crate::protocol::artifacts_view(
                                        out.outputs.artifacts@,
                                    ).len() == crate::protocol::artifacts_view(uploaded0).len());
                                }
                                assert forall|i: int|
                                    0 <= i < out.outputs.artifacts@.len() implies upload_rewrite(
                                    (#[trigger] out.outputs.artifacts@[i])@,
                                    p.outputs.artifacts@[i]@,
                                    wf_name,
                                ) by {
                                    assert(crate::protocol::artifacts_view(
                                        out.outputs.artifacts@,
                                    )[i] == out.outputs.artifacts@[i]@);
                                    assert(crate::protocol::artifacts_view(uploaded0)[i]
                                        == uploaded0[i]@);
                                    assert(upload_rewrite(
                                        uploaded0[i]@,
                                        p.outputs.artifacts@[i]@,
                                        wf_name,
                                    ));
                                }
                            }
                        }
                        action
                    },
                    Err(why) => {
                        let mut msg = "artifact upload failed: ".to_owned();
                        msg.append(why.as_str());
                        self.release(run, Err(WasmError::Invocation(msg)))
                    },
                }
            },
            LocalEvent::WorkdirReleased => {
                if !matches!(run.state, LocalState::Releasing) {
                    return self.fail(run, "unexpected teardown event");
                }
                run.workdir_released = true;
                run.state = LocalState::Done;
                let outcome = run.outcome.take();
                match outcome {
                    Some(out) => LocalAction::Finish(out),
                    None => LocalAction::Finish(
                        Err(WasmError::Invocation("teardown finished without an outcome".to_owned())),
                    ),
                }
            },
        }
    }

    /// Issues the next input-artifact download, or starts the module when
    /// every input is in place. Without an object-store bundle, artifact
    /// entries are silently ignored.
    fn next_download(&self, run: &mut LocalRun) -> (r: LocalAction)
        requires
            old(run).workdir_acquired,
            !old(run).is_finished(),
            old(run).outcome is None,
            old(run).next_download <= old(run).invocation.artifacts@.len(),
        ensures
            final(run).wf(),
            !final(run).is_finished(),
            final(run).workdir_acquired,
            final(run).workdir_released == old(run).workdir_released,
            final(run).image == old(run).image,
            final(run).invocation == old(run).invocation,
            final(run).s3_configured == old(run).s3_configured,
            final(run).next_download == old(run).next_download,
            r is DownloadArtifact || r is RunModule || r is ReleaseWorkdir,
            r is DownloadArtifact <==> final(run).state is Downloading,
            r is RunModule <==> final(run).state is Running,
            r is ReleaseWorkdir <==> final(run).state is Releasing,
            r matches LocalAction::DownloadArtifact { key, rel_path } ==> (old(run).next_download
                < old(run).invocation.artifacts@.len() && (old(run).invocation.artifacts@[old(run).next_download as int]@.s3 matches Some(k) && key@ == k) && rel_path@
                == crate::model::spec_working_dir_path(
                old(run).invocation.artifacts@[old(run).next_download as int]@.path,
            )),
    {
        if !run.s3_configured {
            run.state = LocalState::Running;
            return LocalAction::RunModule;
        }
        if run.next_download >= run.invocation.artifacts.len() {
            run.state = LocalState::Running;
            return LocalAction::RunModule;
        }
        let artifact = &run.invocation.artifacts[run.next_download];
        match crate::artifacts::download_plan(artifact) {
            Ok((key, rel_path)) => {
                run.state = LocalState::Downloading;
                LocalAction::DownloadArtifact { key, rel_path }
            },
            Err(why) => self.release(run, Err(WasmError::Invocation(why))),
        }
    }

    /// Issues the next output-artifact upload under a fresh key, or finishes
    /// with the rewritten result when every output is stored.
    fn next_upload(&self, run: &mut LocalRun) -> (r: LocalAction)
        requires
            old(run).workdir_acquired,
            !old(run).is_finished(),
            old(run).outcome is None,
            old(run).next_download <= old(run).invocation.artifacts@.len(),
            old(run).uploaded@.len() == old(run).next_upload,
            old(run).partial matches Some(res) ==> old(run).next_upload
                <= res.outputs.artifacts@.len() && (forall|i: int|
                0 <= i < old(run).uploaded@.len() ==> upload_rewrite(
                    (#[trigger] old(run).uploaded@[i])@,
                    res.outputs.artifacts@[i]@,
                    old(run).invocation.workflow_name@,
                )),
        ensures
            final(run).wf(),
            !final(run).is_finished(),
            final(run).workdir_acquired,
            final(run).workdir_released == old(run).workdir_released,
            final(run).image == old(run).image,
            final(run).invocation == old(run).invocation,
            final(run).s3_configured == old(run).s3_configured,
            final(run).next_download == old(run).next_download,
            r is UploadArtifact || r is ReleaseWorkdir,
            r is UploadArtifact <==> final(run).state is Uploading,
            r is ReleaseWorkdir <==> final(run).state is Releasing,
            old(run).s3_configured && (old(run).partial matches Some(res) && old(run).next_upload
                < res.outputs.artifacts@.len()) ==> r is UploadArtifact,
            r matches LocalAction::UploadArtifact { rel_path, key } ==> (final(run).partial == old(run).partial && final(run).next_upload == old(run).next_upload && (old(run).partial matches Some(res) && final(run).uploaded@ == old(run).uploaded@.push(
                final(run).uploaded@.last(),
            ) && upload_rewrite(
                final(run).uploaded@.last()@,
                res.outputs.artifacts@[old(run).next_upload as int]@,
                old(run).invocation.workflow_name@,
            ) && rel_path@ == crate::model::spec_working_dir_path(
                res.outputs.artifacts@[old(run).next_upload as int]@.path,
            ) && (final(run).uploaded@.last()@.s3 matches Some(k) && key@ == k))),
            r is ReleaseWorkdir && old(run).partial is Some ==> (final(run).outcome matches Some(
                Ok(out),
            ) && (old(run).partial matches Some(res) && out.phase == res.phase && out.message@
                == res.message@ && crate::protocol::params_view(out.outputs.parameters@)
                == crate::protocol::params_view(res.outputs.parameters@) && (old(run).s3_configured ==> crate::protocol::artifacts_view(out.outputs.artifacts@)
                == crate::protocol::artifacts_view(old(run).uploaded@)) && (!old(run).s3_configured ==> crate::protocol::artifacts_view(out.outputs.artifacts@)
                == crate::protocol::artifacts_view(res.outputs.artifacts@)))),
    {
        let total = match &run.partial {
            Some(res) => res.outputs.artifacts.len(),
            None => 0,
        };
        if !run.s3_configured || run.next_upload >= total {
            // all outputs stored: report the result with rewritten artifacts
            let partial = run.partial.take();
            match partial {
                Some(mut res) => {
                    if run.s3_configured {
                        let mut rewritten: Vec<crate::model::ArtifactRef> = Vec::new();
                        std::mem::swap(&mut rewritten, &mut run.uploaded);
                        res.outputs.artifacts = rewritten;
                    }
                    self.release(run, Ok(res))
                },
                None => self.release(
                    run,
                    Err(WasmError::Invocation("upload finished without a result".to_owned())),
                ),
            }
        } else {
            let ghost uploaded0 = run.uploaded@;
            let (rel_path, key) = match &run.partial {
                Some(res) => {
                    let artifact = &res.outputs.artifacts[run.next_upload];
                    let key = crate::artifacts::upload_key(
                        run.invocation.workflow_name.as_str(),
                        artifact.name.as_str(),
                    );
                    let rewritten = crate::artifacts::artifact_with_key(
                        artifact,
                        key.as_str().to_owned(),
                    );
                    let rel_path = artifact.working_dir_path().to_owned();
                    run.uploaded.push(rewritten);
                    proof {
                        assert(run.uploaded@.last()@.name == res.outputs.artifacts@[run.next_upload as int]@.name);
                        assert(upload_rewrite(
                            run.uploaded@.last()@,
                            res.outputs.artifacts@[run.next_upload as int]@,
                            run.invocation.workflow_name@,
                        ));
                    }
                    (rel_path, key)
                },
                None => {
                    proof {
                        assert(false);
                    }
                    (String::new(), String::new())
                },
            };
            run.state = LocalState::Uploading;
            proof {
                assert forall|i: int| 0 <= i < run.uploaded@.len() implies upload_rewrite(
                    (#[trigger] run.uploaded@[i])@,
                    run.partial->0.outputs.artifacts@[i]@,
                    run.invocation.workflow_name@,
                ) by {
                    if i < uploaded0.len() {
                        assert(run.uploaded@[i] == uploaded0[i]);
                    } else {
                        assert(run.uploaded@[i] == run.uploaded@.last());
                    }
                }
            }
            LocalAction::UploadArtifact { rel_path, key }
        }
    }

    /// Starts the teardown of the working directory, holding on to the
    /// primary outcome until it is done.
    fn release(&self, run: &mut LocalRun, outcome: Result<PluginResult, WasmError>) -> (r:
        LocalAction)
        requires
            old(run).workdir_acquired,
            !old(run).is_finished(),
            old(run).next_download <= old(run).invocation.artifacts@.len(),
        ensures
            final(run).wf(),
            r is ReleaseWorkdir,
            !final(run).is_finished(),
            final(run).state is Releasing,
            final(run).workdir_acquired,
            final(run).workdir_released == old(run).workdir_released,
            final(run).outcome == Some(outcome),
            final(run).image == old(run).image,
            final(run).invocation == old(run).invocation,
            final(run).s3_configured == old(run).s3_configured,
            final(run).next_download == old(run).next_download,
    {
        run.outcome = Some(outcome);
        run.state = LocalState::Releasing;
        LocalAction::ReleaseWorkdir
    }

    /// An event arrived that the current state cannot accept: the run
    /// fails, tearing the working directory down first if one exists.
    fn fail(&self, run: &mut LocalRun, why: &str) -> (r: LocalAction)
        requires
            old(run).wf(),
            !old(run).is_finished(),
        ensures
            final(run).wf(),
            old(run).workdir_acquired ==> final(run).workdir_acquired,
            old(run).workdir_released ==> final(run).workdir_released,
            final(run).image == old(run).image,
            final(run).invocation == old(run).invocation,
            final(run).s3_configured == old(run).s3_configured,
            final(run).next_download == old(run).next_download,
            r is Finish <==> final(run).is_finished(),
            r is Finish && old(run).workdir_acquired ==> final(run).workdir_released,
            r is ReleaseWorkdir <==> final(run).state is Releasing,
            r is Finish || r is ReleaseWorkdir,
    {
        if run.workdir_acquired && !run.workdir_released {
            self.release(run, Err(WasmError::Invocation(why.to_owned())))
        } else {
            run.outcome = None;
            run.state = LocalState::Done;
            LocalAction::Finish(Err(WasmError::Invocation(why.to_owned())))
        }
    }
}

} // verus!
