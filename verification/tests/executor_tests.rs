use wasm_workflows_plugin::cache::{new_fs_cache, ModuleCache};
use wasm_workflows_plugin::dispatcher::WasmError;
use wasm_workflows_plugin::distributed::{
    Config, DistAction, DistEvent, DistributedRunner, WatchEvent, WatchStep,
};
use wasm_workflows_plugin::local::{LocalAction, LocalEvent, LocalRunner};
use wasm_workflows_plugin::model::{
    ArtifactRef, Outputs, Parameter, Phase, PluginInvocation, PluginResult, S3Artifact,
};
use wasm_workflows_plugin::model::JsonValue;
use wasm_workflows_plugin::protocol::result_json_text;

fn simple_invocation() -> PluginInvocation {
    PluginInvocation {
        workflow_name: "wf".to_string(),
        plugin_options: vec![],
        parameters: vec![Parameter {
            name: "text".to_string(),
            value: JsonValue::Str("hi".to_string()),
        }],
        artifacts: vec![],
    }
}

fn echo_result() -> PluginResult {
    PluginResult {
        phase: Phase::Succeeded,
        message: String::new(),
        outputs: Outputs {
            artifacts: vec![],
            parameters: vec![Parameter {
                name: "text".to_string(),
                value: JsonValue::Str("hi".to_string()),
            }],
        },
    }
}

#[test]
fn local_run_follows_the_strict_order() {
    let cache = new_fs_cache("/var/cache/modules".to_string());
    let mut runner = LocalRunner::new(cache, vec![]);
    let (mut run, action) = runner.begin("ghcr.io/x/echo:v1", simple_invocation(), false);

    // cache miss: the image is fetched first
    let action = match action {
        LocalAction::Fetch { image, .. } => {
            assert_eq!(image, "ghcr.io/x/echo:v1");
            runner.step(&mut run, LocalEvent::Fetched(Ok(vec![0x00, 0x61, 0x73, 0x6d])))
        },
        other => panic!("expected a fetch, got {:?}", action_name(&other)),
    };
    let action = match action {
        LocalAction::Precompile { module } => {
            assert_eq!(module, vec![0x00, 0x61, 0x73, 0x6d]);
            runner.step(&mut run, LocalEvent::Precompiled(Ok(vec![1, 2, 3])))
        },
        other => panic!("expected a precompile, got {:?}", action_name(&other)),
    };
    // the precompiled blob went into the cache under the canonical name
    assert_eq!(
        runner.cache.get("ghcr.io/x/echo:v1").unwrap(),
        Some(vec![1, 2, 3])
    );
    let action = match action {
        LocalAction::Instantiate { blob, input_json } => {
            assert_eq!(blob, vec![1, 2, 3]);
            assert!(input_json.contains("\"workflow_name\":\"wf\""));
            runner.step(&mut run, LocalEvent::Instantiated(Ok(())))
        },
        other => panic!("expected an instantiate, got {:?}", action_name(&other)),
    };
    let action = match action {
        LocalAction::RunModule => runner.step(&mut run, LocalEvent::ModuleRan(Ok(()))),
        other => panic!("expected the module call, got {:?}", action_name(&other)),
    };
    let action = match action {
        LocalAction::ReadResult => runner.step(
            &mut run,
            LocalEvent::ResultText(Ok(result_json_text(&echo_result()))),
        ),
        other => panic!("expected the result read, got {:?}", action_name(&other)),
    };
    let action = match action {
        LocalAction::ReleaseWorkdir => runner.step(&mut run, LocalEvent::WorkdirReleased),
        other => panic!("expected the teardown, got {:?}", action_name(&other)),
    };
    match action {
        LocalAction::Finish(Ok(res)) => {
            assert_eq!(res, echo_result());
            assert!(matches!(res.phase, Phase::Succeeded));
        },
        other => panic!("expected a finished run, got {:?}", action_name(&other)),
    }
}

#[test]
fn local_cache_hit_skips_the_fetch() {
    let mut cache = new_fs_cache("/var/cache/modules".to_string());
    cache.put("ghcr.io/x/echo:v1", &[1, 2, 3]).unwrap();
    let runner = LocalRunner::new(cache, vec![]);
    let (_run, action) = runner.begin("ghcr.io/x/echo:v1", simple_invocation(), false);
    match action {
        LocalAction::Instantiate { blob, .. } => assert_eq!(blob, vec![1, 2, 3]),
        other => panic!("expected an instantiate, got {:?}", action_name(&other)),
    }
}

#[test]
fn local_trap_is_a_failed_result_not_an_error() {
    let cache = new_fs_cache("/var/cache/modules".to_string());
    let mut runner = LocalRunner::new(cache, vec![]);
    let (mut run, _) = runner.begin("worker:v1", simple_invocation(), false);
    runner.step(&mut run, LocalEvent::Fetched(Ok(vec![7])));
    runner.step(&mut run, LocalEvent::Precompiled(Ok(vec![8])));
    runner.step(&mut run, LocalEvent::Instantiated(Ok(())));
    let action = runner.step(&mut run, LocalEvent::ModuleRan(Err("bad input".to_string())));
    assert!(matches!(action, LocalAction::ReleaseWorkdir));
    match runner.step(&mut run, LocalEvent::WorkdirReleased) {
        LocalAction::Finish(Ok(res)) => {
            assert!(matches!(res.phase, Phase::Failed));
            assert_eq!(res.message, "bad input");
            assert!(res.outputs.parameters.is_empty());
        },
        _ => panic!("a trap must finish the dispatch successfully"),
    }
}

#[test]
fn local_artifacts_are_staged_and_uploaded_under_fresh_keys() {
    let mut cache = new_fs_cache("/var/cache/modules".to_string());
    cache.put("image-proc:v1", &[5]).unwrap();
    let mut runner = LocalRunner::new(cache, vec![]);
    let invocation = PluginInvocation {
        workflow_name: "wf".to_string(),
        plugin_options: vec![],
        parameters: vec![],
        artifacts: vec![ArtifactRef {
            name: "input".to_string(),
            path: "/input.jpg".to_string(),
            s3: Some(S3Artifact { key: "IMG.jpg".to_string() }),
        }],
    };
    let (mut run, action) = runner.begin("image-proc:v1", invocation, true);
    assert!(matches!(action, LocalAction::Instantiate { .. }));
    // the input artifact is fetched to its stripped path before the module runs
    let action = runner.step(&mut run, LocalEvent::Instantiated(Ok(())));
    match &action {
        LocalAction::DownloadArtifact { key, rel_path } => {
            assert_eq!(key, "IMG.jpg");
            assert_eq!(rel_path, "input.jpg");
        },
        other => panic!("expected a download, got {:?}", action_name(other)),
    }
    let action = runner.step(&mut run, LocalEvent::Downloaded(Ok(())));
    assert!(matches!(action, LocalAction::RunModule));
    runner.step(&mut run, LocalEvent::ModuleRan(Ok(())));
    let module_result = PluginResult {
        phase: Phase::Succeeded,
        message: String::new(),
        outputs: Outputs {
            artifacts: vec![ArtifactRef {
                name: "output".to_string(),
                path: "/out.jpg".to_string(),
                s3: None,
            }],
            parameters: vec![],
        },
    };
    let action = runner.step(
        &mut run,
        LocalEvent::ResultText(Ok(result_json_text(&module_result))),
    );
    let issued_key = match &action {
        LocalAction::UploadArtifact { rel_path, key } => {
            assert_eq!(rel_path, "out.jpg");
            let parts: Vec<&str> = key.split('/').collect();
            assert_eq!(parts.len(), 3);
            assert_eq!(parts[0], "wf");
            assert_eq!(parts[2], "output");
            assert!(parts[1].starts_with("wf-"));
            assert!(parts[1][3..].chars().all(|c| c.is_ascii_digit()));
            assert_eq!(parts[1][3..].len(), 10);
            key.clone()
        },
        other => panic!("expected an upload, got {:?}", action_name(other)),
    };
    let action = runner.step(&mut run, LocalEvent::Uploaded(Ok(())));
    assert!(matches!(action, LocalAction::ReleaseWorkdir));
    match runner.step(&mut run, LocalEvent::WorkdirReleased) {
        LocalAction::Finish(Ok(res)) => {
            // the returned artifact list is the uploaded one, keys filled in
            assert_eq!(res.outputs.artifacts.len(), 1);
            let out = &res.outputs.artifacts[0];
            assert_eq!(out.name, "output");
            assert_eq!(out.path, "/out.jpg");
            assert_eq!(out.s3.as_ref().unwrap().key, issued_key);
        },
        _ => panic!("uploads must finish the dispatch with the rewritten result"),
    }
}

fn action_name(a: &LocalAction) -> &'static str {
    match a {
        LocalAction::Fetch { .. } => "Fetch",
        LocalAction::Precompile { .. } => "Precompile",
        LocalAction::Instantiate { .. } => "Instantiate",
        LocalAction::DownloadArtifact { .. } => "DownloadArtifact",
        LocalAction::RunModule => "RunModule",
        LocalAction::ReadResult => "ReadResult",
        LocalAction::UploadArtifact { .. } => "UploadArtifact",
        LocalAction::ReleaseWorkdir => "ReleaseWorkdir",
        LocalAction::Finish(_) => "Finish",
    }
}

#[test]
fn distributed_happy_path_creates_and_cleans_up() {
    let runner = DistributedRunner::new(Some("plugins".to_string()), Config { wait_duration: 300 });
    let (mut run, action) = runner.begin("worker:v1", &simple_invocation(), &None, &vec![]);

    let name = match action {
        DistAction::CreateConfigMap { namespace, generate_name, data } => {
            assert_eq!(namespace, "plugins");
            assert_eq!(generate_name, "wasm-workflow-");
            assert_eq!(data.len(), 2);
            assert_eq!(data[0].0, "input.json");
            assert_eq!(data[1].0, "opentelemetry.json");
            "wasm-workflow-abc12".to_string()
        },
        _ => panic!("the first action must create the ConfigMap"),
    };
    let action = runner.step(&mut run, DistEvent::CMCreated(Ok(name.clone())));
    match &action {
        DistAction::CreatePod { name: pod_name, image, .. } => {
            // the Pod is named exactly after the ConfigMap
            assert_eq!(pod_name, &name);
            assert_eq!(image, "worker:v1");
        },
        _ => panic!("the ConfigMap must be followed by the Pod"),
    }
    let action = runner.step(&mut run, DistEvent::PodCreated(Ok(())));
    match &action {
        DistAction::Wait { config_map, pod, timeout_secs } => {
            assert_eq!(config_map, &name);
            assert_eq!(pod, &name);
            assert_eq!(*timeout_secs, 300);
        },
        _ => panic!("both resources exist, the watch must start"),
    }
    let text = result_json_text(&echo_result());
    let action = runner.step(&mut run, DistEvent::ResultSeen(text));
    match &action {
        DistAction::Cleanup { pod, config_map, .. } => {
            assert_eq!(pod, &name);
            assert_eq!(config_map, &name);
        },
        _ => panic!("a result must be followed by cleanup"),
    }
    match runner.step(&mut run, DistEvent::CleanupDone) {
        DistAction::Finish(Ok(res)) => assert_eq!(res, echo_result()),
        _ => panic!("cleanup must finish the run with the parsed result"),
    }
}

#[test]
fn distributed_timeout_still_cleans_up() {
    let runner = DistributedRunner::new(None, Config { wait_duration: 2 });
    let (mut run, _) = runner.begin("worker:v1", &simple_invocation(), &None, &vec![]);
    runner.step(&mut run, DistEvent::CMCreated(Ok("wasm-workflow-x".to_string())));
    runner.step(&mut run, DistEvent::PodCreated(Ok(())));
    let action = runner.step(&mut run, DistEvent::TimedOut);
    assert!(matches!(action, DistAction::Cleanup { .. }));
    match runner.step(&mut run, DistEvent::CleanupDone) {
        DistAction::Finish(Err(WasmError::Timeout(_))) => {},
        _ => panic!("a timeout must surface as the timeout error kind"),
    }
}

#[test]
fn distributed_pod_create_error_deletes_the_config_map() {
    let runner = DistributedRunner::new(None, Config { wait_duration: 2 });
    let (mut run, _) = runner.begin("worker:v1", &simple_invocation(), &None, &vec![]);
    runner.step(&mut run, DistEvent::CMCreated(Ok("wasm-workflow-y".to_string())));
    let action = runner.step(&mut run, DistEvent::PodCreated(Err("quota".to_string())));
    match action {
        DistAction::Cleanup { config_map, .. } => assert_eq!(config_map, "wasm-workflow-y"),
        _ => panic!("the created ConfigMap must still be deleted"),
    }
    match runner.step(&mut run, DistEvent::CleanupDone) {
        DistAction::Finish(Err(WasmError::Invocation(_))) => {},
        _ => panic!("a pod create failure is an invocation error"),
    }
}

#[test]
fn watch_decisions_follow_the_rendezvous_rules() {
    assert!(matches!(
        wasm_workflows_plugin::distributed::watch_decision(WatchEvent::ConfigMapApplied(Some(
            "{}".to_string()
        ))),
        WatchStep::ReturnResult(_)
    ));
    assert!(matches!(
        wasm_workflows_plugin::distributed::watch_decision(WatchEvent::ConfigMapApplied(None)),
        WatchStep::KeepWaiting
    ));
    assert!(matches!(
        wasm_workflows_plugin::distributed::watch_decision(WatchEvent::PodApplied(Some(
            "Failed".to_string()
        ))),
        WatchStep::FailPod
    ));
    // `Succeeded` keeps waiting: the writer may still be flushing the result
    assert!(matches!(
        wasm_workflows_plugin::distributed::watch_decision(WatchEvent::PodApplied(Some(
            "Succeeded".to_string()
        ))),
        WatchStep::KeepWaiting
    ));
    assert!(matches!(
        wasm_workflows_plugin::distributed::watch_decision(WatchEvent::PodApplied(Some(
            "Pending".to_string()
        ))),
        WatchStep::KeepWaiting
    ));
}
