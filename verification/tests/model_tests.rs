use wasm_workflows_plugin::artifacts::{
    artifact_with_key, download_plan, endpoint_url, upload_key,
};
use wasm_workflows_plugin::config::{Config, LogLevel, Mode};
use wasm_workflows_plugin::dispatcher::{
    http_settings_from_perms, plan_invocation, AppError, ExecuteTemplateRequest,
    ExecuteTemplateResult, WasmError, WasmPluginConfig,
};
use wasm_workflows_plugin::image::{module_bytes_from_layers, OciLayer};
use wasm_workflows_plugin::model::{
    default_max_concurrent_requests, ArtifactRef, HTTPPermissions, JsonValue, ModulePermissions,
    ModuleSource, Outputs, Parameter, Phase, PluginResult, S3Artifact,
    S3ArtifactRepositoryConfig,
};
use wasm_workflows_plugin::plugin::{ArtifactManager, PluginManager};
use wasm_workflows_plugin::resolver::{
    assemble_s3_config, resolve_secret_value, S3ConfigParts, SecretRef,
};
use wasm_workflows_plugin::status::{
    invocation_duration_ms, WorkflowResult, WorkflowStatus,
};

#[test]
fn working_dir_path_strips_one_leading_slash() {
    let a = ArtifactRef { name: "x".into(), path: "/input.jpg".into(), s3: None };
    assert_eq!(a.working_dir_path(), "input.jpg");
    let b = ArtifactRef { name: "x".into(), path: "plain.bin".into(), s3: None };
    assert_eq!(b.working_dir_path(), "plain.bin");
}

#[test]
fn upload_key_matches_the_contract_shape() {
    let key = upload_key("wf", "output");
    let parts: Vec<&str> = key.split('/').collect();
    assert_eq!(parts.len(), 3);
    assert_eq!(parts[0], "wf");
    assert_eq!(parts[2], "output");
    let middle = parts[1];
    assert!(middle.starts_with("wf-"));
    let digits = &middle[3..];
    assert_eq!(digits.len(), 10);
    assert!(digits.chars().all(|c| c.is_ascii_digit()));
    assert_ne!(digits.chars().next(), Some('0'));
}

#[test]
fn download_plan_requires_an_object_store_key() {
    let with = ArtifactRef {
        name: "input".into(),
        path: "/input.jpg".into(),
        s3: Some(S3Artifact { key: "IMG.jpg".into() }),
    };
    assert_eq!(
        download_plan(&with).unwrap(),
        ("IMG.jpg".to_string(), "input.jpg".to_string())
    );
    let without = ArtifactRef { name: "input".into(), path: "/input.jpg".into(), s3: None };
    assert!(download_plan(&without).is_err());
}

#[test]
fn artifact_with_key_fills_only_the_key() {
    let a = ArtifactRef { name: "out".into(), path: "/o.bin".into(), s3: None };
    let b = artifact_with_key(&a, "wf/wf-1234567890/out".to_string());
    assert_eq!(b.name, "out");
    assert_eq!(b.path, "/o.bin");
    assert_eq!(b.s3.unwrap().key, "wf/wf-1234567890/out");
}

#[test]
fn endpoint_url_honours_the_insecure_flag() {
    let mut cfg = S3ArtifactRepositoryConfig {
        access_key: "a".into(),
        secret_key: "s".into(),
        bucket: "b".into(),
        endpoint: "minio.minio.svc.cluster.local:9000".into(),
        region: "eu-central-1".into(),
        insecure: true,
        path_style_endpoint: true,
    };
    assert_eq!(endpoint_url(&cfg), "http://minio.minio.svc.cluster.local:9000");
    cfg.insecure = false;
    assert_eq!(endpoint_url(&cfg), "https://minio.minio.svc.cluster.local:9000");
}

#[test]
fn phase_parses_exactly_two_names() {
    assert!(matches!(Phase::from_str("Succeeded"), Ok(Phase::Succeeded)));
    assert!(matches!(Phase::from_str("Failed"), Ok(Phase::Failed)));
    assert!(Phase::from_str("Running").is_err());
}

#[test]
fn modes_and_levels_parse_and_print() {
    assert!(matches!(Mode::from_str("local"), Ok(Mode::Local)));
    assert!(matches!(Mode::from_str("distributed"), Ok(Mode::Distributed)));
    assert!(Mode::from_str("Local").is_err());
    assert_eq!(Mode::Distributed.to_string(), "Distributed");
    assert!(matches!(LogLevel::from_str("debug"), Ok(LogLevel::Debug)));
    assert!(LogLevel::from_str("warn").is_err());
    assert_eq!(LogLevel::Trace.to_str(), "Trace");
    assert_eq!(default_max_concurrent_requests(), 8);
}

fn status(phase: &str, progress: &str) -> WorkflowStatus {
    WorkflowStatus { phase: phase.to_string(), progress: progress.to_string() }
}

#[test]
fn workflow_status_result_follows_phase_and_progress() {
    assert_eq!(status("Failed", "0/6").result(), Ok(WorkflowResult::Failed));
    assert_eq!(status("Succeeded", "6/6").result(), Ok(WorkflowResult::Succeeded));
    // a full n/n progress counts as success even while running
    assert_eq!(status("Running", "6/6").result(), Ok(WorkflowResult::Succeeded));
    assert_eq!(status("Running", "3/6").result(), Ok(WorkflowResult::Running));
    assert_eq!(status("Running", "366").result(), Err(()));
    assert_eq!(status("Running", "3/6/6").result(), Err(()));
    assert_eq!(status("Pending", "0/6").result(), Err(()));
    assert_eq!(WorkflowResult::Succeeded.to_string(), "succeeded");
}

#[test]
fn durations_saturate_instead_of_wrapping() {
    assert_eq!(invocation_duration_ms(2, 500_000_000), 2500);
    assert_eq!(invocation_duration_ms(-1, 0), 0);
    assert_eq!(invocation_duration_ms(i64::MAX, 999_999_999), u64::MAX);
}

#[test]
fn module_bytes_concatenate_only_wasm_layers() {
    let layers = vec![
        OciLayer {
            media_type: "application/vnd.module.wasm.content.layer.v1+wasm".into(),
            data: vec![1, 2],
        },
        OciLayer { media_type: "application/vnd.oci.image.config.v1+json".into(), data: vec![9] },
        OciLayer {
            media_type: "application/vnd.oci.image.layer.v1.tar".into(),
            data: vec![3],
        },
    ];
    assert_eq!(module_bytes_from_layers(&layers), vec![1, 2, 3]);
}

#[test]
fn http_settings_default_to_deny_all() {
    let none = http_settings_from_perms(None);
    assert!(none.allowed_hosts.is_none());
    assert!(none.max_concurrent_requests.is_none());
    let some = http_settings_from_perms(Some(ModulePermissions {
        http: Some(HTTPPermissions {
            allowed_hosts: vec!["postman-echo.com".into()],
            max_concurrent_requests: 4,
        }),
    }));
    assert_eq!(some.allowed_hosts.unwrap(), vec!["postman-echo.com".to_string()]);
    assert_eq!(some.max_concurrent_requests, Some(4));
}

#[test]
fn plan_invocation_shapes_the_request() {
    let request = ExecuteTemplateRequest {
        workflow_name: "wf".into(),
        parameters: Some(vec![Parameter {
            name: "text".into(),
            value: JsonValue::Str("hi".into()),
        }]),
        artifacts: vec![],
        wasm: Some(WasmPluginConfig {
            module: ModuleSource::OCI("ghcr.io/x/echo:v1".into()),
            permissions: None,
            extra: vec![("effect".into(), JsonValue::Str("desaturate".into()))],
        }),
    };
    let (image, perms, inv) = plan_invocation(request).unwrap();
    assert_eq!(image, "ghcr.io/x/echo:v1");
    assert!(perms.is_none());
    assert_eq!(inv.workflow_name, "wf");
    assert_eq!(inv.parameters.len(), 1);
    assert_eq!(inv.plugin_options.len(), 1);
    assert_eq!(inv.plugin_options[0].name, "effect");
    assert_eq!(inv.plugin_options[0].value, JsonValue::Str("desaturate".into()));
}

#[test]
fn plan_invocation_skips_non_wasm_templates() {
    let request = ExecuteTemplateRequest {
        workflow_name: "wf".into(),
        parameters: None,
        artifacts: vec![],
        wasm: None,
    };
    assert!(plan_invocation(request).is_none());
}

#[test]
fn from_plugin_result_reports_outputs_only_when_present() {
    let empty = PluginResult {
        phase: Phase::Succeeded,
        message: "ok".into(),
        outputs: Outputs { artifacts: vec![], parameters: vec![] },
    };
    assert!(ExecuteTemplateResult::from_plugin_result(empty).outputs.is_none());
    let full = PluginResult {
        phase: Phase::Succeeded,
        message: "ok".into(),
        outputs: Outputs {
            artifacts: vec![],
            parameters: vec![Parameter { name: "n".into(), value: JsonValue::Int(1) }],
        },
    };
    let shaped = ExecuteTemplateResult::from_plugin_result(full);
    assert_eq!(shaped.outputs.unwrap().parameters.len(), 1);
}

#[test]
fn infrastructure_errors_become_a_failed_node_with_status_500() {
    let err = AppError::from_wasm_error(WasmError::Timeout("late".into()));
    let (status_code, body) = err.response_parts();
    assert_eq!(status_code, 500);
    let node = body.node.unwrap();
    assert!(matches!(node.phase, Phase::Failed));
    assert!(node.outputs.is_none());
}

#[test]
fn ca_certificate_prefers_the_encoded_form() {
    let cfg = Config {
        bind_ip: "127.0.0.1".into(),
        bind_port: 3000,
        insecure_oci_registries: vec![],
        fs_cache_dir: None,
        log_level: None,
        enable_telemetry: false,
        mode: None,
        plugin_namespace: None,
        argo_controller_configmap: None,
        k8s_api_url: None,
        k8s_api_ca_crt: Some("cert-bytes".into()),
        k8s_api_ca_crt_b64: None,
        k8s_api_namespace: None,
        k8s_api_token: None,
        distributed_wait_duration: 300,
    };
    // "cert-bytes" in the standard base64 alphabet
    assert_eq!(cfg.k8s_api_ca_crt().unwrap(), "Y2VydC1ieXRlcw==");
    assert!(!cfg.has_complete_kubeconfig());
}

#[test]
fn resolver_assembles_the_bundle_from_secret_data() {
    let secret_data: Vec<(String, Vec<u8>)> = vec![
        ("access_key".to_string(), b"argo-access".to_vec()),
        ("secret_key".to_string(), b"argo-secret".to_vec()),
    ];
    let parts = S3ConfigParts {
        access_key_secret: SecretRef { name: "argo-workflows-s3".into(), key: "access_key".into() },
        secret_key_secret: SecretRef { name: "argo-workflows-s3".into(), key: "secret_key".into() },
        bucket: "argo-workflows".into(),
        endpoint: "minio.minio.svc.cluster.local:9000".into(),
        region: "eu-central-1".into(),
        insecure: true,
        path_style_endpoint: false,
    };
    let access = resolve_secret_value(&secret_data, &parts.access_key_secret).unwrap();
    let secret = resolve_secret_value(&secret_data, &parts.secret_key_secret).unwrap();
    let missing = SecretRef { name: "argo-workflows-s3".into(), key: "other".into() };
    assert!(resolve_secret_value(&secret_data, &missing).is_err());
    let bundle = assemble_s3_config(parts, access, secret);
    assert_eq!(bundle.access_key, "argo-access");
    assert_eq!(bundle.secret_key, "argo-secret");
    assert_eq!(bundle.bucket, "argo-workflows");
    assert!(bundle.insecure);
}

#[test]
fn plugin_side_paths_join_under_the_guest_root() {
    let manager = ArtifactManager::new();
    let a = ArtifactRef { name: "input".into(), path: "/input.jpg".into(), s3: None };
    assert_eq!(manager.input_artifact_path(&a), "/work/artifacts-in/input.jpg");
    assert_eq!(manager.output_artifact_path(&a), "/work/artifacts-out/input.jpg");
    let rooted = ArtifactManager::new_with_base_path("/tmp/scratch".to_string());
    assert_eq!(rooted.input_artifact_path(&a), "/tmp/scratch/artifacts-in/input.jpg");
}

#[test]
fn plugin_manager_round_trips_the_protocol_files() {
    let pm = PluginManager::new();
    let res = PluginResult {
        phase: Phase::Failed,
        message: "bad input".into(),
        outputs: Outputs { artifacts: vec![], parameters: vec![] },
    };
    let text = pm.set_result(&res);
    let back = wasm_workflows_plugin::protocol::parse_result(text.as_str()).unwrap();
    assert_eq!(back, res);
    assert!(pm.invocation("not json").is_none());
}
