use wasm_workflows_plugin::json::{json_to_string, parse_json};
use wasm_workflows_plugin::model::{
    ArtifactRef, JsonValue, Outputs, Parameter, Phase, PluginInvocation, PluginResult, S3Artifact,
};
use wasm_workflows_plugin::protocol::{
    input_json_text, parse_invocation, parse_result, result_json_text,
};

fn sample_value() -> JsonValue {
    JsonValue::Obj(vec![
        ("text".to_string(), JsonValue::Str("hi".to_string())),
        ("count".to_string(), JsonValue::Int(-42)),
        ("big".to_string(), JsonValue::Int(i64::MIN)),
        ("flag".to_string(), JsonValue::Bool(true)),
        ("nothing".to_string(), JsonValue::Null),
        (
            "items".to_string(),
            JsonValue::Arr(vec![
                JsonValue::Int(1),
                JsonValue::Str("quote \" backslash \\ newline \n tab \t bell \u{7}".to_string()),
                JsonValue::Obj(vec![]),
                JsonValue::Arr(vec![]),
            ]),
        ),
    ])
}

#[test]
fn json_round_trip_nested_value() {
    let v = sample_value();
    let text = json_to_string(&v);
    let back = parse_json(text.as_str()).expect("canonical text parses");
    assert_eq!(back, v);
}

#[test]
fn json_escapes_match_the_compact_convention() {
    let v = JsonValue::Str("a\"b\\c\nd\u{1}".to_string());
    let text = json_to_string(&v);
    assert_eq!(text, "\"a\\\"b\\\\c\\nd\\u0001\"");
}

#[test]
fn json_writes_compact_form() {
    let v = JsonValue::Obj(vec![
        ("a".to_string(), JsonValue::Int(1)),
        ("b".to_string(), JsonValue::Arr(vec![JsonValue::Bool(false), JsonValue::Null])),
    ]);
    assert_eq!(json_to_string(&v), "{\"a\":1,\"b\":[false,null]}");
}

#[test]
fn json_rejects_malformed_text() {
    assert_eq!(parse_json("{\"a\":"), None);
    assert_eq!(parse_json(""), None);
    assert_eq!(parse_json("nul"), None);
    assert_eq!(parse_json("[1,]"), None);
    assert_eq!(parse_json("12345678901234567890123"), None);
}

#[test]
fn json_parses_number_edges() {
    assert_eq!(parse_json("9223372036854775807"), Some(JsonValue::Int(i64::MAX)));
    assert_eq!(parse_json("-9223372036854775808"), Some(JsonValue::Int(i64::MIN)));
    assert_eq!(parse_json("9223372036854775808"), None);
}

fn sample_invocation() -> PluginInvocation {
    PluginInvocation {
        workflow_name: "wf".to_string(),
        plugin_options: vec![Parameter {
            name: "opt".to_string(),
            value: JsonValue::Str("x".to_string()),
        }],
        parameters: vec![Parameter { name: "text".to_string(), value: sample_value() }],
        artifacts: vec![
            ArtifactRef {
                name: "input".to_string(),
                path: "/input.jpg".to_string(),
                s3: Some(S3Artifact { key: "IMG.jpg".to_string() }),
            },
            ArtifactRef { name: "aux".to_string(), path: "aux.bin".to_string(), s3: None },
        ],
    }
}

#[test]
fn invocation_round_trips_through_input_json() {
    let inv = sample_invocation();
    let text = input_json_text(&inv);
    let back = parse_invocation(text.as_str()).expect("input.json parses");
    assert_eq!(back, inv);
}

#[test]
fn result_round_trips_through_result_json() {
    let res = PluginResult {
        phase: Phase::Failed,
        message: "bad input".to_string(),
        outputs: Outputs {
            artifacts: vec![ArtifactRef {
                name: "output".to_string(),
                path: "/out.jpg".to_string(),
                s3: None,
            }],
            parameters: vec![Parameter { name: "n".to_string(), value: JsonValue::Int(3) }],
        },
    };
    let text = result_json_text(&res);
    let back = parse_result(text.as_str()).expect("result.json parses");
    assert_eq!(back, res);
}

#[test]
fn result_json_text_is_the_harness_shape() {
    let res = PluginResult {
        phase: Phase::Succeeded,
        message: "ok".to_string(),
        outputs: Outputs { artifacts: vec![], parameters: vec![] },
    };
    assert_eq!(
        result_json_text(&res),
        "{\"phase\":\"Succeeded\",\"message\":\"ok\",\"outputs\":{\"artifacts\":[],\"parameters\":[]}}"
    );
}
