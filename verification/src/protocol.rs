//! The protocol between the host and the module: how invocations and
//! results are laid out as JSON in `input.json` and `result.json`, with the
//! round-trip laws that writing and re-reading either file preserves it.

use vstd::prelude::*;

use crate::json::{json_view, JsonView};
use crate::model::JsonValue;
use crate::model::{ArtifactRef, Outputs, Parameter, Phase, PluginInvocation, PluginResult};
use vstd::string::StringExecFns;

verus! {

// ------------------------------------------------------------------
// views of the model types
// ------------------------------------------------------------------
#[verifier::ext_equal]
pub struct ParamView {
    pub name: Seq<char>,
    pub value: JsonView,
}

#[verifier::ext_equal]
pub struct ArtifactRefView {
    pub name: Seq<char>,
    pub path: Seq<char>,
    pub s3: Option<Seq<char>>,
}

#[verifier::ext_equal]
pub struct OutputsView {
    pub artifacts: Seq<ArtifactRefView>,
    pub parameters: Seq<ParamView>,
}

#[verifier::ext_equal]
pub struct PluginResultView {
    pub phase: Phase,
    pub message: Seq<char>,
    pub outputs: OutputsView,
}

#[verifier::ext_equal]
pub struct PluginInvocationView {
    pub workflow_name: Seq<char>,
    pub plugin_options: Seq<ParamView>,
    pub parameters: Seq<ParamView>,
    pub artifacts: Seq<ArtifactRefView>,
}

impl View for Parameter {
    type V = ParamView;

    open spec fn view(&self) -> ParamView {
        ParamView { name: self.name@, value: json_view(self.value) }
    }
}

impl View for ArtifactRef {
    type V = ArtifactRefView;

    open spec fn view(&self) -> ArtifactRefView {
        ArtifactRefView {
            name: self.name@,
            path: self.path@,
            s3: match self.s3 {
                Some(ref k) => Some(k.key@),
                None => None,
            },
        }
    }
}

pub open spec fn params_view(ps: Seq<Parameter>) -> Seq<ParamView> {
    Seq::new(
        ps.len(),
        |i: int|
            if 0 <= i < ps.len() {
                ps[i]@
            } else {
                ParamView { name: Seq::empty(), value: JsonView::Null }
            },
    )
}

pub open spec fn artifacts_view(xs: Seq<ArtifactRef>) -> Seq<ArtifactRefView> {
    Seq::new(
        xs.len(),
        |i: int|
            if 0 <= i < xs.len() {
                xs[i]@
            } else {
                ArtifactRefView { name: Seq::empty(), path: Seq::empty(), s3: None }
            },
    )
}

impl View for Outputs {
    type V = OutputsView;

    open spec fn view(&self) -> OutputsView {
        OutputsView { artifacts: artifacts_view(self.artifacts@), parameters: params_view(self.parameters@) }
    }
}

impl View for PluginResult {
    type V = PluginResultView;

    open spec fn view(&self) -> PluginResultView {
        PluginResultView { phase: self.phase, message: self.message@, outputs: self.outputs@ }
    }
}

impl View for PluginInvocation {
    type V = PluginInvocationView;

    open spec fn view(&self) -> PluginInvocationView {
        PluginInvocationView {
            workflow_name: self.workflow_name@,
            plugin_options: params_view(self.plugin_options@),
            parameters: params_view(self.parameters@),
            artifacts: artifacts_view(self.artifacts@),
        }
    }
}

// ------------------------------------------------------------------
// the JSON shape of the protocol
// ------------------------------------------------------------------
pub open spec fn phase_chars(p: Phase) -> Seq<char> {
    match p {
        Phase::Succeeded => "Succeeded"@,
        Phase::Failed => "Failed"@,
    }
}

pub open spec fn param_json(p: ParamView) -> JsonView {
    JsonView::Obj(seq![("name"@, JsonView::Str(p.name)), ("value"@, p.value)])
}

pub open spec fn params_json(ps: Seq<ParamView>) -> Seq<JsonView> {
    Seq::new(
        ps.len(),
        |i: int|
            if 0 <= i < ps.len() {
                param_json(ps[i])
            } else {
                JsonView::Null
            },
    )
}

pub open spec fn artifact_json(a: ArtifactRefView) -> JsonView {
    match a.s3 {
        None => JsonView::Obj(
            seq![("name"@, JsonView::Str(a.name)), ("path"@, JsonView::Str(a.path))],
        ),
        Some(key) => JsonView::Obj(
            seq![
                ("name"@, JsonView::Str(a.name)),
                ("path"@, JsonView::Str(a.path)),
                ("s3"@, JsonView::Obj(seq![("key"@, JsonView::Str(key))])),
            ],
        ),
    }
}

pub open spec fn artifacts_json(xs: Seq<ArtifactRefView>) -> Seq<JsonView> {
    Seq::new(
        xs.len(),
        |i: int|
            if 0 <= i < xs.len() {
                artifact_json(xs[i])
            } else {
                JsonView::Null
            },
    )
}

pub open spec fn outputs_json(o: OutputsView) -> JsonView {
    JsonView::Obj(
        seq![
            ("artifacts"@, JsonView::Arr(artifacts_json(o.artifacts))),
            ("parameters"@, JsonView::Arr(params_json(o.parameters))),
        ],
    )
}

/// What the module writes into `result.json`.
pub open spec fn result_json(r: PluginResultView) -> JsonView {
    JsonView::Obj(
        seq![
            ("phase"@, JsonView::Str(phase_chars(r.phase))),
            ("message"@, JsonView::Str(r.message)),
            ("outputs"@, outputs_json(r.outputs)),
        ],
    )
}

/// What the host writes into `input.json`.
pub open spec fn invocation_json(iv: PluginInvocationView) -> JsonView {
    JsonView::Obj(
        seq![
            ("workflow_name"@, JsonView::Str(iv.workflow_name)),
            ("plugin_options"@, JsonView::Arr(params_json(iv.plugin_options))),
            ("parameters"@, JsonView::Arr(params_json(iv.parameters))),
            ("artifacts"@, JsonView::Arr(artifacts_json(iv.artifacts))),
        ],
    )
}

// ------------------------------------------------------------------
// reading the protocol back out of JSON
// ------------------------------------------------------------------
pub open spec fn jv_to_phase(v: JsonView) -> Option<Phase> {
    if v == JsonView::Str("Succeeded"@) {
        Some(Phase::Succeeded)
    } else if v == JsonView::Str("Failed"@) {
        Some(Phase::Failed)
    } else {
        None
    }
}

pub open spec fn jv_to_param(v: JsonView) -> Option<ParamView> {
    match v {
        JsonView::Obj(fs) => if fs.len() == 2 && fs[0].0 == "name"@ && fs[0].1 is Str && fs[1].0
            == "value"@ {
            Some(ParamView { name: fs[0].1->Str_0, value: fs[1].1 })
        } else {
            None
        },
        _ => None,
    }
}

pub open spec fn jv_to_params(vs: Seq<JsonView>) -> Option<Seq<ParamView>>
    decreases vs.len(),
{
    if vs.len() == 0 {
        Some(Seq::empty())
    } else {
        match jv_to_param(vs[0]) {
            None => None,
            Some(p) => match jv_to_params(vs.skip(1)) {
                None => None,
                Some(rest) => Some(seq![p] + rest),
            },
        }
    }
}

pub open spec fn jv_to_artifact(v: JsonView) -> Option<ArtifactRefView> {
    match v {
        JsonView::Obj(fs) => if fs.len() == 2 && fs[0].0 == "name"@ && fs[0].1 is Str && fs[1].0
            == "path"@ && fs[1].1 is Str {
            Some(ArtifactRefView { name: fs[0].1->Str_0, path: fs[1].1->Str_0, s3: None })
        } else if fs.len() == 3 && fs[0].0 == "name"@ && fs[0].1 is Str && fs[1].0 == "path"@
            && fs[1].1 is Str && fs[2].0 == "s3"@ && (fs[2].1 matches JsonView::Obj(s3fs)
            && s3fs.len() == 1 && s3fs[0].0 == "key"@ && s3fs[0].1 is Str) {
            Some(
                ArtifactRefView {
                    name: fs[0].1->Str_0,
                    path: fs[1].1->Str_0,
                    s3: Some(fs[2].1->Obj_0[0].1->Str_0),
                },
            )
        } else {
            None
        },
        _ => None,
    }
}

pub open spec fn jv_to_artifacts(vs: Seq<JsonView>) -> Option<Seq<ArtifactRefView>>
    decreases vs.len(),
{
    if vs.len() == 0 {
        Some(Seq::empty())
    } else {
        match jv_to_artifact(vs[0]) {
            None => None,
            Some(a) => match jv_to_artifacts(vs.skip(1)) {
                None => None,
                Some(rest) => Some(seq![a] + rest),
            },
        }
    }
}

pub open spec fn jv_to_outputs(v: JsonView) -> Option<OutputsView> {
    match v {
        JsonView::Obj(fs) => if fs.len() == 2 && fs[0].0 == "artifacts"@ && fs[0].1 is Arr
            && fs[1].0 == "parameters"@ && fs[1].1 is Arr {
            match (jv_to_artifacts(fs[0].1->Arr_0), jv_to_params(fs[1].1->Arr_0)) {
                (Some(xs), Some(ps)) => Some(OutputsView { artifacts: xs, parameters: ps }),
                _ => None,
            }
        } else {
            None
        },
        _ => None,
    }
}

pub open spec fn jv_to_result(v: JsonView) -> Option<PluginResultView> {
    match v {
        JsonView::Obj(fs) => if fs.len() == 3 && fs[0].0 == "phase"@ && fs[1].0 == "message"@
            && fs[1].1 is Str && fs[2].0 == "outputs"@ {
            match (jv_to_phase(fs[0].1), jv_to_outputs(fs[2].1)) {
                (Some(ph), Some(o)) => Some(
                    PluginResultView { phase: ph, message: fs[1].1->Str_0, outputs: o },
                ),
                _ => None,
            }
        } else {
            None
        },
        _ => None,
    }
}

pub open spec fn jv_to_invocation(v: JsonView) -> Option<PluginInvocationView> {
    match v {
        JsonView::Obj(fs) => if fs.len() == 4 && fs[0].0 == "workflow_name"@ && fs[0].1 is Str
            && fs[1].0 == "plugin_options"@ && fs[1].1 is Arr && fs[2].0 == "parameters"@
            && fs[2].1 is Arr && fs[3].0 == "artifacts"@ && fs[3].1 is Arr {
            match (
                jv_to_params(fs[1].1->Arr_0),
                jv_to_params(fs[2].1->Arr_0),
                jv_to_artifacts(fs[3].1->Arr_0),
            ) {
                (Some(opts), Some(ps), Some(xs)) => Some(
                    PluginInvocationView {
                        workflow_name: fs[0].1->Str_0,
                        plugin_options: opts,
                        parameters: ps,
                        artifacts: xs,
                    },
                ),
                _ => None,
            }
        } else {
            None
        },
        _ => None,
    }
}

// ------------------------------------------------------------------
// round-trip laws at the JSON shape level
// ------------------------------------------------------------------
proof fn lemma_param_round_trip(p: ParamView)
    ensures
        jv_to_param(param_json(p)) == Some(p),
{
}

proof fn lemma_params_round_trip(ps: Seq<ParamView>)
    ensures
        jv_to_params(params_json(ps)) == Some(ps),
    decreases ps.len(),
{
    if ps.len() == 0 {
        assert(params_json(ps) =~= Seq::<JsonView>::empty());
        assert(jv_to_params(params_json(ps)) == Some(Seq::<ParamView>::empty()));
        assert(Seq::<ParamView>::empty() =~= ps);
    } else {
        lemma_param_round_trip(ps[0]);
        lemma_params_round_trip(ps.skip(1));
        assert(params_json(ps).skip(1) =~= params_json(ps.skip(1)));
        assert(seq![ps[0]] + ps.skip(1) =~= ps);
    }
}

proof fn lemma_artifact_round_trip(a: ArtifactRefView)
    ensures
        jv_to_artifact(artifact_json(a)) == Some(a),
{
    proof_strlits();
    match a.s3 {
        None => {},
        Some(key) => {},
    }
}

proof fn lemma_artifacts_round_trip(xs: Seq<ArtifactRefView>)
    ensures
        jv_to_artifacts(artifacts_json(xs)) == Some(xs),
    decreases xs.len(),
{
    if xs.len() == 0 {
        assert(artifacts_json(xs) =~= Seq::<JsonView>::empty());
        assert(Seq::<ArtifactRefView>::empty() =~= xs);
    } else {
        lemma_artifact_round_trip(xs[0]);
        lemma_artifacts_round_trip(xs.skip(1));
        assert(artifacts_json(xs).skip(1) =~= artifacts_json(xs.skip(1)));
        assert(seq![xs[0]] + xs.skip(1) =~= xs);
    }
}

/// The string literals the protocol uses as member names, revealed together,
/// with the inequalities the extractors rely on.
proof fn proof_strlits()
    ensures
        "Succeeded"@ != "Failed"@,
{
    reveal_strlit("Succeeded");
    reveal_strlit("Failed");
    assert("Succeeded"@.len() == 9);
    assert("Failed"@.len() == 6);
}

proof fn lemma_outputs_round_trip(o: OutputsView)
    ensures
        jv_to_outputs(outputs_json(o)) == Some(o),
{
    lemma_artifacts_round_trip(o.artifacts);
    lemma_params_round_trip(o.parameters);
}

/// A result laid out as JSON reads back as exactly the same result.
pub proof fn lemma_result_round_trip(r: PluginResultView)
    ensures
        jv_to_result(result_json(r)) == Some(r),
{
    proof_strlits();
    lemma_outputs_round_trip(r.outputs);
    match r.phase {
        Phase::Succeeded => {
            assert(jv_to_phase(JsonView::Str(phase_chars(r.phase))) == Some(Phase::Succeeded));
        },
        Phase::Failed => {
            assert(jv_to_phase(JsonView::Str(phase_chars(r.phase))) == Some(Phase::Failed));
        },
    }
}

/// An invocation laid out as JSON reads back as exactly the same invocation.
pub proof fn lemma_invocation_round_trip(iv: PluginInvocationView)
    ensures
        jv_to_invocation(invocation_json(iv)) == Some(iv),
{
    lemma_params_round_trip(iv.plugin_options);
    lemma_params_round_trip(iv.parameters);
    lemma_artifacts_round_trip(iv.artifacts);
}


// ------------------------------------------------------------------
// executable conversions
// ------------------------------------------------------------------
/// A structural copy of a JSON value.
#[verifier::loop_isolation(false)]
pub fn clone_json(v: &JsonValue) -> (r: JsonValue)
    ensures
        r@ == v@,
    decreases *v,
{
    match v {
        JsonValue::Null => JsonValue::Null,
        JsonValue::Bool(b) => JsonValue::Bool(*b),
        JsonValue::Int(i) => JsonValue::Int(*i),
        JsonValue::Str(s) => JsonValue::Str(s.as_str().to_owned()),
        JsonValue::Arr(es) => {
            let mut out: Vec<JsonValue> = Vec::new();
            let mut i: usize = 0;
            while i < es.len()
                invariant
                    i <= es@.len(),
                    out@.len() == i,
                    forall|j: int| 0 <= j < i ==> (#[trigger] out@[j])@ == es@[j]@,
                decreases es@.len() - i,
            {
                out.push(clone_json(&es[i]));
                i = i + 1;
            }
            proof {
                assert((JsonValue::Arr(out)@ -> Arr_0) =~= (v@ -> Arr_0));
            }
            JsonValue::Arr(out)
        },
        JsonValue::Obj(fs) => {
            let mut out: Vec<(String, JsonValue)> = Vec::new();
            let mut i: usize = 0;
            while i < fs.len()
                invariant
                    i <= fs@.len(),
                    out@.len() == i,
                    forall|j: int| 0 <= j < i ==> (#[trigger] out@[j]).0@ == fs@[j].0@ && out@[j].1@
                        == fs@[j].1@,
                decreases fs@.len() - i,
            {
                out.push((fs[i].0.as_str().to_owned(), clone_json(&fs[i].1)));
                i = i + 1;
            }
            proof {
                assert((JsonValue::Obj(out)@ -> Obj_0) =~= (v@ -> Obj_0));
            }
            JsonValue::Obj(out)
        },
    }
}

fn param_to_json(p: &Parameter) -> (r: JsonValue)
    ensures
        r@ == param_json(p@),
{
    let mut fields: Vec<(String, JsonValue)> = Vec::new();
    fields.push(("name".to_owned(), JsonValue::Str(p.name.as_str().to_owned())));
    fields.push(("value".to_owned(), clone_json(&p.value)));
    let r = JsonValue::Obj(fields);
    proof {
        assert(fields@.len() == 2);
        assert(fields@[0].0@ == "name"@);
        assert(json_view(fields@[0].1) == JsonView::Str(p.name@));
        assert(fields@[1].0@ == "value"@);
        assert((r@ -> Obj_0).len() == 2);
        assert((r@ -> Obj_0)[0] == ("name"@, JsonView::Str(p.name@)));
        assert((r@ -> Obj_0)[1] == ("value"@, json_view(p.value)));
        assert((r@ -> Obj_0) =~= param_json(p@) -> Obj_0);
    }
    r
}

fn params_to_json(ps: &Vec<Parameter>) -> (r: Vec<JsonValue>)
    ensures
        crate::json::json_views(r@) =~= params_json(params_view(ps@)),
{
    let mut out: Vec<JsonValue> = Vec::new();
    let mut i: usize = 0;
    while i < ps.len()
        invariant
            i <= ps@.len(),
            out@.len() == i,
            forall|j: int| 0 <= j < i ==> (#[trigger] out@[j])@ == param_json(ps@[j]@),
        decreases ps@.len() - i,
    {
        out.push(param_to_json(&ps[i]));
        i = i + 1;
    }
    out
}

fn artifact_to_json(a: &ArtifactRef) -> (r: JsonValue)
    ensures
        r@ == artifact_json(a@),
{
    let mut fields: Vec<(String, JsonValue)> = Vec::new();
    fields.push(("name".to_owned(), JsonValue::Str(a.name.as_str().to_owned())));
    fields.push(("path".to_owned(), JsonValue::Str(a.path.as_str().to_owned())));
    match &a.s3 {
        None => {
            let r = JsonValue::Obj(fields);
            proof {
                assert(fields@.len() == 2);
                assert(fields@[0].0@ == "name"@);
                assert(json_view(fields@[0].1) == JsonView::Str(a.name@));
                assert(fields@[1].0@ == "path"@);
                assert(json_view(fields@[1].1) == JsonView::Str(a.path@));
                assert((r@ -> Obj_0)[0] == ("name"@, JsonView::Str(a.name@)));
                assert((r@ -> Obj_0)[1] == ("path"@, JsonView::Str(a.path@)));
                assert((r@ -> Obj_0) =~= artifact_json(a@) -> Obj_0);
            }
            r
        },
        Some(s3) => {
            let mut s3_fields: Vec<(String, JsonValue)> = Vec::new();
            s3_fields.push(("key".to_owned(), JsonValue::Str(s3.key.as_str().to_owned())));
            let s3_obj = JsonValue::Obj(s3_fields);
            proof {
                assert(s3_fields@.len() == 1);
                assert(s3_fields@[0].0@ == "key"@);
                assert(json_view(s3_fields@[0].1) == JsonView::Str(s3.key@));
                assert((s3_obj@ -> Obj_0)[0] == ("key"@, JsonView::Str(s3.key@)));
                assert((s3_obj@ -> Obj_0) =~= seq![("key"@, JsonView::Str(s3.key@))]);
            }
            fields.push(("s3".to_owned(), s3_obj));
            let r = JsonValue::Obj(fields);
            proof {
                assert(fields@.len() == 3);
                assert(fields@[0].0@ == "name"@);
                assert(json_view(fields@[0].1) == JsonView::Str(a.name@));
                assert(fields@[1].0@ == "path"@);
                assert(json_view(fields@[1].1) == JsonView::Str(a.path@));
                assert(fields@[2].0@ == "s3"@);
                assert(fields@[2].1 == s3_obj);
                assert((r@ -> Obj_0)[0] == ("name"@, JsonView::Str(a.name@)));
                assert((r@ -> Obj_0)[1] == ("path"@, JsonView::Str(a.path@)));
                assert((r@ -> Obj_0)[2] == ("s3"@, s3_obj@));
                assert(s3_obj@ == JsonView::Obj(seq![("key"@, JsonView::Str(s3.key@))]));
                assert((r@ -> Obj_0) =~= artifact_json(a@) -> Obj_0);
            }
            r
        },
    }
}

fn artifacts_to_json(xs: &Vec<ArtifactRef>) -> (r: Vec<JsonValue>)
    ensures
        crate::json::json_views(r@) =~= artifacts_json(artifacts_view(xs@)),
{
    let mut out: Vec<JsonValue> = Vec::new();
    let mut i: usize = 0;
    while i < xs.len()
        invariant
            i <= xs@.len(),
            out@.len() == i,
            forall|j: int| 0 <= j < i ==> (#[trigger] out@[j])@ == artifact_json(xs@[j]@),
        decreases xs@.len() - i,
    {
        out.push(artifact_to_json(&xs[i]));
        i = i + 1;
    }
    out
}

fn outputs_to_json(o: &Outputs) -> (r: JsonValue)
    ensures
        r@ == outputs_json(o@),
{
    let mut fields: Vec<(String, JsonValue)> = Vec::new();
    fields.push(("artifacts".to_owned(), JsonValue::Arr(artifacts_to_json(&o.artifacts))));
    fields.push(("parameters".to_owned(), JsonValue::Arr(params_to_json(&o.parameters))));
    let ghost gfields = fields@;
    let r = JsonValue::Obj(fields);
    proof {
        assert(gfields.len() == 2);
        assert(gfields[0].0@ == "artifacts"@);
        assert(gfields[1].0@ == "parameters"@);
        assert((r@ -> Obj_0)[0] == ("artifacts"@, json_view(gfields[0].1)));
        assert((r@ -> Obj_0)[1] == ("parameters"@, json_view(gfields[1].1)));
        assert(gfields[0].1 matches JsonValue::Arr(xs) && crate::json::json_views(xs@)
            =~= artifacts_json(artifacts_view(o.artifacts@)));
        assert(gfields[1].1 matches JsonValue::Arr(ps) && crate::json::json_views(ps@)
            =~= params_json(params_view(o.parameters@)));
        assert(json_view(gfields[0].1) == JsonView::Arr(artifacts_json(artifacts_view(o.artifacts@)))) by {
            match gfields[0].1 {
                JsonValue::Arr(arr_inner) => {
                    crate::json::lemma_arr_view(arr_inner);
                },
                _ => {},
            }
        }
        assert(json_view(gfields[1].1) == JsonView::Arr(params_json(params_view(o.parameters@)))) by {
            match gfields[1].1 {
                JsonValue::Arr(arr_inner) => {
                    crate::json::lemma_arr_view(arr_inner);
                },
                _ => {},
            }
        }
        assert((r@ -> Obj_0) =~= outputs_json(o@) -> Obj_0);
    }
    r
}

/// The JSON value a result is written as.
pub fn result_to_json(res: &PluginResult) -> (r: JsonValue)
    ensures
        r@ == result_json(res@),
{
    let phase_text: &str = match res.phase {
        Phase::Succeeded => "Succeeded",
        Phase::Failed => "Failed",
    };
    let mut fields: Vec<(String, JsonValue)> = Vec::new();
    fields.push(("phase".to_owned(), JsonValue::Str(phase_text.to_owned())));
    fields.push(("message".to_owned(), JsonValue::Str(res.message.as_str().to_owned())));
    fields.push(("outputs".to_owned(), outputs_to_json(&res.outputs)));
    let ghost gfields = fields@;
    let r = JsonValue::Obj(fields);
    proof {
        assert(gfields.len() == 3);
        assert(gfields[0].0@ == "phase"@);
        assert(json_view(gfields[0].1) == JsonView::Str(phase_chars(res.phase))) by {
            reveal_strlit("Succeeded");
            reveal_strlit("Failed");
        }
        assert(gfields[1].0@ == "message"@);
        assert(json_view(gfields[1].1) == JsonView::Str(res.message@));
        assert(gfields[2].0@ == "outputs"@);
        assert(json_view(gfields[2].1) == outputs_json(res.outputs@));
        assert((r@ -> Obj_0)[0] == ("phase"@, JsonView::Str(phase_chars(res.phase))));
        assert((r@ -> Obj_0)[1] == ("message"@, JsonView::Str(res.message@)));
        assert((r@ -> Obj_0)[2] == ("outputs"@, outputs_json(res.outputs@)));
        assert((r@ -> Obj_0) =~= result_json(res@) -> Obj_0);
    }
    r
}

/// The JSON value an invocation is written as.
pub fn invocation_to_json(inv: &PluginInvocation) -> (r: JsonValue)
    ensures
        r@ == invocation_json(inv@),
{
    let mut fields: Vec<(String, JsonValue)> = Vec::new();
    fields.push(("workflow_name".to_owned(), JsonValue::Str(inv.workflow_name.as_str().to_owned())));
    fields.push(("plugin_options".to_owned(), JsonValue::Arr(params_to_json(&inv.plugin_options))));
    fields.push(("parameters".to_owned(), JsonValue::Arr(params_to_json(&inv.parameters))));
    fields.push(("artifacts".to_owned(), JsonValue::Arr(artifacts_to_json(&inv.artifacts))));
    let ghost gfields = fields@;
    let r = JsonValue::Obj(fields);
    proof {
        assert(gfields.len() == 4);
        assert(gfields[0].0@ == "workflow_name"@);
        assert(json_view(gfields[0].1) == JsonView::Str(inv.workflow_name@));
        assert(gfields[1].0@ == "plugin_options"@);
        assert(json_view(gfields[1].1) == JsonView::Arr(params_json(params_view(inv.plugin_options@)))) by {
            match gfields[1].1 {
                JsonValue::Arr(arr_inner) => {
                    crate::json::lemma_arr_view(arr_inner);
                },
                _ => {},
            }
        }
        assert(gfields[2].0@ == "parameters"@);
        assert(json_view(gfields[2].1) == JsonView::Arr(params_json(params_view(inv.parameters@)))) by {
            match gfields[2].1 {
                JsonValue::Arr(arr_inner) => {
                    crate::json::lemma_arr_view(arr_inner);
                },
                _ => {},
            }
        }
        assert(gfields[3].0@ == "artifacts"@);
        assert(json_view(gfields[3].1) == JsonView::Arr(artifacts_json(artifacts_view(inv.artifacts@)))) by {
            match gfields[3].1 {
                JsonValue::Arr(arr_inner) => {
                    crate::json::lemma_arr_view(arr_inner);
                },
                _ => {},
            }
        }
        assert((r@ -> Obj_0)[0] == ("workflow_name"@, JsonView::Str(inv.workflow_name@)));
        assert((r@ -> Obj_0)[1] == ("plugin_options"@, JsonView::Arr(params_json(params_view(inv.plugin_options@)))));
        assert((r@ -> Obj_0)[2] == ("parameters"@, JsonView::Arr(params_json(params_view(inv.parameters@)))));
        assert((r@ -> Obj_0)[3] == ("artifacts"@, JsonView::Arr(artifacts_json(artifacts_view(inv.artifacts@)))));
        assert((r@ -> Obj_0) =~= invocation_json(inv@) -> Obj_0);
    }
    r
}

/// The exact text of `input.json` for an invocation.
pub fn input_json_text(inv: &PluginInvocation) -> (r: String)
    ensures
        r@ == crate::json::spec_json(invocation_json(inv@)),
{
    let v = invocation_to_json(inv);
    crate::json::json_to_string(&v)
}

/// The exact text of `result.json` for a result.
pub fn result_json_text(res: &PluginResult) -> (r: String)
    ensures
        r@ == crate::json::spec_json(result_json(res@)),
{
    let v = result_to_json(res);
    crate::json::json_to_string(&v)
}


// ------------------------------------------------------------------
// executable extraction
// ------------------------------------------------------------------
fn json_to_param_exec(v: JsonValue) -> (r: Option<Parameter>)
    ensures
        match r {
            Some(p) => jv_to_param(v@) == Some(p@),
            None => jv_to_param(v@) is None,
        },
{
    match v {
        JsonValue::Obj(mut fs) => {
            if fs.len() != 2 {
                return None;
            }
            proof {
                crate::json::lemma_obj_view(fs);
            }
            let (n0, v0) = fs.remove(0);
            let (n1, v1) = fs.remove(0);
            if !crate::model::compare_str(n0.as_str(), "name") {
                return None;
            }
            if !crate::model::compare_str(n1.as_str(), "value") {
                return None;
            }
            match v0 {
                JsonValue::Str(name) => Some(Parameter { name, value: v1 }),
                _ => None,
            }
        },
        _ => None,
    }
}

#[verifier::loop_isolation(false)]
fn json_to_params_exec(vs: Vec<JsonValue>) -> (r: Option<Vec<Parameter>>)
    ensures
        match r {
            Some(ps) => jv_to_params(crate::json::json_views(vs@)) == Some(params_view(ps@)),
            None => jv_to_params(crate::json::json_views(vs@)) is None,
        },
{
    let ghost orig = crate::json::json_views(vs@);
    let mut rest = vs;
    let mut out: Vec<Parameter> = Vec::new();
    while rest.len() > 0
        invariant
            match jv_to_params(crate::json::json_views(rest@)) {
                Some(tail) => jv_to_params(orig) == Some::<Seq<ParamView>>(
                    params_view(out@) + tail,
                ),
                None => jv_to_params(orig) is None,
            },
        decreases rest@.len(),
    {
        let ghost pre = crate::json::json_views(rest@);
        let ghost out0 = out@;
        let e = rest.remove(0);
        proof {
            assert(pre[0] == e@);
            assert(crate::json::json_views(rest@) =~= pre.skip(1));
        }
        match json_to_param_exec(e) {
            None => {
                proof {
                    assert(jv_to_param(pre[0]) is None);
                    assert(jv_to_params(pre) is None);
                }
                return None;
            },
            Some(p) => {
                out.push(p);
                proof {
                    assert(params_view(out@) =~= params_view(out0).push(p@));
                    match jv_to_params(pre.skip(1)) {
                        Some(tail) => {
                            assert(jv_to_params(pre) == Some::<Seq<ParamView>>(
                                seq![p@] + tail,
                            ));
                            assert(params_view(out0) + (seq![p@] + tail) =~= params_view(out@)
                                + tail);
                        },
                        None => {},
                    }
                }
            },
        }
    }
    proof {
        assert(crate::json::json_views(rest@) =~= Seq::<JsonView>::empty());
        assert(jv_to_params(crate::json::json_views(rest@)) == Some(Seq::<ParamView>::empty()));
        assert(params_view(out@) + Seq::<ParamView>::empty() =~= params_view(out@));
    }
    Some(out)
}

fn json_to_artifact_exec(v: JsonValue) -> (r: Option<ArtifactRef>)
    ensures
        match r {
            Some(a) => jv_to_artifact(v@) == Some(a@),
            None => jv_to_artifact(v@) is None,
        },
{
    match v {
        JsonValue::Obj(mut fs) => {
            if fs.len() != 2 && fs.len() != 3 {
                return None;
            }
            proof {
                crate::json::lemma_obj_view(fs);
            }
            let (n0, v0) = fs.remove(0);
            let (n1, v1) = fs.remove(0);
            if !crate::model::compare_str(n0.as_str(), "name") {
                return None;
            }
            if !crate::model::compare_str(n1.as_str(), "path") {
                return None;
            }
            let name = match v0 {
                JsonValue::Str(name) => name,
                _ => {
                    return None;
                },
            };
            let path = match v1 {
                JsonValue::Str(path) => path,
                _ => {
                    return None;
                },
            };
            if fs.len() == 0 {
                Some(ArtifactRef { name, path, s3: None })
            } else {
                let (n2, v2) = fs.remove(0);
                if !crate::model::compare_str(n2.as_str(), "s3") {
                    return None;
                }
                match v2 {
                    JsonValue::Obj(mut s3fs) => {
                        if s3fs.len() != 1 {
                            return None;
                        }
                        proof {
                            crate::json::lemma_obj_view(s3fs);
                        }
                        let (kn, kv) = s3fs.remove(0);
                        if !crate::model::compare_str(kn.as_str(), "key") {
                            return None;
                        }
                        match kv {
                            JsonValue::Str(key) => Some(
                                ArtifactRef {
                                    name,
                                    path,
                                    s3: Some(crate::model::S3Artifact { key }),
                                },
                            ),
                            _ => None,
                        }
                    },
                    _ => None,
                }
            }
        },
        _ => None,
    }
}

#[verifier::loop_isolation(false)]
fn json_to_artifacts_exec(vs: Vec<JsonValue>) -> (r: Option<Vec<ArtifactRef>>)
    ensures
        match r {
            Some(xs) => jv_to_artifacts(crate::json::json_views(vs@)) == Some(
                artifacts_view(xs@),
            ),
            None => jv_to_artifacts(crate::json::json_views(vs@)) is None,
        },
{
    let ghost orig = crate::json::json_views(vs@);
    let mut rest = vs;
    let mut out: Vec<ArtifactRef> = Vec::new();
    while rest.len() > 0
        invariant
            match jv_to_artifacts(crate::json::json_views(rest@)) {
                Some(tail) => jv_to_artifacts(orig) == Some::<Seq<ArtifactRefView>>(
                    artifacts_view(out@) + tail,
                ),
                None => jv_to_artifacts(orig) is None,
            },
        decreases rest@.len(),
    {
        let ghost pre = crate::json::json_views(rest@);
        let ghost out0 = out@;
        let e = rest.remove(0);
        proof {
            assert(pre[0] == e@);
            assert(crate::json::json_views(rest@) =~= pre.skip(1));
        }
        match json_to_artifact_exec(e) {
            None => {
                proof {
                    assert(jv_to_artifact(pre[0]) is None);
                    assert(jv_to_artifacts(pre) is None);
                }
                return None;
            },
            Some(a) => {
                out.push(a);
                proof {
                    assert(artifacts_view(out@) =~= artifacts_view(out0).push(a@));
                    match jv_to_artifacts(pre.skip(1)) {
                        Some(tail) => {
                            assert(jv_to_artifacts(pre) == Some::<Seq<ArtifactRefView>>(
                                seq![a@] + tail,
                            ));
                            assert(artifacts_view(out0) + (seq![a@] + tail) =~= artifacts_view(
                                out@,
                            ) + tail);
                        },
                        None => {},
                    }
                }
            },
        }
    }
    proof {
        assert(crate::json::json_views(rest@) =~= Seq::<JsonView>::empty());
        assert(artifacts_view(out@) + Seq::<ArtifactRefView>::empty() =~= artifacts_view(out@));
    }
    Some(out)
}

fn json_to_outputs_exec(v: JsonValue) -> (r: Option<Outputs>)
    ensures
        match r {
            Some(o) => jv_to_outputs(v@) == Some(o@),
            None => jv_to_outputs(v@) is None,
        },
{
    match v {
        JsonValue::Obj(mut fs) => {
            if fs.len() != 2 {
                return None;
            }
            proof {
                crate::json::lemma_obj_view(fs);
            }
            let (n0, v0) = fs.remove(0);
            let (n1, v1) = fs.remove(0);
            if !crate::model::compare_str(n0.as_str(), "artifacts") {
                return None;
            }
            if !crate::model::compare_str(n1.as_str(), "parameters") {
                return None;
            }
            let xs = match v0 {
                JsonValue::Arr(xs) => xs,
                _ => {
                    return None;
                },
            };
            let ps = match v1 {
                JsonValue::Arr(ps) => ps,
                _ => {
                    return None;
                },
            };
            proof {
                crate::json::lemma_arr_view(xs);
                crate::json::lemma_arr_view(ps);
            }
            match (json_to_artifacts_exec(xs), json_to_params_exec(ps)) {
                (Some(artifacts), Some(parameters)) => Some(Outputs { artifacts, parameters }),
                _ => None,
            }
        },
        _ => None,
    }
}

/// Reads a result out of its JSON value.
pub fn json_to_result(v: JsonValue) -> (r: Option<PluginResult>)
    ensures
        match r {
            Some(res) => jv_to_result(v@) == Some(res@),
            None => jv_to_result(v@) is None,
        },
{
    match v {
        JsonValue::Obj(mut fs) => {
            if fs.len() != 3 {
                return None;
            }
            proof {
                crate::json::lemma_obj_view(fs);
            }
            let (n0, v0) = fs.remove(0);
            let (n1, v1) = fs.remove(0);
            let (n2, v2) = fs.remove(0);
            if !crate::model::compare_str(n0.as_str(), "phase") {
                return None;
            }
            if !crate::model::compare_str(n1.as_str(), "message") {
                return None;
            }
            if !crate::model::compare_str(n2.as_str(), "outputs") {
                return None;
            }
            let phase = match v0 {
                JsonValue::Str(ph) => match Phase::from_str(ph.as_str()) {
                    Ok(p) => p,
                    Err(_) => {
                        return None;
                    },
                },
                _ => {
                    return None;
                },
            };
            let message = match v1 {
                JsonValue::Str(m) => m,
                _ => {
                    return None;
                },
            };
            match json_to_outputs_exec(v2) {
                Some(outputs) => Some(PluginResult { phase, message, outputs }),
                None => None,
            }
        },
        _ => None,
    }
}

/// Reads an invocation out of its JSON value.
pub fn json_to_invocation(v: JsonValue) -> (r: Option<PluginInvocation>)
    ensures
        match r {
            Some(inv) => jv_to_invocation(v@) == Some(inv@),
            None => jv_to_invocation(v@) is None,
        },
{
    match v {
        JsonValue::Obj(mut fs) => {
            if fs.len() != 4 {
                return None;
            }
            proof {
                crate::json::lemma_obj_view(fs);
            }
            let (n0, v0) = fs.remove(0);
            let (n1, v1) = fs.remove(0);
            let (n2, v2) = fs.remove(0);
            let (n3, v3) = fs.remove(0);
            if !crate::model::compare_str(n0.as_str(), "workflow_name") {
                return None;
            }
            if !crate::model::compare_str(n1.as_str(), "plugin_options") {
                return None;
            }
            if !crate::model::compare_str(n2.as_str(), "parameters") {
                return None;
            }
            if !crate::model::compare_str(n3.as_str(), "artifacts") {
                return None;
            }
            let workflow_name = match v0 {
                JsonValue::Str(w) => w,
                _ => {
                    return None;
                },
            };
            let opts = match v1 {
                JsonValue::Arr(es) => es,
                _ => {
                    return None;
                },
            };
            let ps = match v2 {
                JsonValue::Arr(es) => es,
                _ => {
                    return None;
                },
            };
            let xs = match v3 {
                JsonValue::Arr(es) => es,
                _ => {
                    return None;
                },
            };
            proof {
                crate::json::lemma_arr_view(opts);
                crate::json::lemma_arr_view(ps);
                crate::json::lemma_arr_view(xs);
            }
            match (json_to_params_exec(opts), json_to_params_exec(ps), json_to_artifacts_exec(
                xs,
            )) {
                (Some(plugin_options), Some(parameters), Some(artifacts)) => Some(
                    PluginInvocation { workflow_name, plugin_options, parameters, artifacts },
                ),
                _ => None,
            }
        },
        _ => None,
    }
}

// ------------------------------------------------------------------
// the protocol files
// ------------------------------------------------------------------
/// What `result.json` text yields: the whole text as one JSON value, read
/// back as a result.
pub open spec fn spec_parse_result(s: Seq<char>) -> Option<PluginResultView> {
    match crate::json::spec_parse_json(s) {
        Some(v) => jv_to_result(v),
        None => None,
    }
}

pub open spec fn spec_parse_invocation(s: Seq<char>) -> Option<PluginInvocationView> {
    match crate::json::spec_parse_json(s) {
        Some(v) => jv_to_invocation(v),
        None => None,
    }
}

/// Parses the content of `result.json`.
pub fn parse_result(s: &str) -> (r: Option<PluginResult>)
    ensures
        match r {
            Some(res) => spec_parse_result(s@) == Some(res@),
            None => spec_parse_result(s@) is None,
        },
{
    match crate::json::parse_json(s) {
        Some(v) => json_to_result(v),
        None => None,
    }
}

/// Parses the content of `input.json`.
pub fn parse_invocation(s: &str) -> (r: Option<PluginInvocation>)
    ensures
        match r {
            Some(inv) => spec_parse_invocation(s@) == Some(inv@),
            None => spec_parse_invocation(s@) is None,
        },
{
    match crate::json::parse_json(s) {
        Some(v) => json_to_invocation(v),
        None => None,
    }
}

// ------------------------------------------------------------------
// the protocol round-trip laws
// ------------------------------------------------------------------
/// Every number a run of parameters carries fits 64 bits.
pub open spec fn params_wf(ps: Seq<ParamView>) -> bool {
    forall|i: int| 0 <= i < ps.len() ==> crate::json::json_wf(#[trigger] ps[i].value)
}

proof fn lemma_params_json_wf(ps: Seq<ParamView>)
    requires
        params_wf(ps),
    ensures
        forall|i: int|
            0 <= i < params_json(ps).len() ==> crate::json::json_wf(#[trigger] params_json(ps)[i]),
{
    assert forall|i: int| 0 <= i < params_json(ps).len() implies crate::json::json_wf(
        #[trigger] params_json(ps)[i],
    ) by {
        assert(params_json(ps)[i] == param_json(ps[i]));
        assert(crate::json::json_wf(ps[i].value));
        let fs = param_json(ps[i])->Obj_0;
        assert forall|j: int| 0 <= j < fs.len() implies crate::json::json_wf(
            (#[trigger] fs[j]).1,
        ) by {
            if j == 0 {
                assert(fs[0].1 == JsonView::Str(ps[i].name));
            } else {
                assert(fs[1].1 == ps[i].value);
            }
        }
    }
}

proof fn lemma_artifacts_json_wf(xs: Seq<ArtifactRefView>)
    ensures
        forall|i: int|
            0 <= i < artifacts_json(xs).len() ==> crate::json::json_wf(
                #[trigger] artifacts_json(xs)[i],
            ),
{
    assert forall|i: int| 0 <= i < artifacts_json(xs).len() implies crate::json::json_wf(
        #[trigger] artifacts_json(xs)[i],
    ) by {
        assert(artifacts_json(xs)[i] == artifact_json(xs[i]));
        let fs = artifact_json(xs[i])->Obj_0;
        assert forall|j: int| 0 <= j < fs.len() implies crate::json::json_wf(
            (#[trigger] fs[j]).1,
        ) by {
            match xs[i].s3 {
                None => {
                    assert(fs[j].1 is Str);
                },
                Some(key) => {
                    if j < 2 {
                        assert(fs[j].1 is Str);
                    } else {
                        assert(fs[2].1 == JsonView::Obj(
                            seq![("key"@, JsonView::Str(key))],
                        ));
                        let s3fs = fs[2].1->Obj_0;
                        assert(forall|k: int| 0 <= k < s3fs.len() ==> crate::json::json_wf(
                            (#[trigger] s3fs[k]).1,
                        )) by {
                            assert(s3fs[0].1 is Str);
                        }
                    }
                },
            }
        }
    }
}

proof fn lemma_outputs_json_wf(o: OutputsView)
    requires
        params_wf(o.parameters),
    ensures
        crate::json::json_wf(outputs_json(o)),
{
    lemma_params_json_wf(o.parameters);
    lemma_artifacts_json_wf(o.artifacts);
    let fs = outputs_json(o)->Obj_0;
    assert forall|j: int| 0 <= j < fs.len() implies crate::json::json_wf(
        (#[trigger] fs[j]).1,
    ) by {
        if j == 0 {
            assert(fs[0].1 == JsonView::Arr(artifacts_json(o.artifacts)));
        } else {
            assert(fs[1].1 == JsonView::Arr(params_json(o.parameters)));
        }
    }
}

/// A result written by the in-module harness and read back is the same
/// result, up to the JSON shapes of its parameter values.
pub proof fn lemma_result_file_round_trip(r: PluginResultView)
    requires
        params_wf(r.outputs.parameters),
    ensures
        spec_parse_result(crate::json::spec_json(result_json(r))) == Some(r),
{
    lemma_outputs_json_wf(r.outputs);
    assert(crate::json::json_wf(result_json(r))) by {
        let fs = result_json(r)->Obj_0;
        assert forall|j: int| 0 <= j < fs.len() implies crate::json::json_wf(
            (#[trigger] fs[j]).1,
        ) by {
            if j == 0 {
                assert(fs[0].1 == JsonView::Str(phase_chars(r.phase)));
            } else if j == 1 {
                assert(fs[1].1 == JsonView::Str(r.message));
            } else {
                assert(fs[2].1 == outputs_json(r.outputs));
            }
        }
    }
    crate::json::lemma_json_round_trip(result_json(r));
    lemma_result_round_trip(r);
}

/// An invocation serialised to `input.json` and re-parsed is the same
/// invocation.
pub proof fn lemma_input_file_round_trip(iv: PluginInvocationView)
    requires
        params_wf(iv.plugin_options),
        params_wf(iv.parameters),
    ensures
        spec_parse_invocation(crate::json::spec_json(invocation_json(iv))) == Some(iv),
{
    lemma_params_json_wf(iv.plugin_options);
    lemma_params_json_wf(iv.parameters);
    lemma_artifacts_json_wf(iv.artifacts);
    assert(crate::json::json_wf(invocation_json(iv))) by {
        let fs = invocation_json(iv)->Obj_0;
        assert forall|j: int| 0 <= j < fs.len() implies crate::json::json_wf(
            (#[trigger] fs[j]).1,
        ) by {
            if j == 0 {
                assert(fs[0].1 == JsonView::Str(iv.workflow_name));
            } else if j == 1 {
                assert(fs[1].1 == JsonView::Arr(params_json(iv.plugin_options)));
            } else if j == 2 {
                assert(fs[2].1 == JsonView::Arr(params_json(iv.parameters)));
            } else {
                assert(fs[3].1 == JsonView::Arr(artifacts_json(iv.artifacts)));
            }
        }
    }
    crate::json::lemma_json_round_trip(invocation_json(iv));
    lemma_invocation_round_trip(iv);
}

/// The views of an executable invocation always satisfy the round-trip
/// premise: their numbers are 64-bit.
pub proof fn lemma_invocation_view_wf(inv: PluginInvocation)
    ensures
        params_wf(inv@.plugin_options),
        params_wf(inv@.parameters),
{
    assert forall|i: int| 0 <= i < inv@.plugin_options.len() implies crate::json::json_wf(
        #[trigger] inv@.plugin_options[i].value,
    ) by {
        crate::json::lemma_json_view_wf(inv.plugin_options@[i].value);
    }
    assert forall|i: int| 0 <= i < inv@.parameters.len() implies crate::json::json_wf(
        #[trigger] inv@.parameters[i].value,
    ) by {
        crate::json::lemma_json_view_wf(inv.parameters@[i].value);
    }
}

/// The views of an executable result always satisfy the round-trip premise.
pub proof fn lemma_result_view_wf(res: PluginResult)
    ensures
        params_wf(res@.outputs.parameters),
{
    assert forall|i: int| 0 <= i < res@.outputs.parameters.len() implies crate::json::json_wf(
        #[trigger] res@.outputs.parameters[i].value,
    ) by {
        crate::json::lemma_json_view_wf(res.outputs.parameters@[i].value);
    }
}

} // verus!
