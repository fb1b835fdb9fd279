//! Artifact staging against the S3-compatible object store: where inputs
//! are placed in the working directory, and under which keys outputs are
//! uploaded.

use vstd::prelude::*;
use vstd::string::StringExecFns;

use rand::Rng;

use crate::json::{spec_digits, write_digits_string};
use crate::model::{ArtifactRef, S3Artifact, S3ArtifactRepositoryConfig};

verus! {

/// The guest path of the working directory inside the sandbox.
pub fn working_dir_plugin_path() -> (r: String)
    ensures
        r@ == "/work"@,
{
    "/work".to_owned()
}

/// The subdirectory input artifacts are downloaded into.
pub fn input_artifacts_path() -> (r: String)
    ensures
        r@ == "artifacts-in"@,
{
    "artifacts-in".to_owned()
}

/// The subdirectory output artifacts are read from.
pub fn output_artifacts_path() -> (r: String)
    ensures
        r@ == "artifacts-out"@,
{
    "artifacts-out".to_owned()
}

/// The file the invocation is handed to the module in.
pub fn input_file_name() -> (r: String)
    ensures
        r@ == "input.json"@,
{
    "input.json".to_owned()
}

/// The file the module reports its result in.
pub fn result_file_name() -> (r: String)
    ensures
        r@ == "result.json"@,
{
    "result.json".to_owned()
}

/// Relies on rand::Rng::gen_range over rand::thread_rng: yields a uniformly
/// random number in the given half-open range, so always a ten-digit decimal.
#[verifier::external_body]
fn artifact_random_number() -> (r: u64)
    ensures
        1000000000 <= r < 10000000000,
{
    rand::thread_rng().gen_range(1000000000u64..10000000000u64)
}

/// The deterministic shape of an object-store upload key:
/// `<workflow>/<workflow>-<number>/<name>`.
pub open spec fn spec_upload_key(workflow: Seq<char>, n: nat, name: Seq<char>) -> Seq<char> {
    workflow + seq!['/'] + workflow + seq!['-'] + spec_digits(n) + seq!['/'] + name
}

/// Ten-to-the-`k`.
pub open spec fn pow10(k: nat) -> nat
    decreases k,
{
    if k == 0 {
        1
    } else {
        10 * pow10((k - 1) as nat)
    }
}

/// A number below ten to the `k` has at most `k` decimal digits, and one at
/// least ten to the `k - 1` has at least `k`: the upload key's random part
/// is always exactly ten digits.
pub proof fn lemma_digits_len(n: nat, k: nat)
    requires
        k >= 1,
        pow10((k - 1) as nat) <= n < pow10(k),
    ensures
        spec_digits(n).len() == k,
    decreases k,
{
    if k == 1 {
        assert(pow10(0) == 1);
        assert(pow10(1) == 10);
    } else {
        assert(pow10(k) == 10 * pow10((k - 1) as nat));
        assert(pow10((k - 1) as nat) == 10 * pow10((k - 2) as nat));
        assert(n >= 10) by {
            assert(pow10((k - 2) as nat) >= 1) by {
                lemma_pow10_pos((k - 2) as nat);
            }
        }
        lemma_digits_len(n / 10, (k - 1) as nat);
    }
}

proof fn lemma_pow10_pos(k: nat)
    ensures
        pow10(k) >= 1,
    decreases k,
{
    if k > 0 {
        lemma_pow10_pos((k - 1) as nat);
    }
}

/// Every character of a decimal digit run is a decimal digit, so no slash
/// or dash can hide in the key's random part.
pub proof fn lemma_upload_key_shape(workflow: Seq<char>, n: nat, name: Seq<char>)
    requires
        1000000000 <= n < 10000000000,
    ensures
        ({
            let key = spec_upload_key(workflow, n, name);
            &&& key.len() == workflow.len() * 2 + name.len() + 13
            &&& key.subrange(0, workflow.len() as int) == workflow
            &&& key[workflow.len() as int] == '/'
            &&& key.subrange(
                workflow.len() as int + 1,
                2 * workflow.len() as int + 1,
            ) == workflow
            &&& key[2 * workflow.len() as int + 1] == '-'
            &&& key.subrange(
                2 * workflow.len() as int + 2,
                2 * workflow.len() as int + 12,
            ) == spec_digits(n)
            &&& spec_digits(n).len() == 10
            &&& forall|i: int|
                0 <= i < 10 ==> crate::json::is_digit(#[trigger] spec_digits(n)[i])
            &&& key[2 * workflow.len() as int + 12] == '/'
            &&& key.subrange(2 * workflow.len() as int + 13, key.len() as int) == name
        }),
{
    assert(pow10(0) == 1);
    assert(pow10(1) == 10);
    assert(pow10(2) == 100);
    assert(pow10(3) == 1000);
    assert(pow10(4) == 10000);
    assert(pow10(5) == 100000);
    assert(pow10(6) == 1000000);
    assert(pow10(7) == 10000000);
    assert(pow10(8) == 100000000);
    assert(pow10(9) == 1000000000);
    assert(pow10(10) == 10000000000);
    lemma_digits_len(n, 10);
    crate::json::lemma_digits_all(n);
    let key = spec_upload_key(workflow, n, name);
    assert(key.subrange(0, workflow.len() as int) =~= workflow);
    assert(key.subrange(workflow.len() as int + 1, 2 * workflow.len() as int + 1) =~= workflow);
    assert(key.subrange(2 * workflow.len() as int + 2, 2 * workflow.len() as int + 12)
        =~= spec_digits(n));
    assert(key.subrange(2 * workflow.len() as int + 13, key.len() as int) =~= name);
}

/// Builds the object-store key a fresh output artifact is uploaded under.
pub fn upload_key(workflow_name: &str, artifact_name: &str) -> (r: String)
    ensures
        exists|n: nat|
            1000000000 <= n < 10000000000 && r@ == spec_upload_key(
                workflow_name@,
                n,
                artifact_name@,
            ),
{
    let n = artifact_random_number();
    let mut key = workflow_name.to_owned();
    key.append("/");
    key.append(workflow_name);
    key.append("-");
    key.append(write_digits_string(n).as_str());
    key.append("/");
    key.append(artifact_name);
    proof {
        reveal_strlit("/");
        reveal_strlit("-");
        assert(key@ =~= spec_upload_key(workflow_name@, n as nat, artifact_name@));
    }
    key
}

/// The artifact as reported after upload: the same name and path, with the
/// object-store key filled in.
pub fn artifact_with_key(artifact: &ArtifactRef, key: String) -> (r: ArtifactRef)
    ensures
        r.name@ == artifact.name@,
        r.path@ == artifact.path@,
        r.s3 matches Some(s3) && s3.key@ == key@,
{
    ArtifactRef {
        name: artifact.name.as_str().to_owned(),
        path: artifact.path.as_str().to_owned(),
        s3: Some(S3Artifact { key }),
    }
}

/// Where a named input artifact must be fetched from and placed: a download
/// requires the artifact to carry an object-store key, and its target is
/// the artifact's path (leading slash stripped) under `artifacts-in/`.
pub fn download_plan(artifact: &ArtifactRef) -> (r: Result<(String, String), String>)
    ensures
        artifact.s3 is Some <==> r is Ok,
        r matches Ok((key, rel_path)) ==> (artifact.s3 matches Some(s3) && key@ == s3.key@)
            && rel_path@ == crate::model::spec_working_dir_path(artifact.path@),
{
    match &artifact.s3 {
        Some(s3) => Ok(
            (s3.key.as_str().to_owned(), artifact.working_dir_path().to_owned()),
        ),
        None => {
            let mut msg = "expected artifact to be on s3: ".to_owned();
            msg.append(artifact.name.as_str());
            Err(msg)
        },
    }
}

/// The endpoint URL the store is addressed by: plaintext only when the
/// bundle says the endpoint is insecure.
pub fn endpoint_url(cfg: &S3ArtifactRepositoryConfig) -> (r: String)
    ensures
        cfg.insecure ==> r@ == "http://"@ + cfg.endpoint@,
        !cfg.insecure ==> r@ == "https://"@ + cfg.endpoint@,
{
    let mut url = if cfg.insecure {
        "http://".to_owned()
    } else {
        "https://".to_owned()
    };
    url.append(cfg.endpoint.as_str());
    url
}

} // verus!
