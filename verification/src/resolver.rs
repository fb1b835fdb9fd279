//! The startup-time resolver that turns the workflow controller's ConfigMap
//! and its referenced Secrets into one object-store credential bundle.
//!
//! The cluster reads and the YAML decoding happen in the shell around the
//! library; this module holds the decisions: which keys must exist, how the
//! secret bytes become text, and how the bundle is assembled.

use vstd::prelude::*;
use vstd::string::StringExecFns;

use crate::model::S3ArtifactRepositoryConfig;

verus! {

/// A reference to one key of one Secret.
pub struct SecretRef {
    pub name: String,
    pub key: String,
}

/// The `s3` section of the controller's `artifactRepository` entry, already
/// decoded into plain values.
pub struct S3ConfigParts {
    pub access_key_secret: SecretRef,
    pub secret_key_secret: SecretRef,
    pub bucket: String,
    pub endpoint: String,
    pub region: String,
    pub insecure: bool,
    pub path_style_endpoint: bool,
}

/// The first value stored under `key`, if any.
pub open spec fn spec_lookup(data: Seq<(Seq<char>, Seq<u8>)>, key: Seq<char>) -> Option<Seq<u8>>
    decreases data.len(),
{
    if data.len() == 0 {
        None
    } else if data[0].0 == key {
        Some(data[0].1)
    } else {
        spec_lookup(data.skip(1), key)
    }
}

pub open spec fn entries_view(data: Seq<(String, Vec<u8>)>) -> Seq<(Seq<char>, Seq<u8>)> {
    Seq::new(
        data.len(),
        |i: int|
            if 0 <= i < data.len() {
                (data[i].0@, data[i].1@)
            } else {
                (Seq::empty(), Seq::empty())
            },
    )
}

/// Relies on String::from_utf8: decodes exactly the bytes that are valid
/// UTF-8, to the characters they encode.
#[verifier::external_body]
fn string_from_utf8(bytes: Vec<u8>) -> (r: Option<String>)
    ensures
        r matches Some(s) ==> s@ == vstd::utf8::decode_utf8(bytes@) && vstd::utf8::valid_utf8(
            bytes@,
        ),
        r is None ==> !vstd::utf8::valid_utf8(bytes@),
{
    String::from_utf8(bytes).ok()
}

/// Finds the named key in a secret's data.
fn lookup(data: &Vec<(String, Vec<u8>)>, key: &str) -> (r: Option<Vec<u8>>)
    ensures
        match r {
            Some(v) => spec_lookup(entries_view(data@), key@) == Some(v@),
            None => spec_lookup(entries_view(data@), key@) is None,
        },
{
    let ghost orig = entries_view(data@);
    proof {
        assert(orig.skip(0) =~= orig);
    }
    let mut i: usize = 0;
    while i < data.len()
        invariant
            i <= data@.len(),
            orig == entries_view(data@),
            spec_lookup(orig, key@) == spec_lookup(orig.skip(i as int), key@),
        decreases data@.len() - i,
    {
        proof {
            assert(orig.skip(i as int)[0] == orig[i as int]);
            assert(orig.skip(i as int).skip(1) =~= orig.skip(i + 1));
        }
        if crate::model::compare_str(data[i].0.as_str(), key) {
            let mut out: Vec<u8> = Vec::new();
            let bytes = &data[i].1;
            let mut j: usize = 0;
            while j < bytes.len()
                invariant
                    j <= bytes@.len(),
                    out@ =~= bytes@.take(j as int),
                decreases bytes@.len() - j,
            {
                out.push(bytes[j]);
                proof {
                    assert(bytes@.take(j + 1) =~= bytes@.take(j as int).push(bytes@[j as int]));
                }
                j = j + 1;
            }
            proof {
                assert(bytes@.take(bytes@.len() as int) =~= bytes@);
            }
            return Some(out);
        }
        i = i + 1;
    }
    proof {
        assert(orig.skip(data@.len() as int) =~= Seq::<(Seq<char>, Seq<u8>)>::empty());
    }
    None
}

/// Why the resolver could not produce a credential bundle.
#[derive(Debug, Clone, Copy, PartialEq, Eq)]
pub enum ResolveError {
    /// The named key is absent from its Secret's data.
    MissingKey,
    /// A secret value is not UTF-8 text.
    NotText,
}

/// Extracts one credential from a secret's data: the bytes under the
/// referenced key, decoded as UTF-8.
pub fn resolve_secret_value(data: &Vec<(String, Vec<u8>)>, secret_ref: &SecretRef) -> (r: Result<
    String,
    ResolveError,
>)
    ensures
        match r {
            Ok(s) => spec_lookup(entries_view(data@), secret_ref.key@) matches Some(bytes) && s@
                == vstd::utf8::decode_utf8(bytes) && vstd::utf8::valid_utf8(bytes),
            Err(ResolveError::MissingKey) => spec_lookup(entries_view(data@), secret_ref.key@)
                is None,
            Err(ResolveError::NotText) => spec_lookup(entries_view(data@), secret_ref.key@)
                matches Some(bytes) && !vstd::utf8::valid_utf8(bytes),
        },
{
    match lookup(data, secret_ref.key.as_str()) {
        Some(bytes) => match string_from_utf8(bytes) {
            Some(s) => Ok(s),
            None => Err(ResolveError::NotText),
        },
        None => Err(ResolveError::MissingKey),
    }
}

/// Assembles the process-wide credential bundle from the decoded `s3`
/// section and the two credentials read from the referenced Secrets.
pub fn assemble_s3_config(parts: S3ConfigParts, access_key: String, secret_key: String) -> (r:
    S3ArtifactRepositoryConfig)
    ensures
        r.access_key@ == access_key@,
        r.secret_key@ == secret_key@,
        r.bucket@ == parts.bucket@,
        r.endpoint@ == parts.endpoint@,
        r.region@ == parts.region@,
        r.insecure == parts.insecure,
        r.path_style_endpoint == parts.path_style_endpoint,
{
    S3ArtifactRepositoryConfig {
        access_key,
        secret_key,
        bucket: parts.bucket,
        endpoint: parts.endpoint,
        region: parts.region,
        insecure: parts.insecure,
        path_style_endpoint: parts.path_style_endpoint,
    }
}

/// The ConfigMap key whose value holds the artifact repository description.
pub fn artifact_repository_key() -> (r: String)
    ensures
        r@ == "artifactRepository"@,
{
    "artifactRepository".to_owned()
}

} // verus!
