//! Process configuration as it concerns the dispatcher: the execution mode,
//! logging, and the pieces needed to reach the cluster API.

use vstd::prelude::*;
use vstd::string::StringExecFns;

verus! {

/// Verbosity of the process's logging.
pub enum LogLevel {
    Info,
    Debug,
    Trace,
}

impl LogLevel {
    pub fn to_str(&self) -> (r: &str)
        ensures
            match self {
                LogLevel::Info => r@ == "Info"@,
                LogLevel::Debug => r@ == "Debug"@,
                LogLevel::Trace => r@ == "Trace"@,
            },
    {
        match self {
            LogLevel::Info => "Info",
            LogLevel::Debug => "Debug",
            LogLevel::Trace => "Trace",
        }
    }

    /// Parses the lowercase level names accepted on the command line.
    pub fn from_str(s: &str) -> (r: Result<LogLevel, ()>)
        ensures
            s@ == "info"@ ==> r == Ok::<LogLevel, ()>(LogLevel::Info),
            s@ == "debug"@ ==> r == Ok::<LogLevel, ()>(LogLevel::Debug),
            s@ == "trace"@ ==> r == Ok::<LogLevel, ()>(LogLevel::Trace),
            s@ != "info"@ && s@ != "debug"@ && s@ != "trace"@ ==> r == Err::<LogLevel, ()>(()),
    {
        proof {
            reveal_strlit("info");
            reveal_strlit("debug");
            reveal_strlit("trace");
            assert("info"@.len() == 4 && "debug"@.len() == 5 && "trace"@.len() == 5);
            assert("debug"@[0] == 'd' && "trace"@[0] == 't');
            assert("debug"@ != "trace"@);
        }
        if crate::model::compare_str(s, "info") {
            Ok(LogLevel::Info)
        } else if crate::model::compare_str(s, "debug") {
            Ok(LogLevel::Debug)
        } else if crate::model::compare_str(s, "trace") {
            Ok(LogLevel::Trace)
        } else {
            Err(())
        }
    }

}

impl Default for LogLevel {
    /// The level used when none is configured.
    fn default() -> (r: LogLevel)
        ensures
            r == LogLevel::Info,
    {
        LogLevel::Info
    }
}

/// Which executor the dispatcher routes to.
pub enum Mode {
    Local,
    Distributed,
}

impl Mode {
    pub fn to_str(&self) -> (r: &str)
        ensures
            match self {
                Mode::Local => r@ == "Local"@,
                Mode::Distributed => r@ == "Distributed"@,
            },
    {
        match self {
            Mode::Local => "Local",
            Mode::Distributed => "Distributed",
        }
    }

    pub fn to_string(&self) -> (r: String)
        ensures
            match self {
                Mode::Local => r@ == "Local"@,
                Mode::Distributed => r@ == "Distributed"@,
            },
    {
        self.to_str().to_owned()
    }

    /// Parses the lowercase mode names accepted on the command line.
    pub fn from_str(s: &str) -> (r: Result<Mode, ()>)
        ensures
            s@ == "local"@ ==> r == Ok::<Mode, ()>(Mode::Local),
            s@ == "distributed"@ ==> r == Ok::<Mode, ()>(Mode::Distributed),
            s@ != "local"@ && s@ != "distributed"@ ==> r == Err::<Mode, ()>(()),
    {
        proof {
            reveal_strlit("local");
            reveal_strlit("distributed");
            assert("local"@.len() == 5 && "distributed"@.len() == 11);
        }
        if crate::model::compare_str(s, "local") {
            Ok(Mode::Local)
        } else if crate::model::compare_str(s, "distributed") {
            Ok(Mode::Distributed)
        } else {
            Err(())
        }
    }

}

impl Default for Mode {
    /// The mode used when none is configured.
    fn default() -> (r: Mode)
        ensures
            r == Mode::Local,
    {
        Mode::Local
    }
}

/// The result of base64-encoding a byte run.
pub uninterp spec fn base64_of(data: Seq<u8>) -> Seq<char>;

/// Relies on base64::encode with the standard alphabet: the text is a
/// function of the input bytes, and empty input encodes to empty text.
#[verifier::external_body]
fn base64_encode(data: &[u8]) -> (r: String)
    ensures
        r@ == base64_of(data@),
        data@.len() == 0 ==> r@.len() == 0,
{
    base64::encode(data)
}

/// Settings the dispatcher reads; everything is immutable after startup.
pub struct Config {
    pub bind_ip: String,
    pub bind_port: u16,
    pub insecure_oci_registries: Vec<String>,
    pub fs_cache_dir: Option<String>,
    pub log_level: Option<LogLevel>,
    pub enable_telemetry: bool,
    pub mode: Option<Mode>,
    pub plugin_namespace: Option<String>,
    pub argo_controller_configmap: Option<String>,
    pub k8s_api_url: Option<String>,
    pub k8s_api_ca_crt: Option<String>,
    pub k8s_api_ca_crt_b64: Option<String>,
    pub k8s_api_namespace: Option<String>,
    pub k8s_api_token: Option<String>,
    pub distributed_wait_duration: u16,
}

impl Config {
    pub fn log_level(&self) -> (r: LogLevel)
        ensures
            match self.log_level {
                Some(l) => r == l,
                None => r == LogLevel::Info,
            },
    {
        match &self.log_level {
            Some(LogLevel::Info) => LogLevel::Info,
            Some(LogLevel::Debug) => LogLevel::Debug,
            Some(LogLevel::Trace) => LogLevel::Trace,
            None => LogLevel::default(),
        }
    }

    pub fn mode(&self) -> (r: Mode)
        ensures
            match self.mode {
                Some(m) => r == m,
                None => r == Mode::Local,
            },
    {
        match &self.mode {
            Some(Mode::Local) => Mode::Local,
            Some(Mode::Distributed) => Mode::Distributed,
            None => Mode::default(),
        }
    }

    /// The cluster CA certificate, base64-encoded: an already-encoded value
    /// wins, a plain one is encoded, and absence of both means none.
    pub fn k8s_api_ca_crt(&self) -> (r: Option<String>)
        ensures
            match self.k8s_api_ca_crt_b64 {
                Some(ref b64) => r matches Some(v) && v@ == b64@,
                None => match self.k8s_api_ca_crt {
                    Some(ref plain) => r matches Some(v) && v@ == base64_of(
                        vstd::utf8::encode_utf8(plain@),
                    ),
                    None => r is None,
                },
            },
    {
        if let Some(b64) = &self.k8s_api_ca_crt_b64 {
            return Some(b64.as_str().to_owned());
        }
        if let Some(plain) = &self.k8s_api_ca_crt {
            let encoded = base64_encode(plain.as_str().as_bytes());
            return Some(encoded);
        }
        None
    }

    /// Whether the four pieces of an explicit cluster configuration are all
    /// present; only then is a kubeconfig assembled from them rather than
    /// inferred from the environment.
    pub fn has_complete_kubeconfig(&self) -> (r: bool)
        ensures
            r <==> (self.k8s_api_url is Some && (self.k8s_api_ca_crt is Some
                || self.k8s_api_ca_crt_b64 is Some) && self.k8s_api_namespace is Some
                && self.k8s_api_token is Some),
    {
        self.k8s_api_url.is_some() && (self.k8s_api_ca_crt.is_some()
            || self.k8s_api_ca_crt_b64.is_some()) && self.k8s_api_namespace.is_some()
            && self.k8s_api_token.is_some()
    }
}

} // verus!
