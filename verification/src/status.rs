//! Reading a workflow's status: the terminal result derived from the
//! `phase` and `progress` fields, and the measurement shapes derived from
//! span timings.

use vstd::prelude::*;
use vstd::string::StringExecFns;

verus! {

/// Which benchmark scenario a workflow runs under.
pub enum Mode {
    WasmLocal,
    WasmDistributed,
    Container,
}

impl Mode {
    pub fn to_str(&self) -> (r: &str)
        ensures
            match self {
                Mode::WasmLocal => r@ == "wasm-local"@,
                Mode::WasmDistributed => r@ == "wasm-distributed"@,
                Mode::Container => r@ == "container"@,
            },
    {
        match self {
            Mode::WasmLocal => "wasm-local",
            Mode::WasmDistributed => "wasm-distributed",
            Mode::Container => "container",
        }
    }

    pub fn to_string(&self) -> (r: String)
        ensures
            match self {
                Mode::WasmLocal => r@ == "wasm-local"@,
                Mode::WasmDistributed => r@ == "wasm-distributed"@,
                Mode::Container => r@ == "container"@,
            },
    {
        self.to_str().to_owned()
    }
}

/// The terminal state of one watched workflow.
#[derive(PartialEq, Eq, Structural, Clone, Copy, Debug)]
pub enum WorkflowResult {
    Succeeded,
    Failed,
    Running,
}

impl WorkflowResult {
    pub fn to_string(&self) -> (r: String)
        ensures
            match self {
                WorkflowResult::Succeeded => r@ == "succeeded"@,
                WorkflowResult::Failed => r@ == "failed"@,
                WorkflowResult::Running => r@ == "running"@,
            },
    {
        match self {
            WorkflowResult::Succeeded => "succeeded".to_owned(),
            WorkflowResult::Failed => "failed".to_owned(),
            WorkflowResult::Running => "running".to_owned(),
        }
    }
}

/// A workflow ready to be submitted: its name, namespace and manifest text.
pub struct SerializedWorkflow {
    pub name: String,
    pub namespace: String,
    pub yaml: String,
}

/// The position of the first `/` at or after `i`, if any.
pub open spec fn find_slash(p: Seq<char>, i: int) -> Option<int>
    decreases p.len() - i,
{
    if i < 0 || i >= p.len() {
        None
    } else if p[i] == '/' {
        Some(i)
    } else {
        find_slash(p, i + 1)
    }
}

/// What a `progress` value of the form `a/b` means: equal halves count as
/// finished (the controller reports `6/6` while the phase may still read
/// `Running`), anything not of that form is unreadable.
pub open spec fn spec_progress_result(p: Seq<char>) -> Result<WorkflowResult, ()> {
    match find_slash(p, 0) {
        None => Err(()),
        Some(i) => if find_slash(p, i + 1) is Some {
            Err(())
        } else if p.take(i) == p.skip(i + 1) {
            Ok(WorkflowResult::Succeeded)
        } else {
            Ok(WorkflowResult::Running)
        },
    }
}

/// The status fields of a watched workflow.
pub struct WorkflowStatus {
    pub progress: String,
    pub phase: String,
}

impl WorkflowStatus {
    /// The result this status denotes: the `phase` decides when terminal;
    /// while `Running`, a full `n/n` progress already counts as success.
    pub fn result(&self) -> (r: Result<WorkflowResult, ()>)
        ensures
            self.phase@ == "Failed"@ ==> r == Ok::<WorkflowResult, ()>(WorkflowResult::Failed),
            self.phase@ == "Succeeded"@ ==> r == Ok::<WorkflowResult, ()>(
                WorkflowResult::Succeeded,
            ),
            self.phase@ == "Running"@ ==> r == spec_progress_result(self.progress@),
            self.phase@ != "Failed"@ && self.phase@ != "Succeeded"@ && self.phase@ != "Running"@
                ==> r == Err::<WorkflowResult, ()>(()),
    {
        proof {
            reveal_strlit("Failed");
            reveal_strlit("Succeeded");
            reveal_strlit("Running");
            assert("Failed"@.len() == 6 && "Succeeded"@.len() == 9 && "Running"@.len() == 7);
            assert("Failed"@[0] == 'F' && "Running"@[0] == 'R');
        }
        if crate::model::compare_str(self.phase.as_str(), "Failed") {
            Ok(WorkflowResult::Failed)
        } else if crate::model::compare_str(self.phase.as_str(), "Succeeded") {
            Ok(WorkflowResult::Succeeded)
        } else if crate::model::compare_str(self.phase.as_str(), "Running") {
            self.progress_result()
        } else {
            Err(())
        }
    }

    fn progress_result(&self) -> (r: Result<WorkflowResult, ()>)
        ensures
            r == spec_progress_result(self.progress@),
    {
        let p = &self.progress;
        let n = p.unicode_len();
        let mut i: usize = 0;
        while i < n && p.get_char(i) != '/'
            invariant
                i <= n,
                n == p@.len(),
                find_slash(p@, 0) == find_slash(p@, i as int),
            decreases n - i,
        {
            i = i + 1;
        }
        if i >= n {
            return Err(());
        }
        let k = i;
        let mut j = k + 1;
        while j < n && p.get_char(j) != '/'
            invariant
                k < j <= n,
                n == p@.len(),
                find_slash(p@, k + 1) == find_slash(p@, j as int),
            decreases n - j,
        {
            j = j + 1;
        }
        if j < n {
            // a second separator: not an `a/b` shape
            return Err(());
        }
        let before = p.as_str().substring_char(0, k);
        let after = p.as_str().substring_char(k + 1, n);
        proof {
            assert(before@ =~= p@.take(k as int));
            assert(after@ =~= p@.skip(k + 1));
        }
        if crate::model::compare_str(before, after) {
            Ok(WorkflowResult::Succeeded)
        } else {
            Ok(WorkflowResult::Running)
        }
    }
}

/// The wall-clock length of one traced invocation in milliseconds, computed
/// from a span duration's seconds and nanoseconds; the conversion saturates
/// instead of wrapping on out-of-range values.
pub fn invocation_duration_ms(seconds: i64, nanos: i32) -> (r: u64)
    ensures
        seconds >= 0 && nanos >= 0 && seconds * 1000 + nanos as int / 1000000 <= u64::MAX as int
            ==> r == seconds * 1000 + nanos as int / 1000000,
        seconds >= 0 && nanos >= 0 && seconds * 1000 + nanos as int / 1000000 > u64::MAX as int
            ==> r == u64::MAX,
        seconds < 0 || nanos < 0 ==> r == 0,
{
    if seconds < 0 || nanos < 0 {
        return 0;
    }
    let ms_from_nanos: u64 = (nanos / 1000000) as u64;
    if seconds as u64 > (u64::MAX - ms_from_nanos) / 1000 {
        return u64::MAX;
    }
    (seconds as u64) * 1000 + ms_from_nanos
}

} // verus!
