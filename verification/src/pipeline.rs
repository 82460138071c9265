use vstd::prelude::*;

use crate::errors::NixModuleError;
use crate::strutil::after_last;

verus! {

// ---------------------------------------------------------------------------
// Steps of one kernel's test run
// ---------------------------------------------------------------------------

/// The ordered steps that exercise one kernel, in pipeline order. In debug
/// mode the module is built and uploaded and the test files are staged, but
/// nothing is loaded or run: the user takes over interactively.
#[derive(Clone, Copy, Debug, PartialEq, Eq, Structural)]
pub enum TestStep {
    /// Build the module against the kernel's headers.
    Build,
    /// Upload the built module into the guest.
    UploadModule,
    /// Load the module inside the guest.
    Insmod,
    /// Upload the test script.
    UploadScript,
    /// Upload the extra staged file at this position.
    UploadExtra(usize),
    /// Run the test script inside the guest.
    RunTest,
}

/// The step list for a run with `n_files` extra staged files.
pub open spec fn spec_test_steps(n_files: nat, debug: bool) -> Seq<TestStep> {
    seq![TestStep::Build, TestStep::UploadModule] + (if debug {
        Seq::empty()
    } else {
        seq![TestStep::Insmod]
    }) + seq![TestStep::UploadScript] + Seq::new(n_files, |i: int| TestStep::UploadExtra(i as usize))
        + (if debug {
        Seq::empty()
    } else {
        seq![TestStep::RunTest]
    })
}

/// Builds the ordered step list for one kernel's run.
pub fn test_steps(n_files: usize, debug: bool) -> (r: Vec<TestStep>)
    ensures
        r@ == spec_test_steps(n_files as nat, debug),
{
    let mut r: Vec<TestStep> = Vec::new();
    r.push(TestStep::Build);
    r.push(TestStep::UploadModule);
    if !debug {
        r.push(TestStep::Insmod);
    }
    r.push(TestStep::UploadScript);
    let ghost head = r@;
    let mut i: usize = 0;
    while i < n_files
        invariant
            i <= n_files,
            r@ == head + Seq::new(i as nat, |j: int| TestStep::UploadExtra(j as usize)),
        decreases n_files - i,
    {
        r.push(TestStep::UploadExtra(i));
        proof {
            assert(r@ =~= head + Seq::new(
                (i + 1) as nat,
                |j: int| TestStep::UploadExtra(j as usize),
            ));
        }
        i = i + 1;
    }
    if !debug {
        r.push(TestStep::RunTest);
    }
    proof {
        assert(r@ =~= spec_test_steps(n_files as nat, debug));
    }
    r
}

/// The failure kind a failing step is classified as: the build step is a
/// build failure; getting the module into the guest and loading it are
/// load failures; staging and running the test are test failures.
pub open spec fn spec_step_error(s: TestStep) -> NixModuleError {
    match s {
        TestStep::Build => NixModuleError::BuildError,
        TestStep::UploadModule => NixModuleError::InsmodError,
        TestStep::Insmod => NixModuleError::InsmodError,
        TestStep::UploadScript => NixModuleError::TestError,
        TestStep::UploadExtra(_) => NixModuleError::TestError,
        TestStep::RunTest => NixModuleError::TestError,
    }
}

/// Executable form of [`spec_step_error`].
pub fn step_error(s: &TestStep) -> (e: NixModuleError)
    ensures
        e == spec_step_error(*s),
{
    match s {
        TestStep::Build => NixModuleError::BuildError,
        TestStep::UploadModule => NixModuleError::InsmodError,
        TestStep::Insmod => NixModuleError::InsmodError,
        TestStep::UploadScript => NixModuleError::TestError,
        TestStep::UploadExtra(_) => NixModuleError::TestError,
        TestStep::RunTest => NixModuleError::TestError,
    }
}

/// Classifies one step's success or failure.
pub fn step_outcome(s: &TestStep, success: bool) -> (r: Result<(), NixModuleError>)
    ensures
        success ==> r is Ok,
        !success ==> r == Result::<(), NixModuleError>::Err(spec_step_error(*s)),
{
    if success {
        Ok(())
    } else {
        Err(step_error(s))
    }
}

/// Index of the first `false` in `results`, or its length when every entry
/// is `true`.
pub open spec fn first_failure(results: Seq<bool>) -> int
    decreases results.len(),
{
    if results.len() == 0 {
        0
    } else if !results[0] {
        0
    } else {
        1 + first_failure(results.drop_first())
    }
}

proof fn lemma_first_failure(results: Seq<bool>, k: int)
    requires
        0 <= k <= results.len(),
        forall|j: int| 0 <= j < k ==> results[j],
        k == results.len() || !results[k],
    ensures
        first_failure(results) == k,
    decreases k,
{
    if k == 0 {
    } else {
        let t = results.drop_first();
        assert(forall|j: int| 0 <= j < k - 1 ==> #[trigger] t[j] == results[j + 1]);
        lemma_first_failure(t, k - 1);
    }
}

/// The outcome of one kernel's run, given each step's success: `Ok` when
/// every step passed, else the failure kind of the first step that did not.
pub fn test_outcome(steps: &Vec<TestStep>, results: &Vec<bool>) -> (r: Result<
    (),
    NixModuleError,
>)
    requires
        steps@.len() == results@.len(),
    ensures
        r is Ok <==> first_failure(results@) == results@.len(),
        r matches Err(e) ==> e == spec_step_error(steps@[first_failure(results@)]),
{
    let n = steps.len();
    let mut i: usize = 0;
    while i < n
        invariant
            i <= n,
            n == steps@.len(),
            n == results@.len(),
            forall|j: int| 0 <= j < i ==> results@[j],
        decreases n - i,
    {
        if !results[i] {
            proof {
                lemma_first_failure(results@, i as int);
            }
            return Err(step_error(&steps[i]));
        }
        i = i + 1;
    }
    proof {
        lemma_first_failure(results@, n as int);
    }
    Ok(())
}

// ---------------------------------------------------------------------------
// The per-kernel report row
// ---------------------------------------------------------------------------

/// Outcome of one pipeline stage in the report: passed (`Ok`), failed, or
/// never attempted (`N/A`).
#[derive(Clone, Copy, Debug, PartialEq, Eq, Structural)]
pub enum StageStatus {
    Passed,
    Failed,
    Skipped,
}

/// One kernel's row in the final report.
pub struct KernelReport {
    pub version: String,
    pub build: StageStatus,
    pub insmod: StageStatus,
    pub test: StageStatus,
}

/// How a run outcome fills the three stage cells: a failure marks every
/// earlier stage passed, its own stage failed, and every later stage never
/// attempted; an unclassified failure (one that is no stage's own) leaves
/// all three unattempted.
pub open spec fn spec_classify(outcome: Result<(), NixModuleError>) -> (
    StageStatus,
    StageStatus,
    StageStatus,
) {
    match outcome {
        Ok(_) => (StageStatus::Passed, StageStatus::Passed, StageStatus::Passed),
        Err(NixModuleError::BuildError) => (
            StageStatus::Failed,
            StageStatus::Skipped,
            StageStatus::Skipped,
        ),
        Err(NixModuleError::InsmodError) => (
            StageStatus::Passed,
            StageStatus::Failed,
            StageStatus::Skipped,
        ),
        Err(NixModuleError::TestError) => (
            StageStatus::Passed,
            StageStatus::Passed,
            StageStatus::Failed,
        ),
        Err(_) => (StageStatus::Skipped, StageStatus::Skipped, StageStatus::Skipped),
    }
}

/// Builds the report row for one kernel from its run outcome.
pub fn classify(version: String, outcome: &Result<(), NixModuleError>) -> (r: KernelReport)
    ensures
        r.version == version,
        r.build == spec_classify(*outcome).0,
        r.insmod == spec_classify(*outcome).1,
        r.test == spec_classify(*outcome).2,
{
    let (build, insmod, test) = match outcome {
        Ok(_) => (StageStatus::Passed, StageStatus::Passed, StageStatus::Passed),
        Err(NixModuleError::BuildError) => (
            StageStatus::Failed,
            StageStatus::Skipped,
            StageStatus::Skipped,
        ),
        Err(NixModuleError::InsmodError) => (
            StageStatus::Passed,
            StageStatus::Failed,
            StageStatus::Skipped,
        ),
        Err(NixModuleError::TestError) => (
            StageStatus::Passed,
            StageStatus::Passed,
            StageStatus::Failed,
        ),
        Err(_) => (StageStatus::Skipped, StageStatus::Skipped, StageStatus::Skipped),
    };
    KernelReport { version, build, insmod, test }
}

/// The stage-ordering discipline of a report row: no stage passes after an
/// earlier failure, and everything after a failure is unattempted.
pub open spec fn report_ordered(b: StageStatus, i: StageStatus, t: StageStatus) -> bool {
    &&& (i == StageStatus::Passed ==> b == StageStatus::Passed)
    &&& (t == StageStatus::Passed ==> i == StageStatus::Passed)
    &&& (b == StageStatus::Failed ==> i == StageStatus::Skipped && t == StageStatus::Skipped)
    &&& (i == StageStatus::Failed ==> t == StageStatus::Skipped)
}

/// Every classification obeys the stage ordering: a later stage is never
/// reported passed while an earlier one failed.
pub proof fn lemma_stage_ordering(outcome: Result<(), NixModuleError>)
    ensures
        ({
            let (b, i, t) = spec_classify(outcome);
            report_ordered(b, i, t)
        }),
{
}

/// A failure at a step marks the stages before it passed and the stages at
/// and after it failed or unattempted, for every step of every run.
pub proof fn lemma_failure_classification(s: TestStep)
    ensures
        ({
            let (b, i, t) = spec_classify(Err(spec_step_error(s)));
            report_ordered(b, i, t)
        }),
        s == TestStep::Build ==> spec_classify(Err(spec_step_error(s))) == (
            StageStatus::Failed,
            StageStatus::Skipped,
            StageStatus::Skipped,
        ),
        (s == TestStep::UploadModule || s == TestStep::Insmod) ==> spec_classify(
            Err(spec_step_error(s)),
        ) == (StageStatus::Passed, StageStatus::Failed, StageStatus::Skipped),
        (s == TestStep::UploadScript || s matches TestStep::UploadExtra(_) || s
            == TestStep::RunTest) ==> spec_classify(Err(spec_step_error(s))) == (
            StageStatus::Passed,
            StageStatus::Passed,
            StageStatus::Failed,
        ),
{
}

// ---------------------------------------------------------------------------
// Process-wide exit status
// ---------------------------------------------------------------------------

/// Folding one more failure into the exit status seen so far: the larger
/// code — the failure at the more advanced stage — wins.
pub open spec fn spec_worst(current: u8, e: NixModuleError) -> u8 {
    if e.spec_code() > current {
        e.spec_code()
    } else {
        current
    }
}

/// Accumulates the process exit status across kernels.
pub fn worst_exit(current: u8, e: &NixModuleError) -> (r: u8)
    ensures
        r == spec_worst(current, *e),
        r >= current,
        r >= e.spec_code(),
{
    let c = e.code();
    if c > current {
        c
    } else {
        current
    }
}

/// The order in which kernels fail does not matter to the exit status.
pub proof fn lemma_worst_exit_commutes(current: u8, e1: NixModuleError, e2: NixModuleError)
    ensures
        spec_worst(spec_worst(current, e1), e2) == spec_worst(spec_worst(current, e2), e1),
{
}

/// One kernel failing at build and another at test — in either order —
/// yields the exit status of the test failure, the more advanced stage.
pub proof fn lemma_exit_severity()
    ensures
        spec_worst(
            spec_worst(NixModuleError::Success.spec_code(), NixModuleError::BuildError),
            NixModuleError::TestError,
        ) == NixModuleError::TestError.spec_code(),
        spec_worst(
            spec_worst(NixModuleError::Success.spec_code(), NixModuleError::TestError),
            NixModuleError::BuildError,
        ) == NixModuleError::TestError.spec_code(),
{
}

// ---------------------------------------------------------------------------
// Remote paths and commands of the run
// ---------------------------------------------------------------------------

/// Where the built module lands inside the guest: a fixed directory plus the
/// artifact's file name.
///
/// Fails with `BadFilePath` exactly when the artifact path has an empty file
/// name.
pub fn module_upload_path(build_output: &str) -> (r: Result<String, NixModuleError>)
    ensures
        r is Ok <==> after_last(build_output@, '/').len() > 0,
        r matches Ok(p) ==> p@ == "/tmp/"@ + after_last(build_output@, '/'),
        r matches Err(e) ==> e == NixModuleError::BadFilePath,
{
    let name = crate::strutil::suffix_after_last(build_output, '/');
    if name.as_str().unicode_len() == 0 {
        Err(NixModuleError::BadFilePath)
    } else {
        Ok(String::from_str("/tmp/").concat(name.as_str()))
    }
}

/// The command that loads the uploaded module with its configured arguments.
pub fn insmod_command(uploaded: &str, insmod_args: &str) -> (r: String)
    ensures
        r@ == "insmod "@ + uploaded@ + " "@ + insmod_args@,
{
    String::from_str("insmod ").concat(uploaded).concat(" ").concat(insmod_args)
}

} // verus!
