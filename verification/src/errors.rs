use vstd::prelude::*;

verus! {

/// Failure kinds of the harness. Each variant names the pipeline stage or
/// subsystem that failed; `Success` stands for "no failure observed".
///
/// The numeric code of a variant (see [`NixModuleError::code`]) doubles as its
/// severity: codes grow along the pipeline, so the largest code seen across a
/// run identifies the most advanced stage that failed.
#[derive(Clone, Copy, Debug, PartialEq, Eq, Structural)]
pub enum NixModuleError {
    Success,
    BadFilePath,
    QemuError,
    SshError,
    BuildError,
    InsmodError,
    TestError,
    TimeoutError,
}

impl NixModuleError {
    /// The process exit code associated with this failure kind.
    pub open spec fn spec_code(self) -> u8 {
        match self {
            NixModuleError::Success => 0,
            NixModuleError::BadFilePath => 1,
            NixModuleError::QemuError => 2,
            NixModuleError::SshError => 3,
            NixModuleError::BuildError => 4,
            NixModuleError::InsmodError => 5,
            NixModuleError::TestError => 6,
            NixModuleError::TimeoutError => 7,
        }
    }

    /// Exit code reported to the operating system: 0 for success and a small
    /// positive integer identifying the failure kind otherwise.
    pub fn code(&self) -> (c: u8)
        ensures
            c == self.spec_code(),
    {
        match self {
            NixModuleError::Success => 0,
            NixModuleError::BadFilePath => 1,
            NixModuleError::QemuError => 2,
            NixModuleError::SshError => 3,
            NixModuleError::BuildError => 4,
            NixModuleError::InsmodError => 5,
            NixModuleError::TestError => 6,
            NixModuleError::TimeoutError => 7,
        }
    }

    /// A short label for diagnostics.
    pub fn label(&self) -> (s: String)
        ensures
            s@ == self.spec_label(),
    {
        match self {
            NixModuleError::Success => String::from_str("Success"),
            NixModuleError::BadFilePath => String::from_str("BadFilePath"),
            NixModuleError::QemuError => String::from_str("QemuError"),
            NixModuleError::SshError => String::from_str("SshError"),
            NixModuleError::BuildError => String::from_str("BuildError"),
            NixModuleError::InsmodError => String::from_str("InsmodError"),
            NixModuleError::TestError => String::from_str("TestError"),
            NixModuleError::TimeoutError => String::from_str("TimeoutError"),
        }
    }

    pub open spec fn spec_label(self) -> Seq<char> {
        match self {
            NixModuleError::Success => "Success"@,
            NixModuleError::BadFilePath => "BadFilePath"@,
            NixModuleError::QemuError => "QemuError"@,
            NixModuleError::SshError => "SshError"@,
            NixModuleError::BuildError => "BuildError"@,
            NixModuleError::InsmodError => "InsmodError"@,
            NixModuleError::TestError => "TestError"@,
            NixModuleError::TimeoutError => "TimeoutError"@,
        }
    }
}

} // verus!
