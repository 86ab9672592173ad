use vstd::prelude::*;

pub mod hex;
pub mod make;
pub mod namer;
pub mod stale;
pub mod text;

verus! {

/// Why a build invocation had to stop.
#[derive(Debug)]
pub enum BuildError {
    /// The request itself is malformed, for example linking a header-only
    /// artifact.
    Configuration(String),
    /// A declared source file could not be examined.
    Filesystem(String),
    /// An external tool (compiler or linker) failed; carries the exit code
    /// the whole build should propagate.
    ExternalTool(i32),
}

impl BuildError {
    /// Human-readable description, for the caller to print before exiting.
    pub fn describe(&self) -> (r: &str)
        ensures
            self is Configuration ==> r@ == self->Configuration_0@,
            self is Filesystem ==> r@ == self->Filesystem_0@,
            self is ExternalTool ==> r@ == "external tool failed"@,
    {
        match self {
            BuildError::Configuration(m) => m.as_str(),
            BuildError::Filesystem(m) => m.as_str(),
            BuildError::ExternalTool(_) => "external tool failed",
        }
    }
}

} // verus!
