use vstd::prelude::*;

verus! {

/// The failure kinds a pipeline step can surface. The orchestrator performs no
/// local recovery: the first failing step's error is returned verbatim.
#[derive(Clone, Copy, Debug, PartialEq, Eq, Structural)]
pub enum Error {
    /// The target directory of a new project already exists.
    ProjectExists,
    /// A filesystem create, read or write failed.
    FileIo,
    /// The development-kit archive is corrupt or unreadable.
    Archive,
    /// A malformed version string or descriptor document.
    Parse,
    /// The version marker is absent from the build-definition file.
    PatternNotFound,
    /// The build tool's child process could not be spawned.
    Process,
    /// The build tool terminated with a non-zero exit status.
    BuildFailed,
}

impl Error {
    /// A short human-readable description, for the command-line layer.
    pub fn message(&self) -> (r: &'static str)
        ensures
            r@ == self.message_spec(),
    {
        match self {
            Error::ProjectExists => "the project folder already exists",
            Error::FileIo => "a file could not be created, read or written",
            Error::Archive => "the development kit archive could not be read",
            Error::Parse => "a version string or descriptor could not be parsed",
            Error::PatternNotFound => "no version marker was found in the build definition",
            Error::Process => "the build tool could not be started",
            Error::BuildFailed => "the build tool reported a failure",
        }
    }

    pub open spec fn message_spec(&self) -> Seq<char> {
        match self {
            Error::ProjectExists => "the project folder already exists"@,
            Error::FileIo => "a file could not be created, read or written"@,
            Error::Archive => "the development kit archive could not be read"@,
            Error::Parse => "a version string or descriptor could not be parsed"@,
            Error::PatternNotFound => "no version marker was found in the build definition"@,
            Error::Process => "the build tool could not be started"@,
            Error::BuildFailed => "the build tool reported a failure"@,
        }
    }
}

} // verus!
