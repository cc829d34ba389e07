use vstd::prelude::*;

use crate::archive::{meta_name, MetaFile};
use crate::hooks::{hook_file_name, HookType};
use crate::text::{int_string, int_text};

verus! {

/// The ways an operation of this library can fail.
#[derive(Debug, Clone, PartialEq, Eq)]
pub enum BldrError {
    /// An identity string that is not four `/`-separated fields.
    InvalidPackageIdent(String),
    /// A path that does not lie under the package installation root.
    PackageLoad(String),
    /// No installed package matched derivation, name and optional version.
    PackageNotFound(String, String, Option<String>),
    /// A version string outside the version grammar.
    BadVersion,
    /// The archive holds no entry for the requested metadata file.
    MetaFileNotFound(MetaFile),
    /// The archive could not be read; carries the extractor's error output.
    ArchiveReadFailed(String),
    /// Extracting the archive onto the filesystem failed.
    UnpackFailed,
    /// A hook exited unsuccessfully: its type, exit code and captured output.
    HookFailed(HookType, i32, String),
    /// A health-check hook exited with a code outside the known set; carries the
    /// code and the captured output.
    HealthCheck(i32, String),
    /// A filesystem or process failure, with its description.
    Io(String),
    /// The process supervisor refused a control signal.
    SupervisorSignalFailed,
}

/// The human-readable description of an error.
pub open spec fn error_text(e: BldrError) -> Seq<char> {
    match e {
        BldrError::InvalidPackageIdent(s) => "Invalid package identifier: "@ + s@,
        BldrError::PackageLoad(s) => "Unable to load package from path: "@ + s@,
        BldrError::PackageNotFound(d, n, v) => "Cannot find package: "@ + d@ + "/"@ + n@ + match v {
            Some(x) => "/"@ + x@,
            None => Seq::empty(),
        },
        BldrError::BadVersion => "Bad version number"@,
        BldrError::MetaFileNotFound(f) => "Failed to read an archive metafile: "@ + meta_name(f),
        BldrError::ArchiveReadFailed(s) => "Failed to read package archive: "@ + s@,
        BldrError::UnpackFailed => "Failed to unpack package"@,
        BldrError::HookFailed(t, c, o) => "Hook failed to run: "@ + hook_file_name(t) + ", code "@
            + int_text(c as int) + ", output: "@ + o@,
        BldrError::HealthCheck(c, o) => "Health check failed: code "@ + int_text(c as int)
            + ", output: "@ + o@,
        BldrError::SupervisorSignalFailed => "Failed to send a signal to the process supervisor"@,
        BldrError::Io(s) => s@,
    }
}

impl BldrError {
    /// A human-readable description of the error.
    pub fn describe(&self) -> (r: String)
        ensures
            r@ == error_text(*self),
    {
        match self {
            BldrError::InvalidPackageIdent(s) => String::from_str("Invalid package identifier: ").concat(
                s.as_str(),
            ),
            BldrError::PackageLoad(s) => String::from_str("Unable to load package from path: ").concat(
                s.as_str(),
            ),
            BldrError::PackageNotFound(d, n, v) => {
                let r = String::from_str("Cannot find package: ").concat(d.as_str()).concat(
                    "/",
                ).concat(n.as_str());
                match v {
                    Some(x) => r.concat("/").concat(x.as_str()),
                    None => {
                        assert(r@ =~= r@ + Seq::<char>::empty());
                        r
                    },
                }
            },
            BldrError::BadVersion => String::from_str("Bad version number"),
            BldrError::MetaFileNotFound(f) => String::from_str(
                "Failed to read an archive metafile: ",
            ).concat(f.name()),
            BldrError::ArchiveReadFailed(s) => String::from_str("Failed to read package archive: ").concat(
                s.as_str(),
            ),
            BldrError::UnpackFailed => String::from_str("Failed to unpack package"),
            BldrError::HookFailed(t, c, o) => String::from_str("Hook failed to run: ").concat(
                t.file_name(),
            ).concat(", code ").concat(int_string(*c).as_str()).concat(", output: ").concat(
                o.as_str(),
            ),
            BldrError::HealthCheck(c, o) => String::from_str("Health check failed: code ").concat(
                int_string(*c).as_str(),
            ).concat(", output: ").concat(o.as_str()),
            BldrError::SupervisorSignalFailed => String::from_str(
                "Failed to send a signal to the process supervisor",
            ),
            BldrError::Io(s) => s.clone(),
        }
    }
}

} // verus!
