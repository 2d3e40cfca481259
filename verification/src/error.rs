//! What can go wrong while an index is built.

use vstd::prelude::*;
use crate::text::{push_str, string_of};

verus! {

/// A failure of the index build.
///
/// The first three kinds concern one archive: they are collected, and the
/// other archives of the batch are still processed. The last two stop the
/// build.
#[derive(Debug, Clone, PartialEq, Eq)]
pub enum Error {
    /// The archive lacks its data or control member, or its container is broken.
    ArchiveMalformed { archive: String, reason: String },
    /// A field that every stanza needs is absent from the control data.
    ControlFieldMissing { archive: String, field: String },
    /// The archive could not be read while it was hashed.
    ChecksumIO { archive: String, reason: String },
    /// An index file could not be written.
    CompressionIO { destination: String, reason: String },
    /// The architecture has no directory in the repository layout.
    UnsupportedArchitecture { arch: String },
}

/// Two packages ship the same path. This is reported, and stops nothing.
#[derive(Debug, Clone, PartialEq, Eq)]
pub struct DuplicateContentsPath {
    /// The path, as it stands in the `Contents` index.
    pub path: Vec<u8>,
    /// The package whose line comes first.
    pub first: Vec<u8>,
    /// The package whose line comes second.
    pub second: Vec<u8>,
}

impl Error {
    /// Whether the failure concerns one archive only.
    pub open spec fn spec_is_per_archive(self) -> bool {
        self is ArchiveMalformed || self is ControlFieldMissing || self is ChecksumIO
    }

    /// The text shown for this failure.
    pub open spec fn spec_message(self) -> Seq<char> {
        match self {
            Error::ArchiveMalformed { archive, reason } => "malformed archive "@ + archive@ + ": "@
                + reason@,
            Error::ControlFieldMissing { archive, field } => field@
                + " not found in control file of "@ + archive@,
            Error::ChecksumIO { archive, reason } => "failed to read "@ + archive@ + ": "@
                + reason@,
            Error::CompressionIO { destination, reason } => "failed to write "@ + destination@
                + ": "@ + reason@,
            Error::UnsupportedArchitecture { arch } => "unsupported architecture: "@ + arch@,
        }
    }

    /// Whether the failure concerns one archive only, so that the rest of its
    /// batch goes on.
    pub fn is_per_archive(&self) -> (r: bool)
        ensures
            r == self.spec_is_per_archive(),
    {
        match self {
            Error::ArchiveMalformed { .. } => true,
            Error::ControlFieldMissing { .. } => true,
            Error::ChecksumIO { .. } => true,
            Error::CompressionIO { .. } => false,
            Error::UnsupportedArchitecture { .. } => false,
        }
    }

    /// The text shown for this failure.
    pub fn message(&self) -> (r: String)
        ensures
            r@ == self.spec_message(),
    {
        let mut out: Vec<char> = Vec::new();
        match self {
            Error::ArchiveMalformed { archive, reason } => {
                push_str(&mut out, "malformed archive ");
                push_str(&mut out, archive.as_str());
                push_str(&mut out, ": ");
                push_str(&mut out, reason.as_str());
            },
            Error::ControlFieldMissing { archive, field } => {
                push_str(&mut out, field.as_str());
                push_str(&mut out, " not found in control file of ");
                push_str(&mut out, archive.as_str());
            },
            Error::ChecksumIO { archive, reason } => {
                push_str(&mut out, "failed to read ");
                push_str(&mut out, archive.as_str());
                push_str(&mut out, ": ");
                push_str(&mut out, reason.as_str());
            },
            Error::CompressionIO { destination, reason } => {
                push_str(&mut out, "failed to write ");
                push_str(&mut out, destination.as_str());
                push_str(&mut out, ": ");
                push_str(&mut out, reason.as_str());
            },
            Error::UnsupportedArchitecture { arch } => {
                push_str(&mut out, "unsupported architecture: ");
                push_str(&mut out, arch.as_str());
            },
        }
        let r = string_of(out.as_slice());
        assert(r@ =~= self.spec_message());
        r
    }
}

} // verus!
