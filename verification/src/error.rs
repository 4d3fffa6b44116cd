//! Failure kinds and the status numbers that stand for them across the call
//! boundary.

use vstd::prelude::*;

verus! {

/// Why an operation could not hand out a BTF file.
#[derive(Clone, Copy, Debug, PartialEq, Eq, Structural)]
pub enum BtfError {
    /// The caller's arguments or events do not describe a usable archive.
    InvalidInput,
    /// The raw bytes are not one complete gzip member.
    DecompressionError,
    /// The archive reader failed on an entry, or an entry lies outside the archive.
    ArchiveReadError,
    /// The stored path of an entry is not valid UTF-8.
    PathDecodeError,
    /// The temporary file could not be created or written.
    ExtractionIOError,
    /// No entry of the archive is stored under the target path.
    NoMatchingArchiveEntry,
    /// The native allocator returned no buffer for the result path.
    AllocationFailure,
    /// The identity of the running system could not be determined.
    IdentityResolutionError,
}

/// The error numbers that a native caller can receive, negated.
#[derive(Clone, Copy, Debug, PartialEq, Eq, Structural)]
pub enum Errno {
    Einval,
    Enoent,
    Eio,
    Eilseq,
    Enomem,
}

/// The error number that reports a failure kind.
pub open spec fn errno_of(error: BtfError) -> Errno {
    match error {
        BtfError::InvalidInput => Errno::Einval,
        BtfError::DecompressionError => Errno::Einval,
        BtfError::ArchiveReadError => Errno::Eio,
        BtfError::PathDecodeError => Errno::Eilseq,
        BtfError::ExtractionIOError => Errno::Eio,
        BtfError::NoMatchingArchiveEntry => Errno::Enoent,
        BtfError::AllocationFailure => Errno::Enomem,
        BtfError::IdentityResolutionError => Errno::Enoent,
    }
}

/// Whether `code` is a number that libc gives an error on a Linux target.
/// `EINVAL`, `ENOENT`, `EIO` and `ENOMEM` have one number on every Linux
/// target. `EILSEQ` is 84 on most of them, 88 on mips and 122 on sparc.
pub open spec fn is_number_of(errno: Errno, code: int) -> bool {
    match errno {
        Errno::Einval => code == 22,
        Errno::Enoent => code == 2,
        Errno::Eio => code == 5,
        Errno::Eilseq => code == 84 || code == 88 || code == 122,
        Errno::Enomem => code == 12,
    }
}

/// Whether `status` reports a failure kind to a native caller: it is the
/// negated number of the error that stands for the kind.
pub open spec fn is_status_of(error: BtfError, status: int) -> bool {
    is_number_of(errno_of(error), -status)
}

/// `libc::EINVAL`, which libc defines as 22 for every Linux target.
#[verifier::external_body]
fn einval() -> (code: i32)
    ensures
        code == 22,
{
    libc::EINVAL
}

/// `libc::ENOENT`, which libc defines as 2 for every Linux target.
#[verifier::external_body]
fn enoent() -> (code: i32)
    ensures
        code == 2,
{
    libc::ENOENT
}

/// `libc::EIO`, which libc defines as 5 for every Linux target.
#[verifier::external_body]
fn eio() -> (code: i32)
    ensures
        code == 5,
{
    libc::EIO
}

/// `libc::EILSEQ`, which libc defines for a Linux target as 84, or 88 on
/// mips, or 122 on sparc.
#[verifier::external_body]
fn eilseq() -> (code: i32)
    ensures
        code == 84 || code == 88 || code == 122,
{
    libc::EILSEQ
}

/// `libc::ENOMEM`, which libc defines as 12 for every Linux target.
#[verifier::external_body]
fn enomem() -> (code: i32)
    ensures
        code == 12,
{
    libc::ENOMEM
}

impl Errno {
    /// The number that the platform gives this error.
    pub fn number(self) -> (code: i32)
        ensures
            is_number_of(self, code as int),
    {
        match self {
            Errno::Einval => einval(),
            Errno::Enoent => enoent(),
            Errno::Eio => eio(),
            Errno::Eilseq => eilseq(),
            Errno::Enomem => enomem(),
        }
    }
}

impl BtfError {
    /// The error number under which this failure is reported.
    pub fn errno(self) -> (errno: Errno)
        ensures
            errno == errno_of(self),
    {
        match self {
            BtfError::InvalidInput => Errno::Einval,
            BtfError::DecompressionError => Errno::Einval,
            BtfError::ArchiveReadError => Errno::Eio,
            BtfError::PathDecodeError => Errno::Eilseq,
            BtfError::ExtractionIOError => Errno::Eio,
            BtfError::NoMatchingArchiveEntry => Errno::Enoent,
            BtfError::AllocationFailure => Errno::Enomem,
            BtfError::IdentityResolutionError => Errno::Enoent,
        }
    }

    /// The status that a native caller receives for this failure: the negated
    /// error number.
    pub fn status(self) -> (status: i32)
        ensures
            is_status_of(self, status as int),
    {
        let code: i32 = self.errno().number();
        -code
    }
}

} // verus!
