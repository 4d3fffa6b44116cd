//! The two ways in which the compressed archive reaches an operation: a buffer
//! that the caller supplies with its length, and a buffer that was linked into
//! the program between two marker addresses.

use vstd::prelude::*;

use crate::error::BtfError;

verus! {

/// Checks the length that a caller claims for its buffer. A native length is
/// signed; a negative one describes no buffer and is refused with
/// `InvalidInput`.
pub fn buffer_length(tar_len: i32) -> (out: Result<usize, BtfError>)
    ensures
        match out {
            Ok(len) => 0 <= tar_len && len == tar_len,
            Err(e) => e == BtfError::InvalidInput && tar_len < 0,
        },
{
    if tar_len < 0 {
        Err(BtfError::InvalidInput)
    } else {
        Ok(tar_len as usize)
    }
}

/// The length of the archive that lies between two marker addresses, as the
/// length that the buffer form takes. Markers in the wrong order, and a
/// distance that a native length cannot hold, are refused with `InvalidInput`.
pub fn linked_length(start: usize, end: usize) -> (out: Result<i32, BtfError>)
    ensures
        match out {
            Ok(len) => start <= end && len == end - start,
            Err(e) => e == BtfError::InvalidInput && (end < start || end - start > i32::MAX),
        },
{
    if end < start {
        return Err(BtfError::InvalidInput);
    }
    let distance: usize = end - start;
    if distance > 0x7fff_ffff {
        Err(BtfError::InvalidInput)
    } else {
        Ok(distance as i32)
    }
}

} // verus!
