//! The read and write position of a file opened over WebDAV on a remote
//! device's file system.

use vstd::prelude::*;

verus! {

/// Where a seek moves to, as `std::io::SeekFrom` says it.
#[derive(Debug, Clone, Copy, PartialEq, Eq, Structural)]
pub enum SeekTarget {
    /// This many bytes from the start.
    Start(u64),
    /// This many bytes from the current position.
    Current(i64),
    /// This many bytes from the end of the file.
    End(i64),
}

/// The position `offset` bytes from `base`; a position before the start of
/// the file is the start.
pub open spec fn offset_from(base: int, offset: int) -> int {
    if base + offset < 0 {
        0
    } else {
        base + offset
    }
}

/// The position a seek moves to from `position`, in a file of `file_len`
/// bytes: a start offset as it is; a current or end offset from the
/// position or the end, not before the start.
pub open spec fn seek_result(position: u64, target: SeekTarget, file_len: u64) -> int {
    match target {
        SeekTarget::Start(o) => o as int,
        SeekTarget::Current(o) => offset_from(position as int, o as int),
        SeekTarget::End(o) => offset_from(file_len as int, o as int),
    }
}

/// Whether a seek needs the file's length: only from its end.
pub fn seek_needs_length(target: SeekTarget) -> (r: bool)
    ensures
        r == target is End,
{
    match target {
        SeekTarget::End(_) => true,
        _ => false,
    }
}

/// The position a seek moves to; see `seek_result`. `file_len` is read only
/// for a seek from the end.
pub fn seek_position(position: u64, target: SeekTarget, file_len: u64) -> (r: u64)
    requires
        seek_result(position, target, file_len) <= u64::MAX,
    ensures
        r == seek_result(position, target, file_len),
{
    let (base, offset) = match target {
        SeekTarget::Start(o) => return o,
        SeekTarget::Current(o) => (position, o),
        SeekTarget::End(o) => (file_len, o),
    };
    if offset >= 0 {
        base + offset as u64
    } else {
        let back: u64 = if offset == i64::MIN {
            9223372036854775808u64
        } else {
            (-offset) as u64
        };
        if base >= back {
            base - back
        } else {
            0
        }
    }
}

} // verus!
