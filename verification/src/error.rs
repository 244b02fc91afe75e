use vstd::prelude::*;

verus! {

/// Every way a structurally invalid byte buffer can make a decode step fail.
/// Each variant carries the offending value where one identifies the failure.
#[derive(Debug, Clone, Copy, PartialEq, Eq, Structural)]
pub enum SQLiteError {
    /// The 4-byte text-encoding field held something other than 1, 2 or 3.
    UnknownTextEncodingError(u32),
    /// The one-byte page-type flag was none of the four B-tree page kinds.
    UnknownPageType(u8),
    /// A header, cell pointer, cell, or record field would run past the
    /// bytes that are actually available.
    OutOfBounds,
    /// One of the two reserved serial-type codes (10 or 11) was encountered.
    ReservedSerialType,
    /// Text decoding was requested under an encoding that is recognized
    /// but not supported.
    UnsupportedTextEncoding,
    /// An overflow chain ended (next page number 0) before the declared
    /// payload size was satisfied.
    OverflowChainTruncated,
    /// An overflow chain ran longer than the page count of the file allows,
    /// which can only mean corruption or a cycle.
    OverflowChainTooLong,
    /// The leading 16-byte magic string did not match.
    InvalidMagic,
    /// The stored page-size field does not denote a power of two
    /// in [512, 65536].
    InvalidPageSize(u16),
    /// The header's declared page count disagrees with the buffer length.
    PageCountMismatch,
    /// The payload-fraction bytes describe an impossible local-storage
    /// range (minimum above maximum, or a negative maximum).
    InvalidPayloadFractions,
    /// An index record did not end with the integer rowid column the
    /// format requires.
    InvalidIndexRowId,
}

} // verus!
