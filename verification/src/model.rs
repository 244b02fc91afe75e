use vstd::prelude::*;
use crate::error::SQLiteError;

verus! {

/// Stored 16-bit page-size field. The format cannot write 65536 in 16 bits,
/// so a stored value of 1 denotes a real size of 65536 bytes.
#[derive(Debug, Clone, Copy, PartialEq, Eq, Structural)]
pub struct PageSize(pub u16);

impl PageSize {
    /// The byte count that the stored value denotes.
    pub open spec fn spec_real_size(self) -> int {
        if self.0 == 1 {
            0x10000
        } else {
            self.0 as int
        }
    }

    /// A well-formed stored page size denotes a power of two in [512, 65536].
    pub open spec fn wf(self) -> bool {
        self.0 == 1 || self.0 == 512 || self.0 == 1024 || self.0 == 2048 || self.0 == 4096
            || self.0 == 8192 || self.0 == 16384 || self.0 == 32768
    }

    pub fn real_size(&self) -> (r: usize)
        ensures
            r == self.spec_real_size(),
    {
        if self.0 == 1 {
            0x10000
        } else {
            self.0 as usize
        }
    }
}

/// The stored 16-bit value that denotes a real page size: the inverse of
/// `PageSize::spec_real_size` on every size a 16-bit field can denote.
pub open spec fn page_size_stored_of(sz: int) -> u16 {
    if sz == 0x10000 {
        1u16
    } else {
        sz as u16
    }
}

/// Re-encoding the real size recovers the stored representation, for every
/// stored 16-bit value.
pub proof fn lemma_page_size_round_trip(ps: PageSize)
    ensures
        page_size_stored_of(ps.spec_real_size()) == ps.0,
{
}

/// Stored 16-bit cell-content-area offset. A stored value of 0 denotes
/// offset 65536, which arises when content starts at the very end of a
/// 64 KiB page and cannot be written in 16 bits.
#[derive(Debug, Clone, Copy, PartialEq, Eq, Structural)]
pub struct CellOffset(pub u16);

impl CellOffset {
    /// The byte offset that the stored value denotes.
    pub open spec fn spec_real_offset(self) -> int {
        if self.0 == 0 {
            0x10000
        } else {
            self.0 as int
        }
    }

    pub fn real_offset(&self) -> (r: u32)
        ensures
            r == self.spec_real_offset(),
    {
        if self.0 == 0 {
            0x10000
        } else {
            self.0 as u32
        }
    }
}

/// The stored 16-bit value that denotes a real content offset: the inverse
/// of `CellOffset::spec_real_offset` on every offset a 16-bit field can
/// denote.
pub open spec fn cell_offset_stored_of(off: int) -> u16 {
    if off == 0x10000 {
        0u16
    } else {
        off as u16
    }
}

/// Re-encoding the real offset recovers the stored representation, for
/// every stored 16-bit value.
pub proof fn lemma_cell_offset_round_trip(off: CellOffset)
    ensures
        cell_offset_stored_of(off.spec_real_offset()) == off.0,
{
}

/// The three text encodings the format recognizes. Only the single-byte
/// encoding is supported for decoding to characters.
#[derive(Debug, Clone, Copy, PartialEq, Eq, Structural)]
pub enum TextEncoding {
    Utf8,
    Utf16Le,
    Utf16Be,
}

/// The classification of a stored text-encoding code: 1, 2 and 3 map to
/// the three recognized encodings, everything else is an error carrying
/// the offending value.
pub open spec fn spec_text_encoding(value: u32) -> Result<TextEncoding, SQLiteError> {
    if value == 1 {
        Ok(TextEncoding::Utf8)
    } else if value == 2 {
        Ok(TextEncoding::Utf16Le)
    } else if value == 3 {
        Ok(TextEncoding::Utf16Be)
    } else {
        Err(SQLiteError::UnknownTextEncodingError(value))
    }
}

impl TextEncoding {
    pub fn try_from(value: u32) -> (r: Result<TextEncoding, SQLiteError>)
        ensures
            r == spec_text_encoding(value),
    {
        if value == 1 {
            Ok(TextEncoding::Utf8)
        } else if value == 2 {
            Ok(TextEncoding::Utf16Le)
        } else if value == 3 {
            Ok(TextEncoding::Utf16Be)
        } else {
            Err(SQLiteError::UnknownTextEncodingError(value))
        }
    }
}

/// A column's storage class: a closed classification of the serial-type
/// codes. The two variable-length kinds carry the raw code, from which
/// the byte length is derived.
#[derive(Debug, Clone, Copy, PartialEq, Eq, Structural)]
pub enum SerialType {
    Null,
    I8,
    I16,
    I24,
    I32,
    I48,
    I64,
    F64,
    Const0,
    Const1,
    Reserved,
    Blob(u64),
    Text(u64),
}

/// The classification of a serial-type code: 0-9 are the fixed kinds,
/// 10 and 11 are reserved, even codes >= 12 are blobs and odd codes >= 13
/// are text.
pub open spec fn spec_serial_type(value: u64) -> SerialType {
    if value == 0 {
        SerialType::Null
    } else if value == 1 {
        SerialType::I8
    } else if value == 2 {
        SerialType::I16
    } else if value == 3 {
        SerialType::I24
    } else if value == 4 {
        SerialType::I32
    } else if value == 5 {
        SerialType::I48
    } else if value == 6 {
        SerialType::I64
    } else if value == 7 {
        SerialType::F64
    } else if value == 8 {
        SerialType::Const0
    } else if value == 9 {
        SerialType::Const1
    } else if value == 10 || value == 11 {
        SerialType::Reserved
    } else if value % 2 == 0 {
        SerialType::Blob(value)
    } else {
        SerialType::Text(value)
    }
}

impl SerialType {
    pub fn from(value: u64) -> (r: SerialType)
        ensures
            r == spec_serial_type(value),
    {
        if value == 0 {
            SerialType::Null
        } else if value == 1 {
            SerialType::I8
        } else if value == 2 {
            SerialType::I16
        } else if value == 3 {
            SerialType::I24
        } else if value == 4 {
            SerialType::I32
        } else if value == 5 {
            SerialType::I48
        } else if value == 6 {
            SerialType::I64
        } else if value == 7 {
            SerialType::F64
        } else if value == 8 {
            SerialType::Const0
        } else if value == 9 {
            SerialType::Const1
        } else if value == 10 || value == 11 {
            SerialType::Reserved
        } else if value % 2 == 0 {
            SerialType::Blob(value)
        } else {
            SerialType::Text(value)
        }
    }

    /// The stored byte width of a column of this storage class. Reserved
    /// has no width; this spec gives it (and a blob or text code below its
    /// kind's base) width 0, and the executable `size` refuses Reserved.
    pub open spec fn spec_size(self) -> int {
        match self {
            SerialType::Null => 0,
            SerialType::I8 => 1,
            SerialType::I16 => 2,
            SerialType::I24 => 3,
            SerialType::I32 => 4,
            SerialType::I48 => 6,
            SerialType::I64 => 8,
            SerialType::F64 => 8,
            SerialType::Const0 => 0,
            SerialType::Const1 => 0,
            SerialType::Reserved => 0,
            SerialType::Blob(n) => if n >= 12 {
                ((n - 12) / 2) as int
            } else {
                0
            },
            SerialType::Text(n) => if n >= 13 {
                ((n - 13) / 2) as int
            } else {
                0
            },
        }
    }

    /// The byte width of a column of this storage class; fails on the two
    /// reserved codes, which have none.
    pub fn size(&self) -> (r: Result<u64, SQLiteError>)
        ensures
            self is Reserved ==> r == Err::<u64, SQLiteError>(SQLiteError::ReservedSerialType),
            !(self is Reserved) ==> r == Ok::<u64, SQLiteError>(self.spec_size() as u64),
    {
        match self {
            SerialType::Null => Ok(0),
            SerialType::I8 => Ok(1),
            SerialType::I16 => Ok(2),
            SerialType::I24 => Ok(3),
            SerialType::I32 => Ok(4),
            SerialType::I48 => Ok(6),
            SerialType::I64 => Ok(8),
            SerialType::F64 => Ok(8),
            SerialType::Const0 => Ok(0),
            SerialType::Const1 => Ok(0),
            SerialType::Reserved => Err(SQLiteError::ReservedSerialType),
            SerialType::Blob(n) => if *n >= 12 {
                Ok((*n - 12) / 2)
            } else {
                Ok(0)
            },
            SerialType::Text(n) => if *n >= 13 {
                Ok((*n - 13) / 2)
            } else {
                Ok(0)
            },
        }
    }
}

/// Every even code n >= 12 classifies as a blob of (n-12)/2 bytes, and
/// every odd code n >= 13 as text of (n-13)/2 bytes; codes 10 and 11
/// classify as Reserved.
pub proof fn lemma_serial_type_classification(n: u64)
    ensures
        n >= 12 && n % 2 == 0 ==> spec_serial_type(n) == SerialType::Blob(n)
            && spec_serial_type(n).spec_size() == (n - 12) / 2,
        n >= 13 && n % 2 == 1 ==> spec_serial_type(n) == SerialType::Text(n)
            && spec_serial_type(n).spec_size() == (n - 13) / 2,
        n == 10 || n == 11 ==> spec_serial_type(n) == SerialType::Reserved,
{
}

/// Undecoded text bytes: the exact stored bytes of a text column, decoded
/// to characters only on demand under the database's text encoding.
#[derive(Debug, Clone, PartialEq)]
pub struct RawText(Vec<u8>);

impl View for RawText {
    type V = Seq<u8>;

    closed spec fn view(&self) -> Seq<u8> {
        self.0@
    }
}

impl RawText {
    pub fn new(v: &[u8]) -> (r: Self)
        ensures
            r@ == v@,
    {
        RawText(crate::bytes::copy_bytes(v))
    }

    /// Decode the stored bytes to characters under the given encoding.
    /// Only the single-byte encoding is supported; the two double-byte
    /// encodings are recognized but fail explicitly.
    pub fn decode(&self, text_encoding: TextEncoding) -> (r: Result<String, SQLiteError>)
        ensures
            text_encoding is Utf8 ==> (r matches Ok(s) && s@ == crate::bytes::utf8_lossy_of(
                self@,
            )),
            !(text_encoding is Utf8) ==> r == Err::<String, SQLiteError>(
                SQLiteError::UnsupportedTextEncoding,
            ),
    {
        match text_encoding {
            TextEncoding::Utf8 => Ok(crate::bytes::utf8_lossy(self.0.as_slice())),
            TextEncoding::Utf16Le => Err(SQLiteError::UnsupportedTextEncoding),
            TextEncoding::Utf16Be => Err(SQLiteError::UnsupportedTextEncoding),
        }
    }
}

/// One decoded column value. Variable-length values hold their own copy of
/// the exact stored bytes: a payload that spills onto overflow pages has no
/// single resident byte range to borrow from, so the decoder copies the
/// declared range for every variable-length column.
#[derive(Debug, Clone, PartialEq)]
pub enum Payload {
    I8(i8),
    I16(i16),
    I32(i32),
    I64(i64),
    /// An IEEE-754 double, held bit-for-bit as the 64-bit pattern read
    /// big-endian from the record.
    F64(u64),
    Blob(Vec<u8>),
    Text(RawText),
}

} // verus!

