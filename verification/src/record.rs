use vstd::prelude::*;
use crate::bytes::{be_sint, be_uint, lemma_be_uint_bound, pow256, read_be};
use crate::error::SQLiteError;
use crate::model::{spec_serial_type, Payload, RawText, SerialType};
use crate::varint::{read_varint, varint_complete, varint_size, varint_value};

verus! {

/// A table cell's decoded payload: the record-header byte count and, per
/// column in header order, its storage class and its decoded value (`None`
/// for SQL NULL).
#[derive(Debug, Clone, PartialEq)]
pub struct TableCellPayload {
    pub header_size: u64,
    pub column_types: Vec<SerialType>,
    pub column_values: Vec<Option<Payload>>,
}

/// An index cell's decoded payload: as for a table cell, but the record's
/// trailing integer column is the rowid and stands as its own field, not
/// among the columns.
#[derive(Debug, Clone, PartialEq)]
pub struct IndexCellPayload {
    pub header_size: u64,
    pub column_types: Vec<SerialType>,
    pub column_values: Vec<Option<Payload>>,
    pub rowid: u64,
}

/// The serial-type codes of a record header: one varint after another
/// until `rem` header bytes are used up. `None` when a varint runs past
/// the end of `s`.
pub open spec fn spec_header_codes(s: Seq<u8>, rem: nat) -> Option<Seq<u64>>
    decreases rem,
    via spec_header_codes_decreases
{
    if rem == 0 {
        Some(Seq::empty())
    } else if !varint_complete(s) {
        None
    } else {
        let n = varint_size(s);
        let v = varint_value(s) as u64;
        if n >= rem {
            Some(seq![v])
        } else {
            match spec_header_codes(s.skip(n as int), (rem - n) as nat) {
                Some(rest) => Some(seq![v] + rest),
                None => None,
            }
        }
    }
}

#[via_fn]
proof fn spec_header_codes_decreases(s: Seq<u8>, rem: nat) {
    crate::varint::lemma_varint_size_range(s, 0);
}

/// Whether any code classifies as one of the two reserved serial types.
pub open spec fn any_reserved(codes: Seq<u64>) -> bool {
    exists|i: int| 0 <= i < codes.len() && spec_serial_type(codes[i]) is Reserved
}

/// The total stored width of the first `i` columns.
pub open spec fn cols_size(codes: Seq<u64>, i: int) -> int
    decreases i,
{
    if i <= 0 {
        0
    } else {
        cols_size(codes, i - 1) + spec_serial_type(codes[i - 1]).spec_size()
    }
}

pub proof fn lemma_cols_size_monotone(codes: Seq<u64>, i: int, j: int)
    requires
        i <= j,
    ensures
        cols_size(codes, i) <= cols_size(codes, j),
    decreases j - i,
{
    if i < j {
        lemma_cols_size_monotone(codes, i, j - 1);
    }
}

/// What the decoded value of one column must be, given its storage class
/// and its exact stored byte range: fixed-width integers sign-extended to
/// the canonical width, a double bit-for-bit, the two zero-width constants
/// as the integers 0 and 1, and blob or text as the exact bytes.
pub open spec fn column_value_matches(t: SerialType, s: Seq<u8>, v: Option<Payload>) -> bool {
    match t {
        SerialType::Null => v is None && s.len() == 0,
        SerialType::I8 => v matches Some(p) && p matches Payload::I8(x) && x == be_sint(s)
            && s.len() == 1,
        SerialType::I16 => v matches Some(p) && p matches Payload::I16(x) && x == be_sint(s)
            && s.len() == 2,
        SerialType::I24 => v matches Some(p) && p matches Payload::I32(x) && x == be_sint(s)
            && s.len() == 3,
        SerialType::I32 => v matches Some(p) && p matches Payload::I32(x) && x == be_sint(s)
            && s.len() == 4,
        SerialType::I48 => v matches Some(p) && p matches Payload::I64(x) && x == be_sint(s)
            && s.len() == 6,
        SerialType::I64 => v matches Some(p) && p matches Payload::I64(x) && x == be_sint(s)
            && s.len() == 8,
        SerialType::F64 => v matches Some(p) && p matches Payload::F64(bits) && bits == be_uint(s)
            && s.len() == 8,
        SerialType::Const0 => v matches Some(p) && p == Payload::I8(0i8) && s.len() == 0,
        SerialType::Const1 => v matches Some(p) && p == Payload::I8(1i8) && s.len() == 0,
        SerialType::Reserved => false,
        SerialType::Blob(_) => v matches Some(p) && p matches Payload::Blob(b) && b@ == s,
        SerialType::Text(_) => v matches Some(p) && p matches Payload::Text(t) && t@ == s,
    }
}

/// What a decoded record must hold, over the resolved payload bytes `s`:
/// the header-size varint, the serial-type codes that fill the rest of the
/// header, no reserved code among them, the value region inside `s`, and
/// each column's value decoded from its exact range.
pub open spec fn record_matches(
    s: Seq<u8>,
    header_size: u64,
    types: Seq<SerialType>,
    values: Seq<Option<Payload>>,
) -> bool {
    let hn = varint_size(s);
    let rem = if header_size >= hn {
        (header_size - hn) as nat
    } else {
        0nat
    };
    &&& varint_complete(s)
    &&& header_size == varint_value(s)
    &&& (spec_header_codes(s.skip(hn as int), rem) matches Some(codes) && {
        &&& types == codes.map_values(|c: u64| spec_serial_type(c))
        &&& !any_reserved(codes)
        &&& header_size + cols_size(codes, codes.len() as int) <= s.len()
        &&& values.len() == codes.len()
        &&& (forall|i: int|
            0 <= i < codes.len() ==> column_value_matches(
                spec_serial_type(codes[i]),
                s.subrange(
                    header_size + cols_size(codes, i),
                    header_size + cols_size(codes, i + 1),
                ),
                #[trigger] values[i],
            ))
    })
}

/// The exact conditions under which record decoding fails, and with which
/// error: the header-size varint or a serial-type varint runs past the
/// end, a reserved code occurs, or the value region runs past the end.
pub open spec fn record_error(s: Seq<u8>, e: SQLiteError) -> bool {
    let hn = varint_size(s);
    let hv = varint_value(s);
    let rem = if hv >= hn {
        (hv - hn) as nat
    } else {
        0nat
    };
    ||| (e == SQLiteError::OutOfBounds && !varint_complete(s))
    ||| (e == SQLiteError::OutOfBounds && varint_complete(s) && spec_header_codes(
        s.skip(hn as int),
        rem,
    ) is None)
    ||| (e == SQLiteError::ReservedSerialType && varint_complete(s) && (spec_header_codes(
        s.skip(hn as int),
        rem,
    ) matches Some(codes) && any_reserved(codes)))
    ||| (e == SQLiteError::OutOfBounds && varint_complete(s) && (spec_header_codes(
        s.skip(hn as int),
        rem,
    ) matches Some(codes) && !any_reserved(codes) && hv + cols_size(codes, codes.len() as int)
        > s.len()))
}

/// Sign-extending big-endian read of an `n`-byte integer column.
fn decode_signed(buf: &[u8], off: usize, n: usize) -> (r: i64)
    requires
        1 <= n <= 8,
        off + n <= buf@.len(),
    ensures
        r == be_sint(buf@.subrange(off as int, off as int + n as int)),
{
    let v = read_be(buf, off, n);
    proof {
        lemma_be_uint_bound(buf@.subrange(off as int, off as int + n as int));
        reveal_with_fuel(pow256, 9);
    }
    let half: u64 = if n == 1 {
        0x80
    } else if n == 2 {
        0x8000
    } else if n == 3 {
        0x80_0000
    } else if n == 4 {
        0x8000_0000
    } else if n == 5 {
        0x80_0000_0000
    } else if n == 6 {
        0x8000_0000_0000
    } else if n == 7 {
        0x80_0000_0000_0000
    } else {
        0x8000_0000_0000_0000
    };
    if v >= half {
        if n < 8 {
            ((v as i128) - 2 * (half as i128)) as i64
        } else {
            ((v as i128) - 0x1_0000_0000_0000_0000i128) as i64
        }
    } else {
        v as i64
    }
}

/// Decode one column's value from its exact byte range.
fn decode_column_value(buf: &[u8], t: &SerialType, off: usize, sz: usize) -> (v: Option<Payload>)
    requires
        !(*t is Reserved),
        off + sz <= buf@.len(),
        sz == t.spec_size(),
    ensures
        column_value_matches(*t, buf@.subrange(off as int, off as int + sz as int), v),
{
    let ghost s = buf@.subrange(off as int, off as int + sz as int);
    let blen: usize = buf.len();
    proof {
        assert(off + sz <= blen);
        lemma_be_uint_bound(s);
        reveal_with_fuel(pow256, 9);
    }
    match t {
        SerialType::Null => None,
        SerialType::I8 => Some(Payload::I8(decode_signed(buf, off, 1) as i8)),
        SerialType::I16 => Some(Payload::I16(decode_signed(buf, off, 2) as i16)),
        SerialType::I24 => Some(Payload::I32(decode_signed(buf, off, 3) as i32)),
        SerialType::I32 => Some(Payload::I32(decode_signed(buf, off, 4) as i32)),
        SerialType::I48 => Some(Payload::I64(decode_signed(buf, off, 6))),
        SerialType::I64 => Some(Payload::I64(decode_signed(buf, off, 8))),
        SerialType::F64 => Some(Payload::F64(read_be(buf, off, 8))),
        SerialType::Const0 => Some(Payload::I8(0)),
        SerialType::Const1 => Some(Payload::I8(1)),
        SerialType::Reserved => None,
        SerialType::Blob(_) => Some(
            Payload::Blob(crate::bytes::copy_bytes(vstd::slice::slice_subrange(buf, off, off + sz))),
        ),
        SerialType::Text(_) => Some(
            Payload::Text(RawText::new(vstd::slice::slice_subrange(buf, off, off + sz))),
        ),
    }
}

/// Decode a table cell's payload byte range into its record: the header
/// varints classify every column, then the value stream is walked in
/// header order, each column consuming exactly its stored width.
pub fn decode_table_record(payload: &[u8]) -> (r: Result<TableCellPayload, SQLiteError>)
    ensures
        match r {
            Ok(p) => record_matches(payload@, p.header_size, p.column_types@, p.column_values@),
            Err(e) => record_error(payload@, e),
        },
{
    let ghost s = payload@;
    let plen: usize = payload.len();
    let hdr = match read_varint(payload, 0) {
        Ok(v) => v,
        Err(e) => {
            proof {
                assert(s.skip(0) =~= s);
            }
            return Err(e);
        },
    };
    proof {
        assert(s.skip(0) =~= s);
    }
    let header_size: u64 = hdr.0;
    let hn: usize = hdr.1;
    let ghost rem0: nat = if header_size >= hn {
        (header_size - hn) as nat
    } else {
        0nat
    };
    let mut types: Vec<SerialType> = Vec::new();
    let ghost mut codes: Seq<u64> = Seq::empty();
    let mut pos: usize = hn;
    let mut saw_reserved: bool = false;
    let ghost mut reserved_at: int = 0;
    proof {
        assert(spec_header_codes(s.skip(pos as int), rem0) matches Some(rest) ==> spec_header_codes(
            s.skip(hn as int),
            rem0,
        ) == Some(codes + rest));
    }
    while (pos as u64) < header_size
        invariant
            hn <= pos <= plen,
            plen == s.len(),
            s == payload@,
            varint_complete(s),
            hn == varint_size(s),
            header_size == varint_value(s),
            codes.len() == types.len(),
            types@ == codes.map_values(|c: u64| spec_serial_type(c)),
            rem0 == if header_size >= hn {
                (header_size - hn) as nat
            } else {
                0nat
            },
            (pos as u64) < header_size ==> spec_header_codes(s.skip(hn as int), rem0) == (
            match spec_header_codes(s.skip(pos as int), (header_size - pos) as nat) {
                Some(rest) => Some(codes + rest),
                None => None::<Seq<u64>>,
            }),
            (pos as u64) >= header_size ==> spec_header_codes(s.skip(hn as int), rem0) == Some(
                codes,
            ),
            saw_reserved ==> 0 <= reserved_at < codes.len() && spec_serial_type(
                codes[reserved_at],
            ) is Reserved,
            !saw_reserved ==> !any_reserved(codes),
        decreases plen - pos,
    {
        let ghost rem: nat = (header_size - pos) as nat;
        let vn = match read_varint(payload, pos) {
            Ok(v) => v,
            Err(e) => {
                proof {
                    assert(spec_header_codes(s.skip(pos as int), rem) is None);
                }
                return Err(e);
            },
        };
        let v: u64 = vn.0;
        let n: usize = vn.1;
        proof {
            crate::varint::lemma_varint_value_fits(s.skip(pos as int));
            crate::varint::lemma_varint_size_range(s.skip(pos as int), 0);
            assert(v == varint_value(s.skip(pos as int)) as u64);
            assert(s.skip(pos as int).skip(n as int) =~= s.skip(pos as int + n as int));
        }
        let t = SerialType::from(v);
        let ghost old_codes = codes;
        proof {
            codes = codes.push(v);
            assert(codes =~= old_codes + seq![v]);
            assert(codes.map_values(|c: u64| spec_serial_type(c)) =~= old_codes.map_values(
                |c: u64| spec_serial_type(c),
            ).push(spec_serial_type(v)));
        }
        if matches!(t, SerialType::Reserved) {
            if !saw_reserved {
                saw_reserved = true;
                proof {
                    reserved_at = old_codes.len() as int;
                }
            }
        }
        proof {
            if (pos + n) as u64 >= header_size {
                assert(spec_header_codes(s.skip(pos as int), rem) == Some(seq![v]));
                assert(old_codes + seq![v] =~= codes);
            } else {
                assert(spec_header_codes(s.skip(pos as int), rem) == (
                match spec_header_codes(s.skip(pos as int + n as int), (rem - n) as nat) {
                    Some(rest) => Some(seq![v] + rest),
                    None => None::<Seq<u64>>,
                }));
                assert(forall|rest: Seq<u64>| old_codes + (seq![v] + rest) =~= (old_codes
                    + seq![v]) + rest);
            }
            if !saw_reserved {
                assert(!any_reserved(codes)) by {
                    assert(forall|i: int|
                        0 <= i < old_codes.len() ==> codes[i] == old_codes[i]);
                }
            }
        }
        types.push(t);
        pos = pos + n;
    }
    if saw_reserved {
        proof {
            assert(any_reserved(codes));
        }
        return Err(SQLiteError::ReservedSerialType);
    }
    // The value region: walk the classified widths once to place every
    // column and bound the region, then decode each value in order.
    let ghost ncols = codes.len() as int;
    proof {
        assert(header_size <= pos as u64);
    }
    let hdr_end: usize = header_size as usize;
    let mut values: Vec<Option<Payload>> = Vec::new();
    let mut vpos: usize = hdr_end;
    let mut i: usize = 0;
    while i < types.len()
        invariant
            plen == s.len(),
            s == payload@,
            types@.len() == codes.len(),
            ncols == codes.len(),
            types@ == codes.map_values(|c: u64| spec_serial_type(c)),
            !any_reserved(codes),
            spec_header_codes(s.skip(hn as int), rem0) == Some(codes),
            varint_complete(s),
            header_size == varint_value(s),
            hn == varint_size(s),
            rem0 == if header_size >= hn {
                (header_size - hn) as nat
            } else {
                0nat
            },
            0 <= i <= types@.len(),
            hdr_end as u64 == header_size,
            hdr_end <= plen,
            vpos == header_size + cols_size(codes, i as int),
            vpos <= plen,
            values@.len() == i,
            forall|j: int|
                0 <= j < i ==> column_value_matches(
                    spec_serial_type(codes[j]),
                    s.subrange(
                        header_size + cols_size(codes, j),
                        header_size + cols_size(codes, j + 1),
                    ),
                    #[trigger] values@[j],
                ),
        decreases types@.len() - i,
    {
        let t = types[i];
        proof {
            assert(types@[i as int] == spec_serial_type(codes[i as int]));
            assert(!(spec_serial_type(codes[i as int]) is Reserved)) by {
                assert(!any_reserved(codes));
            }
            assert(cols_size(codes, i as int + 1) == cols_size(codes, i as int)
                + spec_serial_type(codes[i as int]).spec_size());
        }
        let sz64 = match t.size() {
            Ok(z) => z,
            Err(e) => {
                proof {
                    assert(false);
                }
                return Err(e);
            },
        };
        if sz64 > (plen - vpos) as u64 {
            proof {
                lemma_cols_size_monotone(codes, i as int + 1, ncols);
                assert(header_size + cols_size(codes, ncols) > s.len());
            }
            return Err(SQLiteError::OutOfBounds);
        }
        let sz: usize = sz64 as usize;
        let v = decode_column_value(payload, &t, vpos, sz);
        values.push(v);
        vpos = vpos + sz;
        i = i + 1;
    }
    proof {
        lemma_cols_size_monotone(codes, ncols, ncols);
        assert(header_size + cols_size(codes, ncols) <= s.len());
    }
    Ok(TableCellPayload { header_size, column_types: types, column_values: values })
}

/// The unsigned 64-bit pattern that carries a signed rowid.
pub open spec fn rowid_of_int(v: int) -> u64 {
    if v >= 0 {
        v as u64
    } else {
        (v + 0x1_0000_0000_0000_0000) as u64
    }
}

/// Whether a decoded column value is an integer that the given rowid
/// carries.
pub open spec fn rowid_matches(v: Option<Payload>, rowid: u64) -> bool {
    match v {
        Some(Payload::I8(x)) => rowid == rowid_of_int(x as int),
        Some(Payload::I16(x)) => rowid == rowid_of_int(x as int),
        Some(Payload::I32(x)) => rowid == rowid_of_int(x as int),
        Some(Payload::I64(x)) => rowid == rowid_of_int(x as int),
        _ => false,
    }
}

/// A storage class whose decoded value is an integer.
pub open spec fn integer_serial(t: SerialType) -> bool {
    ||| t is I8
    ||| t is I16
    ||| t is I24
    ||| t is I32
    ||| t is I48
    ||| t is I64
    ||| t is Const0
    ||| t is Const1
}

/// What a decoded index record must hold: the full record decodes as for
/// a table cell, its trailing column is an integer, and that integer
/// stands as the rowid while the other columns stay in order.
pub open spec fn index_record_matches(s: Seq<u8>, p: IndexCellPayload) -> bool {
    exists|lt: SerialType, lv: Option<Payload>|
        {
            &&& #[trigger] record_matches(
                s,
                p.header_size,
                p.column_types@.push(lt),
                p.column_values@.push(lv),
            )
            &&& rowid_matches(lv, p.rowid)
        }
}

/// The exact conditions under which index-record decoding fails: any
/// record failure, or a record whose trailing column is missing or not
/// an integer.
pub open spec fn index_record_error(s: Seq<u8>, e: SQLiteError) -> bool {
    let hn = varint_size(s);
    let hv = varint_value(s);
    let rem = if hv >= hn {
        (hv - hn) as nat
    } else {
        0nat
    };
    ||| record_error(s, e)
    ||| (e == SQLiteError::InvalidIndexRowId && varint_complete(s) && (spec_header_codes(
        s.skip(hn as int),
        rem,
    ) matches Some(codes) && (codes.len() == 0 || !integer_serial(
        spec_serial_type(codes.last()),
    ))))
}

/// The unsigned pattern of a signed 64-bit value.
fn rowid_from_i64(x: i64) -> (r: u64)
    ensures
        r == rowid_of_int(x as int),
{
    if x >= 0 {
        x as u64
    } else {
        ((x as i128) + 0x1_0000_0000_0000_0000i128) as u64
    }
}

/// Decode an index cell's payload byte range: the record as for a table
/// cell, whose trailing integer column is the index entry's rowid.
pub fn decode_index_record(payload: &[u8]) -> (r: Result<IndexCellPayload, SQLiteError>)
    ensures
        match r {
            Ok(p) => index_record_matches(payload@, p),
            Err(e) => index_record_error(payload@, e),
        },
{
    let full = match decode_table_record(payload) {
        Ok(p) => p,
        Err(e) => {
            return Err(e);
        },
    };
    let TableCellPayload { header_size, mut column_types, mut column_values } = full;
    let ghost gtypes = column_types@;
    let ghost gvalues = column_values@;
    let ghost s = payload@;
    if column_types.len() == 0 {
        return Err(SQLiteError::InvalidIndexRowId);
    }
    let lt = match column_types.pop() {
        Some(t) => t,
        None => {
            proof {
                assert(false);
            }
            return Err(SQLiteError::InvalidIndexRowId);
        },
    };
    let lv = match column_values.pop() {
        Some(v) => v,
        None => {
            proof {
                assert(false);
            }
            return Err(SQLiteError::InvalidIndexRowId);
        },
    };
    proof {
        assert(column_types@.push(lt) =~= gtypes);
        assert(column_values@.push(lv) =~= gvalues);
    }
    let rowid: u64 = match &lv {
        Some(Payload::I8(x)) => rowid_from_i64(*x as i64),
        Some(Payload::I16(x)) => rowid_from_i64(*x as i64),
        Some(Payload::I32(x)) => rowid_from_i64(*x as i64),
        Some(Payload::I64(x)) => rowid_from_i64(*x),
        _ => {
            proof {
                let hn = varint_size(s);
                let rem = if header_size >= hn {
                    (header_size - hn) as nat
                } else {
                    0nat
                };
                let codes = spec_header_codes(s.skip(hn as int), rem).unwrap();
                let k = codes.len() as int;
                assert(gtypes[k - 1] == spec_serial_type(codes[k - 1]));
                assert(column_value_matches(
                    spec_serial_type(codes[k - 1]),
                    s.subrange(
                        header_size + cols_size(codes, k - 1),
                        header_size + cols_size(codes, k),
                    ),
                    gvalues[k - 1],
                ));
                assert(codes.last() == codes[k - 1]);
                assert(!integer_serial(spec_serial_type(codes.last())));
            }
            return Err(SQLiteError::InvalidIndexRowId);
        },
    };
    let p = IndexCellPayload { header_size, column_types, column_values, rowid };
    proof {
        assert(rowid_matches(lv, rowid));
        assert(record_matches(s, p.header_size, p.column_types@.push(lt), p.column_values@.push(lv)));
    }
    Ok(p)
}

/// Whether a byte range holds a decodable record: the header varints all
/// complete, no reserved code, and the value region within the range.
pub open spec fn record_parses(s: Seq<u8>) -> bool {
    let hn = varint_size(s);
    let hv = varint_value(s);
    let rem = if hv >= hn {
        (hv - hn) as nat
    } else {
        0nat
    };
    &&& varint_complete(s)
    &&& (spec_header_codes(s.skip(hn as int), rem) matches Some(codes) && !any_reserved(codes)
        && hv + cols_size(codes, codes.len() as int) <= s.len())
}

/// Whether a byte range holds a decodable index record: a decodable
/// record whose trailing column is an integer.
pub open spec fn index_record_parses(s: Seq<u8>) -> bool {
    let hn = varint_size(s);
    let hv = varint_value(s);
    let rem = if hv >= hn {
        (hv - hn) as nat
    } else {
        0nat
    };
    &&& record_parses(s)
    &&& (spec_header_codes(s.skip(hn as int), rem) matches Some(codes) && codes.len() >= 1
        && integer_serial(spec_serial_type(codes.last())))
}

} // verus!
