use vstd::prelude::*;
use crate::bytes::{be_uint, read_be16, read_be32};
use crate::error::SQLiteError;
use crate::header::{DbHeader, InteriorPageHeader, LeafPageHeader};
use crate::model::CellOffset;
use crate::overflow::{chain_fuel, payload_split, resolve_payload, spec_chain, spec_payload_split};
use crate::record::{
    decode_index_record, decode_table_record, index_record_matches, record_matches,
    IndexCellPayload, TableCellPayload,
};
use crate::varint::{read_varint, varint_complete, varint_size, varint_value};

verus! {

/// An index interior cell: the child subtree left of this entry, and the
/// entry's key payload, possibly spilling to an overflow chain.
#[derive(Debug, Clone, PartialEq)]
pub struct InteriorIndexCell {
    pub left_child_page_no: u32,
    pub payload_size: u64,
    pub payload: IndexCellPayload,
    pub overflow_page_no: Option<u32>,
}

/// A table interior cell is a pure routing node: a child pointer and the
/// integer rowid key dividing the subtrees, with no payload.
#[derive(Debug, Clone, PartialEq)]
pub struct InteriorTableCell {
    pub left_child_page_no: u32,
    pub integer_key: u64,
}

/// An index leaf cell: the entry's key payload, possibly spilling.
#[derive(Debug, Clone, PartialEq)]
pub struct LeafIndexCell {
    pub payload_size: u64,
    pub payload: IndexCellPayload,
    pub overflow_page_no: Option<u32>,
}

/// A table leaf cell: one row, keyed by its rowid, with the row record as
/// payload, possibly spilling.
#[derive(Debug, Clone, PartialEq)]
pub struct LeafTableCell {
    pub payload_size: u64,
    pub rowid: u64,
    pub payload: TableCellPayload,
    pub overflow_page_no: Option<u32>,
}

#[derive(Debug, Clone, PartialEq)]
pub struct InteriorIndexPage {
    pub header: InteriorPageHeader,
    pub cell_pointers: Vec<u16>,
    pub cells: Vec<InteriorIndexCell>,
}

#[derive(Debug, Clone, PartialEq)]
pub struct InteriorTablePage {
    pub header: InteriorPageHeader,
    pub cell_pointers: Vec<u16>,
    pub cells: Vec<InteriorTableCell>,
}

#[derive(Debug, Clone, PartialEq)]
pub struct LeafIndexPage {
    pub header: LeafPageHeader,
    pub cell_pointers: Vec<u16>,
    pub cells: Vec<LeafIndexCell>,
}

#[derive(Debug, Clone, PartialEq)]
pub struct LeafTablePage {
    pub header: LeafPageHeader,
    pub cell_pointers: Vec<u16>,
    pub cells: Vec<LeafTableCell>,
}

/// One B-tree page: the four roles the one-byte page-type flag selects.
#[derive(Debug, Clone, PartialEq)]
pub enum Page {
    InteriorIndex(InteriorIndexPage),
    LeafIndex(LeafIndexPage),
    InteriorTable(InteriorTablePage),
    LeafTable(LeafTablePage),
}

/// The shared page-header fields read at `off`: a zero stored first-
/// freeblock offset means there is none.
pub open spec fn leaf_header_matches(buf: Seq<u8>, off: int, h: LeafPageHeader) -> bool {
    let fb = be_uint(buf.subrange(off + 1, off + 3));
    &&& h.first_freeblock_offset == (if fb == 0 {
        None
    } else {
        Some(fb as u16)
    })
    &&& h.no_cells == be_uint(buf.subrange(off + 3, off + 5))
    &&& h.cell_content_offset.0 == be_uint(buf.subrange(off + 5, off + 7))
    &&& h.no_fragmented_bytes == buf[off + 7]
}

/// The shared fields plus the rightmost child pointer at `off + 8`.
pub open spec fn interior_header_matches(buf: Seq<u8>, off: int, h: InteriorPageHeader) -> bool {
    let fb = be_uint(buf.subrange(off + 1, off + 3));
    &&& h.first_freeblock_offset == (if fb == 0 {
        None
    } else {
        Some(fb as u16)
    })
    &&& h.no_cells == be_uint(buf.subrange(off + 3, off + 5))
    &&& h.cell_content_offset.0 == be_uint(buf.subrange(off + 5, off + 7))
    &&& h.no_fragmented_bytes == buf[off + 7]
    &&& h.rightmost_pointer == be_uint(buf.subrange(off + 8, off + 12))
}

/// The cell-pointer array: `n` consecutive 2-byte big-endian offsets in
/// on-disk order, which is preserved and is not a sort key.
pub open spec fn cell_ptrs_match(buf: Seq<u8>, arr_start: int, n: int, ptrs: Seq<u16>) -> bool {
    &&& ptrs.len() == n
    &&& (forall|i: int|
        0 <= i < n ==> #[trigger] ptrs[i] == be_uint(
            buf.subrange(arr_start + 2 * i, arr_start + 2 * i + 2),
        ))
}

/// The payload-carrying tail of a cell at `off`: its local part, the
/// 4-byte first overflow page number exactly when the payload spills, and
/// the record decoded from the reassembled payload, all local bytes lying
/// before `lim`, the end of the cell's page.
pub open spec fn payload_part_matches(
    buf: Seq<u8>,
    usable: int,
    max_frac: u8,
    min_frac: u8,
    off: int,
    lim: int,
    payload_size: u64,
    leaf_table: bool,
    overflow: Option<u32>,
    ok_record: spec_fn(Seq<u8>) -> bool,
) -> bool {
    spec_payload_split(usable, max_frac, min_frac, payload_size, leaf_table) matches Ok(sp) && {
        let local = buf.subrange(off, off + sp.0);
        &&& off + sp.0 + (if sp.1 {
            4int
        } else {
            0int
        }) <= lim
        &&& (if sp.1 {
            overflow == Some(be_uint(buf.subrange(off + sp.0, off + sp.0 + 4)) as u32)
        } else {
            overflow is None
        })
        &&& (match overflow {
            None => ok_record(local),
            Some(p) => spec_chain(
                buf,
                usable,
                p,
                payload_size - sp.0,
                chain_fuel(buf.len() as int, usable),
            ) matches Ok(rest) && ok_record(local + rest),
        })
    }
}

/// A table leaf cell at `off`: payload-size varint, rowid varint, then
/// the payload tail.
pub open spec fn leaf_table_cell_matches(
    buf: Seq<u8>,
    usable: int,
    max_frac: u8,
    min_frac: u8,
    off: int,
    lim: int,
    c: LeafTableCell,
) -> bool {
    let s0 = buf.skip(off);
    &&& varint_complete(s0)
    &&& c.payload_size == varint_value(s0)
    &&& {
        let s1 = buf.skip(off + varint_size(s0));
        &&& varint_complete(s1)
        &&& c.rowid == varint_value(s1)
        &&& payload_part_matches(
            buf,
            usable,
            max_frac,
            min_frac,
            off + varint_size(s0) + varint_size(s1),
            lim,
            c.payload_size,
            true,
            c.overflow_page_no,
            |full: Seq<u8>|
                record_matches(
                    full,
                    c.payload.header_size,
                    c.payload.column_types@,
                    c.payload.column_values@,
                ),
        )
    }
}

/// An index leaf cell at `off`: payload-size varint, then the payload
/// tail holding the index record.
pub open spec fn leaf_index_cell_matches(
    buf: Seq<u8>,
    usable: int,
    max_frac: u8,
    min_frac: u8,
    off: int,
    lim: int,
    c: LeafIndexCell,
) -> bool {
    let s0 = buf.skip(off);
    &&& varint_complete(s0)
    &&& c.payload_size == varint_value(s0)
    &&& payload_part_matches(
        buf,
        usable,
        max_frac,
        min_frac,
        off + varint_size(s0),
        lim,
        c.payload_size,
        false,
        c.overflow_page_no,
        |full: Seq<u8>| index_record_matches(full, c.payload),
    )
}

/// An index interior cell at `off`: 4-byte left child, payload-size
/// varint, then the payload tail holding the index record.
pub open spec fn interior_index_cell_matches(
    buf: Seq<u8>,
    usable: int,
    max_frac: u8,
    min_frac: u8,
    off: int,
    lim: int,
    c: InteriorIndexCell,
) -> bool {
    let s0 = buf.skip(off + 4);
    &&& off + 4 <= lim
    &&& c.left_child_page_no == be_uint(buf.subrange(off, off + 4))
    &&& varint_complete(s0)
    &&& c.payload_size == varint_value(s0)
    &&& payload_part_matches(
        buf,
        usable,
        max_frac,
        min_frac,
        off + 4 + varint_size(s0),
        lim,
        c.payload_size,
        false,
        c.overflow_page_no,
        |full: Seq<u8>| index_record_matches(full, c.payload),
    )
}

/// A table interior cell at `off`: 4-byte left child and the rowid-key
/// varint, nothing else.
pub open spec fn interior_table_cell_matches(
    buf: Seq<u8>,
    off: int,
    lim: int,
    c: InteriorTableCell,
) -> bool {
    let s0 = buf.skip(off + 4);
    &&& off + 4 <= lim
    &&& c.left_child_page_no == be_uint(buf.subrange(off, off + 4))
    &&& varint_complete(s0)
    &&& c.integer_key == varint_value(s0)
}

/// Whether a cell's payload at `off` can be resolved: the declared size
/// splits, the local bytes and any overflow pointer fit before `lim`, and
/// the overflow chain, where there is one, completes.
pub open spec fn payload_resolves(
    buf: Seq<u8>,
    usable: int,
    max_frac: u8,
    min_frac: u8,
    off: int,
    lim: int,
    payload_size: u64,
    leaf_table: bool,
) -> bool {
    &&& off <= lim
    &&& (spec_payload_split(usable, max_frac, min_frac, payload_size, leaf_table) matches Ok(sp)
        && {
        &&& off + sp.0 + (if sp.1 {
            4int
        } else {
            0int
        }) <= lim
        &&& (sp.1 ==> spec_chain(
            buf,
            usable,
            be_uint(buf.subrange(off + sp.0, off + sp.0 + 4)) as u32,
            payload_size - sp.0,
            chain_fuel(buf.len() as int, usable),
        ) is Ok)
    })
}

/// The reassembled payload of a cell at `off`, where it resolves: the
/// local bytes, completed from the overflow chain when the cell spills.
pub open spec fn resolved_of(
    buf: Seq<u8>,
    usable: int,
    max_frac: u8,
    min_frac: u8,
    off: int,
    lim: int,
    payload_size: u64,
    leaf_table: bool,
) -> Seq<u8> {
    let sp = spec_payload_split(usable, max_frac, min_frac, payload_size, leaf_table).unwrap();
    let local = buf.subrange(off, off + sp.0);
    if sp.1 {
        local + spec_chain(
            buf,
            usable,
            be_uint(buf.subrange(off + sp.0, off + sp.0 + 4)) as u32,
            payload_size - sp.0,
            chain_fuel(buf.len() as int, usable),
        ).unwrap()
    } else {
        local
    }
}

/// Whether a table leaf cell at `off` decodes: its two varints complete
/// and its payload resolves to a decodable record.
pub open spec fn leaf_table_cell_parses(
    buf: Seq<u8>,
    usable: int,
    max_frac: u8,
    min_frac: u8,
    off: int,
    lim: int,
) -> bool {
    let s0 = buf.skip(off);
    &&& varint_complete(s0)
    &&& {
        let s1 = buf.skip(off + varint_size(s0));
        let body = off + varint_size(s0) + varint_size(s1);
        let psz = varint_value(s0) as u64;
        &&& varint_complete(s1)
        &&& payload_resolves(buf, usable, max_frac, min_frac, body, lim, psz, true)
        &&& crate::record::record_parses(
            resolved_of(buf, usable, max_frac, min_frac, body, lim, psz, true),
        )
    }
}

/// Whether an index leaf cell at `off` decodes.
pub open spec fn leaf_index_cell_parses(
    buf: Seq<u8>,
    usable: int,
    max_frac: u8,
    min_frac: u8,
    off: int,
    lim: int,
) -> bool {
    let s0 = buf.skip(off);
    let body = off + varint_size(s0);
    let psz = varint_value(s0) as u64;
    &&& varint_complete(s0)
    &&& payload_resolves(buf, usable, max_frac, min_frac, body, lim, psz, false)
    &&& crate::record::index_record_parses(
        resolved_of(buf, usable, max_frac, min_frac, body, lim, psz, false),
    )
}

/// Whether an index interior cell at `off` decodes.
pub open spec fn interior_index_cell_parses(
    buf: Seq<u8>,
    usable: int,
    max_frac: u8,
    min_frac: u8,
    off: int,
    lim: int,
) -> bool {
    let s0 = buf.skip(off + 4);
    let body = off + 4 + varint_size(s0);
    let psz = varint_value(s0) as u64;
    &&& off + 4 <= lim
    &&& varint_complete(s0)
    &&& payload_resolves(buf, usable, max_frac, min_frac, body, lim, psz, false)
    &&& crate::record::index_record_parses(
        resolved_of(buf, usable, max_frac, min_frac, body, lim, psz, false),
    )
}

/// Whether a table interior cell at `off` decodes.
pub open spec fn interior_table_cell_parses(buf: Seq<u8>, off: int, lim: int) -> bool {
    &&& off + 4 <= lim
    &&& varint_complete(buf.skip(off + 4))
}

/// Whether the cell at index `i` of a page's pointer array decodes, for
/// the page role the page's flag byte selects.
pub open spec fn page_cell_parses(buf: Seq<u8>, h: DbHeader, page_no: int, i: int) -> bool {
    let ps = h.page_size.spec_real_size();
    let pstart = (page_no - 1) * ps;
    let hoff = pstart + if page_no == 1 {
        100int
    } else {
        0int
    };
    let lim = pstart + ps;
    let flag = buf[hoff];
    let hdr_size: int = if flag == 2 || flag == 5 {
        12
    } else {
        8
    };
    let arr_start = hoff + hdr_size;
    let ptr = be_uint(buf.subrange(arr_start + 2 * i, arr_start + 2 * i + 2));
    &&& ptr <= ps
    &&& (if flag == 2 {
        interior_index_cell_parses(
            buf,
            ps,
            h.max_payload_fraction,
            h.min_payload_fraction,
            pstart + ptr,
            lim,
        )
    } else if flag == 5 {
        interior_table_cell_parses(buf, pstart + ptr, lim)
    } else if flag == 10 {
        leaf_index_cell_parses(
            buf,
            ps,
            h.max_payload_fraction,
            h.min_payload_fraction,
            pstart + ptr,
            lim,
        )
    } else {
        leaf_table_cell_parses(
            buf,
            ps,
            h.max_payload_fraction,
            h.min_payload_fraction,
            pstart + ptr,
            lim,
        )
    })
}

/// Whether a whole page decodes: a recognized flag, a cell-pointer array
/// within the page, and every cell decoding at its pointer.
pub open spec fn page_parses(buf: Seq<u8>, h: DbHeader, page_no: int) -> bool {
    let ps = h.page_size.spec_real_size();
    let pstart = (page_no - 1) * ps;
    let hoff = pstart + if page_no == 1 {
        100int
    } else {
        0int
    };
    let lim = pstart + ps;
    let flag = buf[hoff];
    let hdr_size: int = if flag == 2 || flag == 5 {
        12
    } else {
        8
    };
    let n = be_uint(buf.subrange(hoff + 3, hoff + 5));
    &&& known_page_flag(flag)
    &&& hoff + hdr_size + 2 * n <= lim
    &&& (forall|i: int| 0 <= i < n ==> #[trigger] page_cell_parses(buf, h, page_no, i))
}

/// Read the shared page-header fields at `off`.


fn read_leaf_header(buf: &[u8], off: usize) -> (h: LeafPageHeader)
    requires
        off + 8 <= buf@.len(),
    ensures
        leaf_header_matches(buf@, off as int, h),
{
    let blen: usize = buf.len();
    proof {
        assert(off + 8 <= blen);
    }
    let fb = read_be16(buf, off + 1);
    LeafPageHeader {
        first_freeblock_offset: if fb == 0 {
            None
        } else {
            Some(fb)
        },
        no_cells: read_be16(buf, off + 3),
        cell_content_offset: CellOffset(read_be16(buf, off + 5)),
        no_fragmented_bytes: buf[off + 7],
    }
}

/// Read the interior page-header fields at `off`.
fn read_interior_header(buf: &[u8], off: usize) -> (h: InteriorPageHeader)
    requires
        off + 12 <= buf@.len(),
    ensures
        interior_header_matches(buf@, off as int, h),
{
    let blen: usize = buf.len();
    proof {
        assert(off + 12 <= blen);
    }
    let fb = read_be16(buf, off + 1);
    InteriorPageHeader {
        first_freeblock_offset: if fb == 0 {
            None
        } else {
            Some(fb)
        },
        no_cells: read_be16(buf, off + 3),
        cell_content_offset: CellOffset(read_be16(buf, off + 5)),
        no_fragmented_bytes: buf[off + 7],
        rightmost_pointer: read_be32(buf, off + 8),
    }
}

/// Read the cell-pointer array: `n` 2-byte offsets at `arr_start`.
fn read_cell_pointers(buf: &[u8], arr_start: usize, n: usize) -> (r: Vec<u16>)
    requires
        arr_start + 2 * n <= buf@.len(),
    ensures
        cell_ptrs_match(buf@, arr_start as int, n as int, r@),
{
    let blen: usize = buf.len();
    let mut ptrs: Vec<u16> = Vec::new();
    let mut i: usize = 0;
    while i < n
        invariant
            i <= n,
            blen == buf@.len(),
            arr_start + 2 * n <= blen,
            ptrs@.len() == i,
            forall|j: int|
                0 <= j < i ==> #[trigger] ptrs@[j] == be_uint(
                    buf@.subrange(arr_start + 2 * j, arr_start + 2 * j + 2),
                ),
        decreases n - i,
    {
        let p = read_be16(buf, arr_start + 2 * i);
        ptrs.push(p);
        i = i + 1;
    }
    ptrs
}

/// Parse the payload tail of a cell at `off`: split the declared size,
/// take the local bytes, follow the overflow chain when the cell spills,
/// and decode the record from the reassembled payload.
fn parse_payload_part(
    buf: &[u8],
    usable: u32,
    max_frac: u8,
    min_frac: u8,
    off: usize,
    lim: usize,
    payload_size: u64,
    leaf_table: bool,
) -> (r: Result<(Vec<u8>, Option<u32>), SQLiteError>)
    requires
        512 <= usable <= 0x10000,
        off <= lim <= buf@.len(),
    ensures
        r matches Ok(fo) ==> payload_part_matches(
            buf@,
            usable as int,
            max_frac,
            min_frac,
            off as int,
            lim as int,
            payload_size,
            leaf_table,
            fo.1,
            |full: Seq<u8>| full == fo.0@,
        ),
        r matches Ok(fo) ==> payload_resolves(
            buf@,
            usable as int,
            max_frac,
            min_frac,
            off as int,
            lim as int,
            payload_size,
            leaf_table,
        ) && fo.0@ == resolved_of(
            buf@,
            usable as int,
            max_frac,
            min_frac,
            off as int,
            lim as int,
            payload_size,
            leaf_table,
        ),
        r is Err ==> !payload_resolves(
            buf@,
            usable as int,
            max_frac,
            min_frac,
            off as int,
            lim as int,
            payload_size,
            leaf_table,
        ),
{
    let blen: usize = buf.len();
    let sp = match payload_split(usable, max_frac, min_frac, payload_size, leaf_table) {
        Ok(sp) => sp,
        Err(e) => {
            return Err(e);
        },
    };
    let local_len: usize = sp.0 as usize;
    let spilled: bool = sp.1;
    let tail: usize = if spilled {
        4
    } else {
        0
    };
    if lim - off < tail || lim - off - tail < local_len {
        return Err(SQLiteError::OutOfBounds);
    }
    let local = vstd::slice::slice_subrange(buf, off, off + local_len);
    if spilled {
        let ovf = read_be32(buf, off + local_len);
        let full = match resolve_payload(buf, usable as usize, local, ovf, payload_size) {
            Ok(v) => v,
            Err(e) => {
                return Err(e);
            },
        };
        Ok((full, Some(ovf)))
    } else {
        let full = crate::bytes::copy_bytes(local);
        Ok((full, None))
    }
}

/// Parse a table leaf cell at `off`.
pub fn parse_leaf_table_cell(
    buf: &[u8],
    usable: u32,
    max_frac: u8,
    min_frac: u8,
    off: usize,
    lim: usize,
) -> (r: Result<LeafTableCell, SQLiteError>)
    requires
        512 <= usable <= 0x10000,
        off <= lim <= buf@.len(),
    ensures
        r matches Ok(c) ==> leaf_table_cell_matches(
            buf@,
            usable as int,
            max_frac,
            min_frac,
            off as int,
            lim as int,
            c,
        ),
        r is Err ==> !leaf_table_cell_parses(
            buf@,
            usable as int,
            max_frac,
            min_frac,
            off as int,
            lim as int,
        ),
{
    let blen: usize = buf.len();
    let v0 = match read_varint(buf, off) {
        Ok(v) => v,
        Err(e) => {
            return Err(e);
        },
    };
    let v1 = match read_varint(buf, off + v0.1) {
        Ok(v) => v,
        Err(e) => {
            return Err(e);
        },
    };
    let body: usize = off + v0.1 + v1.1;
    if body > lim {
        return Err(SQLiteError::OutOfBounds);
    }
    let fo = match parse_payload_part(buf, usable, max_frac, min_frac, body, lim, v0.0, true) {
        Ok(fo) => fo,
        Err(e) => {
            return Err(e);
        },
    };
    let payload = match decode_table_record(fo.0.as_slice()) {
        Ok(p) => p,
        Err(e) => {
            return Err(e);
        },
    };
    Ok(LeafTableCell { payload_size: v0.0, rowid: v1.0, payload, overflow_page_no: fo.1 })
}

/// Parse an index leaf cell at `off`.
pub fn parse_leaf_index_cell(
    buf: &[u8],
    usable: u32,
    max_frac: u8,
    min_frac: u8,
    off: usize,
    lim: usize,
) -> (r: Result<LeafIndexCell, SQLiteError>)
    requires
        512 <= usable <= 0x10000,
        off <= lim <= buf@.len(),
    ensures
        r matches Ok(c) ==> leaf_index_cell_matches(
            buf@,
            usable as int,
            max_frac,
            min_frac,
            off as int,
            lim as int,
            c,
        ),
        r is Err ==> !leaf_index_cell_parses(
            buf@,
            usable as int,
            max_frac,
            min_frac,
            off as int,
            lim as int,
        ),
{
    let blen: usize = buf.len();
    let v0 = match read_varint(buf, off) {
        Ok(v) => v,
        Err(e) => {
            return Err(e);
        },
    };
    let body: usize = off + v0.1;
    if body > lim {
        return Err(SQLiteError::OutOfBounds);
    }
    let fo = match parse_payload_part(buf, usable, max_frac, min_frac, body, lim, v0.0, false) {
        Ok(fo) => fo,
        Err(e) => {
            return Err(e);
        },
    };
    let payload = match decode_index_record(fo.0.as_slice()) {
        Ok(p) => p,
        Err(e) => {
            return Err(e);
        },
    };
    Ok(LeafIndexCell { payload_size: v0.0, payload, overflow_page_no: fo.1 })
}

/// Parse an index interior cell at `off`.
pub fn parse_interior_index_cell(
    buf: &[u8],
    usable: u32,
    max_frac: u8,
    min_frac: u8,
    off: usize,
    lim: usize,
) -> (r: Result<InteriorIndexCell, SQLiteError>)
    requires
        512 <= usable <= 0x10000,
        off <= lim <= buf@.len(),
    ensures
        r matches Ok(c) ==> interior_index_cell_matches(
            buf@,
            usable as int,
            max_frac,
            min_frac,
            off as int,
            lim as int,
            c,
        ),
        r is Err ==> !interior_index_cell_parses(
            buf@,
            usable as int,
            max_frac,
            min_frac,
            off as int,
            lim as int,
        ),
{
    let blen: usize = buf.len();
    if lim - off < 4 {
        return Err(SQLiteError::OutOfBounds);
    }
    let left_child_page_no = read_be32(buf, off);
    let v0 = match read_varint(buf, off + 4) {
        Ok(v) => v,
        Err(e) => {
            return Err(e);
        },
    };
    let body: usize = off + 4 + v0.1;
    if body > lim {
        return Err(SQLiteError::OutOfBounds);
    }
    let fo = match parse_payload_part(buf, usable, max_frac, min_frac, body, lim, v0.0, false) {
        Ok(fo) => fo,
        Err(e) => {
            return Err(e);
        },
    };
    let payload = match decode_index_record(fo.0.as_slice()) {
        Ok(p) => p,
        Err(e) => {
            return Err(e);
        },
    };
    Ok(InteriorIndexCell { left_child_page_no, payload_size: v0.0, payload, overflow_page_no: fo.1 })
}

/// Parse a table interior cell at `off`.
pub fn parse_interior_table_cell(buf: &[u8], off: usize, lim: usize) -> (r: Result<
    InteriorTableCell,
    SQLiteError,
>)
    requires
        off <= lim <= buf@.len(),
    ensures
        r matches Ok(c) ==> interior_table_cell_matches(buf@, off as int, lim as int, c),
        r is Err ==> !interior_table_cell_parses(buf@, off as int, lim as int),
{
    let blen: usize = buf.len();
    if lim - off < 4 {
        return Err(SQLiteError::OutOfBounds);
    }
    let left_child_page_no = read_be32(buf, off);
    let v0 = match read_varint(buf, off + 4) {
        Ok(v) => v,
        Err(e) => {
            return Err(e);
        },
    };
    Ok(InteriorTableCell { left_child_page_no, integer_key: v0.0 })
}

/// What a decoded page must hold: the flag byte at the page's header
/// offset selects the role, the header fields and the cell-pointer array
/// are read there, and each cell decodes at its pointer, in on-disk
/// array order. Page 1 carries the 100-byte file header before its own.
pub open spec fn page_matches(buf: Seq<u8>, h: DbHeader, page_no: int, page: Page) -> bool {
    let ps = h.page_size.spec_real_size();
    let pstart = (page_no - 1) * ps;
    let hoff = pstart + if page_no == 1 {
        100int
    } else {
        0int
    };
    let lim = pstart + ps;
    match page {
        Page::InteriorIndex(p) => {
            &&& buf[hoff] == 2
            &&& interior_header_matches(buf, hoff, p.header)
            &&& hoff + 12 + 2 * (p.header.no_cells as int) <= lim
            &&& cell_ptrs_match(buf, hoff + 12, p.header.no_cells as int, p.cell_pointers@)
            &&& p.cells@.len() == p.header.no_cells
            &&& (forall|i: int|
                0 <= i < p.cells@.len() ==> interior_index_cell_matches(
                    buf,
                    ps,
                    h.max_payload_fraction,
                    h.min_payload_fraction,
                    pstart + p.cell_pointers@[i],
                    lim,
                    #[trigger] p.cells@[i],
                ))
        },
        Page::LeafIndex(p) => {
            &&& buf[hoff] == 10
            &&& leaf_header_matches(buf, hoff, p.header)
            &&& hoff + 8 + 2 * (p.header.no_cells as int) <= lim
            &&& cell_ptrs_match(buf, hoff + 8, p.header.no_cells as int, p.cell_pointers@)
            &&& p.cells@.len() == p.header.no_cells
            &&& (forall|i: int|
                0 <= i < p.cells@.len() ==> leaf_index_cell_matches(
                    buf,
                    ps,
                    h.max_payload_fraction,
                    h.min_payload_fraction,
                    pstart + p.cell_pointers@[i],
                    lim,
                    #[trigger] p.cells@[i],
                ))
        },
        Page::InteriorTable(p) => {
            &&& buf[hoff] == 5
            &&& interior_header_matches(buf, hoff, p.header)
            &&& hoff + 12 + 2 * (p.header.no_cells as int) <= lim
            &&& cell_ptrs_match(buf, hoff + 12, p.header.no_cells as int, p.cell_pointers@)
            &&& p.cells@.len() == p.header.no_cells
            &&& (forall|i: int|
                0 <= i < p.cells@.len() ==> interior_table_cell_matches(
                    buf,
                    pstart + p.cell_pointers@[i],
                    lim,
                    #[trigger] p.cells@[i],
                ))
        },
        Page::LeafTable(p) => {
            &&& buf[hoff] == 13
            &&& leaf_header_matches(buf, hoff, p.header)
            &&& hoff + 8 + 2 * (p.header.no_cells as int) <= lim
            &&& cell_ptrs_match(buf, hoff + 8, p.header.no_cells as int, p.cell_pointers@)
            &&& p.cells@.len() == p.header.no_cells
            &&& (forall|i: int|
                0 <= i < p.cells@.len() ==> leaf_table_cell_matches(
                    buf,
                    ps,
                    h.max_payload_fraction,
                    h.min_payload_fraction,
                    pstart + p.cell_pointers@[i],
                    lim,
                    #[trigger] p.cells@[i],
                ))
        },
    }
}

/// The four page-type flag bytes the format recognizes.
pub open spec fn known_page_flag(flag: u8) -> bool {
    flag == 2 || flag == 5 || flag == 10 || flag == 13
}

/// Parse one page of the file: classify it by its flag byte, read its
/// header and cell-pointer array, and decode every cell, following
/// overflow chains through the whole buffer where a payload spills.
/// An unrecognized flag is refused with the offending byte; a cell
/// pointer array or cell reaching past the page is refused.
pub fn parse_page(buf: &[u8], h: &DbHeader, page_no: u32) -> (r: Result<Page, SQLiteError>)
    requires
        h.page_size.wf(),
        1 <= page_no,
        (page_no as int) * h.page_size.spec_real_size() <= buf@.len(),
    ensures
        r matches Ok(p) ==> page_matches(buf@, *h, page_no as int, p),
        ({
            let ps = h.page_size.spec_real_size();
            let hoff = (page_no - 1) * ps + if page_no == 1 {
                100int
            } else {
                0int
            };
            !known_page_flag(buf@[hoff]) ==> r == Err::<Page, SQLiteError>(
                SQLiteError::UnknownPageType(buf@[hoff]),
            )
        }),
        ({
            let ps = h.page_size.spec_real_size();
            let pstart = (page_no - 1) * ps;
            let hoff = pstart + if page_no == 1 {
                100int
            } else {
                0int
            };
            let flag = buf@[hoff];
            let hdr_size: int = if flag == 2 || flag == 5 {
                12
            } else {
                8
            };
            known_page_flag(flag) && hoff + hdr_size + 2 * be_uint(
                buf@.subrange(hoff + 3, hoff + 5),
            ) > pstart + ps ==> r == Err::<Page, SQLiteError>(SQLiteError::OutOfBounds)
        }),
        r is Err ==> !page_parses(buf@, *h, page_no as int),
{
    let blen: usize = buf.len();
    let ps: usize = h.page_size.real_size();
    proof {
        assert(512 <= ps <= 0x10000);
        assert(((page_no - 1) as int) * (ps as int) + ps == (page_no as int) * (ps as int))
            by (nonlinear_arith);
        assert(((page_no - 1) as int) * (ps as int) >= 0) by (nonlinear_arith)
            requires
                page_no >= 1,
                ps >= 0,
        ;
    }
    let pstart: usize = (page_no as usize - 1) * ps;
    let lim: usize = pstart + ps;
    let hoff: usize = if page_no == 1 {
        pstart + 100
    } else {
        pstart
    };
    proof {
        assert(pstart as int == ((page_no - 1) as int) * (ps as int));
    }
    let ghost ghoff = hoff as int;
    let flag: u8 = buf[hoff];
    let ghost gbuf = buf@;
    let ghost gh = *h;
    let ghost gpstart = pstart as int;
    let ghost glim = lim as int;
    let maxf: u8 = h.max_payload_fraction;
    let minf: u8 = h.min_payload_fraction;
    if flag == 2 {
        let header = read_interior_header(buf, hoff);
        let ncells: usize = header.no_cells as usize;
        let arr_start: usize = hoff + 12;
        if 2 * ncells > lim - arr_start {
            return Err(SQLiteError::OutOfBounds);
        }
        let ptrs = read_cell_pointers(buf, arr_start, ncells);
        let mut cells: Vec<InteriorIndexCell> = Vec::new();
        let mut i: usize = 0;
        while i < ncells
            invariant
                i <= ncells,
                gbuf == buf@,
                blen == gbuf.len(),
                512 <= ps <= 0x10000,
                gpstart == pstart as int,
                gh == *h,
                ps == gh.page_size.spec_real_size(),
                gpstart == (page_no - 1) * gh.page_size.spec_real_size(),
                ghoff == gpstart + (if page_no == 1 {
                    100int
                } else {
                    0int
                }),
                gbuf[ghoff] == 2,
                ncells as int == be_uint(gbuf.subrange(ghoff + 3, ghoff + 5)),
                cell_ptrs_match(gbuf, ghoff + 12, ncells as int, ptrs@),
                ghoff + 12 + 2 * be_uint(gbuf.subrange(ghoff + 3, ghoff + 5)) <= glim,
                glim == lim as int,
                glim == gpstart + ps,
                lim <= blen,
                ptrs@.len() == ncells,
                maxf == gh.max_payload_fraction,
                minf == gh.min_payload_fraction,
                cells@.len() == i,
                forall|j: int|
                    0 <= j < i ==> interior_index_cell_matches(
                        gbuf,
                        ps as int,
                        maxf,
                        minf,
                        gpstart + ptrs@[j],
                        glim,
                        #[trigger] cells@[j],
                    ),
            decreases ncells - i,
        {
            let ptr: u16 = ptrs[i];
            if ptr as usize > ps {
                proof {
                    assert(!page_cell_parses(gbuf, gh, page_no as int, i as int));
                }
                return Err(SQLiteError::OutOfBounds);
            }
            let cell_off: usize = pstart + ptr as usize;
            let cell = match parse_interior_index_cell(buf, ps as u32, maxf, minf, cell_off, lim) {
                Ok(c) => c,
                Err(e) => {
                    proof {
                        assert(!page_cell_parses(gbuf, gh, page_no as int, i as int));
                    }
                    return Err(e);
                },
            };
            cells.push(cell);
            i = i + 1;
        }
        Ok(Page::InteriorIndex(InteriorIndexPage { header, cell_pointers: ptrs, cells }))
    } else if flag == 5 {
        let header = read_interior_header(buf, hoff);
        let ncells: usize = header.no_cells as usize;
        let arr_start: usize = hoff + 12;
        if 2 * ncells > lim - arr_start {
            return Err(SQLiteError::OutOfBounds);
        }
        let ptrs = read_cell_pointers(buf, arr_start, ncells);
        let mut cells: Vec<InteriorTableCell> = Vec::new();
        let mut i: usize = 0;
        while i < ncells
            invariant
                i <= ncells,
                gbuf == buf@,
                blen == gbuf.len(),
                512 <= ps <= 0x10000,
                gpstart == pstart as int,
                gh == *h,
                ps == gh.page_size.spec_real_size(),
                gpstart == (page_no - 1) * gh.page_size.spec_real_size(),
                ghoff == gpstart + (if page_no == 1 {
                    100int
                } else {
                    0int
                }),
                gbuf[ghoff] == 5,
                ncells as int == be_uint(gbuf.subrange(ghoff + 3, ghoff + 5)),
                cell_ptrs_match(gbuf, ghoff + 12, ncells as int, ptrs@),
                ghoff + 12 + 2 * be_uint(gbuf.subrange(ghoff + 3, ghoff + 5)) <= glim,
                glim == lim as int,
                glim == gpstart + ps,
                lim <= blen,
                ptrs@.len() == ncells,
                cells@.len() == i,
                forall|j: int|
                    0 <= j < i ==> interior_table_cell_matches(
                        gbuf,
                        gpstart + ptrs@[j],
                        glim,
                        #[trigger] cells@[j],
                    ),
            decreases ncells - i,
        {
            let ptr: u16 = ptrs[i];
            if ptr as usize > ps {
                proof {
                    assert(!page_cell_parses(gbuf, gh, page_no as int, i as int));
                }
                return Err(SQLiteError::OutOfBounds);
            }
            let cell_off: usize = pstart + ptr as usize;
            let cell = match parse_interior_table_cell(buf, cell_off, lim) {
                Ok(c) => c,
                Err(e) => {
                    proof {
                        assert(!page_cell_parses(gbuf, gh, page_no as int, i as int));
                    }
                    return Err(e);
                },
            };
            cells.push(cell);
            i = i + 1;
        }
        Ok(Page::InteriorTable(InteriorTablePage { header, cell_pointers: ptrs, cells }))
    } else if flag == 10 {
        let header = read_leaf_header(buf, hoff);
        let ncells: usize = header.no_cells as usize;
        let arr_start: usize = hoff + 8;
        if 2 * ncells > lim - arr_start {
            return Err(SQLiteError::OutOfBounds);
        }
        let ptrs = read_cell_pointers(buf, arr_start, ncells);
        let mut cells: Vec<LeafIndexCell> = Vec::new();
        let mut i: usize = 0;
        while i < ncells
            invariant
                i <= ncells,
                gbuf == buf@,
                blen == gbuf.len(),
                512 <= ps <= 0x10000,
                gpstart == pstart as int,
                gh == *h,
                ps == gh.page_size.spec_real_size(),
                gpstart == (page_no - 1) * gh.page_size.spec_real_size(),
                ghoff == gpstart + (if page_no == 1 {
                    100int
                } else {
                    0int
                }),
                gbuf[ghoff] == 10,
                ncells as int == be_uint(gbuf.subrange(ghoff + 3, ghoff + 5)),
                cell_ptrs_match(gbuf, ghoff + 8, ncells as int, ptrs@),
                ghoff + 8 + 2 * be_uint(gbuf.subrange(ghoff + 3, ghoff + 5)) <= glim,
                glim == lim as int,
                glim == gpstart + ps,
                lim <= blen,
                ptrs@.len() == ncells,
                maxf == gh.max_payload_fraction,
                minf == gh.min_payload_fraction,
                cells@.len() == i,
                forall|j: int|
                    0 <= j < i ==> leaf_index_cell_matches(
                        gbuf,
                        ps as int,
                        maxf,
                        minf,
                        gpstart + ptrs@[j],
                        glim,
                        #[trigger] cells@[j],
                    ),
            decreases ncells - i,
        {
            let ptr: u16 = ptrs[i];
            if ptr as usize > ps {
                proof {
                    assert(!page_cell_parses(gbuf, gh, page_no as int, i as int));
                }
                return Err(SQLiteError::OutOfBounds);
            }
            let cell_off: usize = pstart + ptr as usize;
            let cell = match parse_leaf_index_cell(buf, ps as u32, maxf, minf, cell_off, lim) {
                Ok(c) => c,
                Err(e) => {
                    proof {
                        assert(!page_cell_parses(gbuf, gh, page_no as int, i as int));
                    }
                    return Err(e);
                },
            };
            cells.push(cell);
            i = i + 1;
        }
        Ok(Page::LeafIndex(LeafIndexPage { header, cell_pointers: ptrs, cells }))
    } else if flag == 13 {
        let header = read_leaf_header(buf, hoff);
        let ncells: usize = header.no_cells as usize;
        let arr_start: usize = hoff + 8;
        if 2 * ncells > lim - arr_start {
            return Err(SQLiteError::OutOfBounds);
        }
        let ptrs = read_cell_pointers(buf, arr_start, ncells);
        let mut cells: Vec<LeafTableCell> = Vec::new();
        let mut i: usize = 0;
        while i < ncells
            invariant
                i <= ncells,
                gbuf == buf@,
                blen == gbuf.len(),
                512 <= ps <= 0x10000,
                gpstart == pstart as int,
                gh == *h,
                ps == gh.page_size.spec_real_size(),
                gpstart == (page_no - 1) * gh.page_size.spec_real_size(),
                ghoff == gpstart + (if page_no == 1 {
                    100int
                } else {
                    0int
                }),
                gbuf[ghoff] == 13,
                ncells as int == be_uint(gbuf.subrange(ghoff + 3, ghoff + 5)),
                cell_ptrs_match(gbuf, ghoff + 8, ncells as int, ptrs@),
                ghoff + 8 + 2 * be_uint(gbuf.subrange(ghoff + 3, ghoff + 5)) <= glim,
                glim == lim as int,
                glim == gpstart + ps,
                lim <= blen,
                ptrs@.len() == ncells,
                maxf == gh.max_payload_fraction,
                minf == gh.min_payload_fraction,
                cells@.len() == i,
                forall|j: int|
                    0 <= j < i ==> leaf_table_cell_matches(
                        gbuf,
                        ps as int,
                        maxf,
                        minf,
                        gpstart + ptrs@[j],
                        glim,
                        #[trigger] cells@[j],
                    ),
            decreases ncells - i,
        {
            let ptr: u16 = ptrs[i];
            if ptr as usize > ps {
                proof {
                    assert(!page_cell_parses(gbuf, gh, page_no as int, i as int));
                }
                return Err(SQLiteError::OutOfBounds);
            }
            let cell_off: usize = pstart + ptr as usize;
            let cell = match parse_leaf_table_cell(buf, ps as u32, maxf, minf, cell_off, lim) {
                Ok(c) => c,
                Err(e) => {
                    proof {
                        assert(!page_cell_parses(gbuf, gh, page_no as int, i as int));
                    }
                    return Err(e);
                },
            };
            cells.push(cell);
            i = i + 1;
        }
        Ok(Page::LeafTable(LeafTablePage { header, cell_pointers: ptrs, cells }))
    } else {
        Err(SQLiteError::UnknownPageType(flag))
    }
}

/// A payload larger than its page's local maximum always carries an
/// overflow page number, and the payload the record was decoded from has
/// exactly the declared size.
pub proof fn lemma_spilled_payload(
    buf: Seq<u8>,
    usable: int,
    max_frac: u8,
    min_frac: u8,
    off: int,
    lim: int,
    payload_size: u64,
    leaf_table: bool,
    overflow: Option<u32>,
    ok_record: spec_fn(Seq<u8>) -> bool,
)
    requires
        512 <= usable <= 0x10000,
        0 <= off,
        lim <= buf.len(),
        payload_part_matches(
            buf,
            usable,
            max_frac,
            min_frac,
            off,
            lim,
            payload_size,
            leaf_table,
            overflow,
            ok_record,
        ),
        payload_size > crate::overflow::spec_max_local(usable, max_frac, leaf_table),
    ensures
        overflow is Some,
        exists|full: Seq<u8>| #[trigger] ok_record(full) && full.len() == payload_size,
{
    let sp = spec_payload_split(usable, max_frac, min_frac, payload_size, leaf_table).unwrap();
    assert(sp.1);
    let p = overflow.unwrap();
    let local = buf.subrange(off, off + sp.0);
    let rest = spec_chain(
        buf,
        usable,
        p,
        payload_size - sp.0,
        chain_fuel(buf.len() as int, usable),
    ).unwrap();
    crate::overflow::lemma_spec_chain_len(
        buf,
        usable,
        p,
        payload_size - sp.0,
        chain_fuel(buf.len() as int, usable),
    );
    assert(ok_record(local + rest) && (local + rest).len() == payload_size);
}

} // verus!
