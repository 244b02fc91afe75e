use vstd::prelude::*;
use crate::bytes::{be_uint, read_be16, read_be32};
use crate::error::SQLiteError;
use crate::model::{spec_text_encoding, CellOffset, PageSize, TextEncoding};

verus! {

/// The fixed-offset fields of the 100-byte file header, parsed once from
/// the first page and immutable thereafter.
#[derive(Debug, Clone, PartialEq)]
pub struct DbHeader {
    pub page_size: PageSize,
    pub write_version: u8,
    pub read_version: u8,
    pub max_payload_fraction: u8,
    pub min_payload_fraction: u8,
    pub leaf_payload_fraction: u8,
    pub file_change_counter: u32,
    pub db_size: u32,
    pub first_freelist_page_no: u32,
    pub total_freelist_pages: u32,
    pub schema_cookie: u32,
    pub schema_format_no: u32,
    pub default_page_cache_size: u32,
    pub no_largest_root_b_tree: u32,
    pub db_text_encoding: TextEncoding,
    pub user_version: u32,
    pub incremental_vacuum_mode: u32,
    pub application_id: u32,
    pub version_valid_for_no: u32,
    pub sqlite_version_number: u32,
}

/// The leading 16 bytes spell the format's magic string.
pub open spec fn magic_ok(s: Seq<u8>) -> bool {
    &&& s.len() >= 16
    &&& s[0] == 0x53
    &&& s[1] == 0x51
    &&& s[2] == 0x4c
    &&& s[3] == 0x69
    &&& s[4] == 0x74
    &&& s[5] == 0x65
    &&& s[6] == 0x20
    &&& s[7] == 0x66
    &&& s[8] == 0x6f
    &&& s[9] == 0x72
    &&& s[10] == 0x6d
    &&& s[11] == 0x61
    &&& s[12] == 0x74
    &&& s[13] == 0x20
    &&& s[14] == 0x33
    &&& s[15] == 0x00
}

/// Every field a decoded header must hold, each read big-endian at its
/// fixed offset in the first 100 bytes.
pub open spec fn header_matches(s: Seq<u8>, h: DbHeader) -> bool {
    &&& h.page_size.0 == be_uint(s.subrange(16, 18))
    &&& h.write_version == s[18]
    &&& h.read_version == s[19]
    &&& h.max_payload_fraction == s[20]
    &&& h.min_payload_fraction == s[21]
    &&& h.leaf_payload_fraction == s[22]
    &&& h.file_change_counter == be_uint(s.subrange(24, 28))
    &&& h.db_size == be_uint(s.subrange(28, 32))
    &&& h.first_freelist_page_no == be_uint(s.subrange(32, 36))
    &&& h.total_freelist_pages == be_uint(s.subrange(36, 40))
    &&& h.schema_cookie == be_uint(s.subrange(40, 44))
    &&& h.schema_format_no == be_uint(s.subrange(44, 48))
    &&& h.default_page_cache_size == be_uint(s.subrange(48, 52))
    &&& h.no_largest_root_b_tree == be_uint(s.subrange(52, 56))
    &&& spec_text_encoding(be_uint(s.subrange(56, 60)) as u32) == Ok::<
        TextEncoding,
        SQLiteError,
    >(h.db_text_encoding)
    &&& h.user_version == be_uint(s.subrange(60, 64))
    &&& h.incremental_vacuum_mode == be_uint(s.subrange(64, 68))
    &&& h.application_id == be_uint(s.subrange(68, 72))
    &&& h.version_valid_for_no == be_uint(s.subrange(92, 96))
    &&& h.sqlite_version_number == be_uint(s.subrange(96, 100))
}

/// Parse the 100-byte file header. Succeeds exactly when the magic string
/// matches, the stored page size denotes a power of two in [512, 65536],
/// and the text-encoding code is 1, 2 or 3; each check that fails names
/// the offending value, in that order.
pub fn parse_db_header(buf: &[u8]) -> (r: Result<DbHeader, SQLiteError>)
    requires
        buf@.len() >= 100,
    ensures
        match r {
            Ok(h) => {
                &&& magic_ok(buf@)
                &&& h.page_size.wf()
                &&& header_matches(buf@, h)
            },
            Err(e) => {
                ||| (e == SQLiteError::InvalidMagic && !magic_ok(buf@))
                ||| {
                    &&& e matches SQLiteError::InvalidPageSize(v)
                    &&& magic_ok(buf@)
                    &&& v == be_uint(buf@.subrange(16, 18))
                    &&& !PageSize(v).wf()
                }
                ||| {
                    &&& e matches SQLiteError::UnknownTextEncodingError(v)
                    &&& magic_ok(buf@)
                    &&& PageSize(be_uint(buf@.subrange(16, 18)) as u16).wf()
                    &&& v == be_uint(buf@.subrange(56, 60))
                    &&& spec_text_encoding(v) is Err
                }
            },
        },
{
    let m = buf[0] == 0x53 && buf[1] == 0x51 && buf[2] == 0x4c && buf[3] == 0x69 && buf[4] == 0x74
        && buf[5] == 0x65 && buf[6] == 0x20 && buf[7] == 0x66 && buf[8] == 0x6f && buf[9] == 0x72
        && buf[10] == 0x6d && buf[11] == 0x61 && buf[12] == 0x74 && buf[13] == 0x20
        && buf[14] == 0x33 && buf[15] == 0x00;
    if !m {
        return Err(SQLiteError::InvalidMagic);
    }
    let page_size_raw = read_be16(buf, 16);
    let page_size = PageSize(page_size_raw);
    let size_ok = page_size_raw == 1 || page_size_raw == 512 || page_size_raw == 1024
        || page_size_raw == 2048 || page_size_raw == 4096 || page_size_raw == 8192
        || page_size_raw == 16384 || page_size_raw == 32768;
    if !size_ok {
        return Err(SQLiteError::InvalidPageSize(page_size_raw));
    }
    let enc_raw = read_be32(buf, 56);
    let db_text_encoding = match TextEncoding::try_from(enc_raw) {
        Ok(enc) => enc,
        Err(e) => {
            return Err(e);
        },
    };
    Ok(
        DbHeader {
            page_size,
            write_version: buf[18],
            read_version: buf[19],
            max_payload_fraction: buf[20],
            min_payload_fraction: buf[21],
            leaf_payload_fraction: buf[22],
            file_change_counter: read_be32(buf, 24),
            db_size: read_be32(buf, 28),
            first_freelist_page_no: read_be32(buf, 32),
            total_freelist_pages: read_be32(buf, 36),
            schema_cookie: read_be32(buf, 40),
            schema_format_no: read_be32(buf, 44),
            default_page_cache_size: read_be32(buf, 48),
            no_largest_root_b_tree: read_be32(buf, 52),
            db_text_encoding,
            user_version: read_be32(buf, 60),
            incremental_vacuum_mode: read_be32(buf, 64),
            application_id: read_be32(buf, 68),
            version_valid_for_no: read_be32(buf, 92),
            sqlite_version_number: read_be32(buf, 96),
        },
    )
}

/// First-freeblock offset (zero stored means none), cell count, start of
/// the cell content area and fragmented free byte count of a leaf page.
#[derive(Debug, Clone, PartialEq)]
pub struct LeafPageHeader {
    pub first_freeblock_offset: Option<u16>,
    pub no_cells: u16,
    pub cell_content_offset: CellOffset,
    pub no_fragmented_bytes: u8,
}

/// The leaf fields plus the rightmost child page number an interior page
/// carries.
#[derive(Debug, Clone, PartialEq)]
pub struct InteriorPageHeader {
    pub first_freeblock_offset: Option<u16>,
    pub no_cells: u16,
    pub cell_content_offset: CellOffset,
    pub no_fragmented_bytes: u8,
    pub rightmost_pointer: u32,
}

} // verus!
