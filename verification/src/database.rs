use vstd::prelude::*;
use crate::bytes::be_uint;
use crate::error::SQLiteError;
use crate::header::{header_matches, magic_ok, parse_db_header, DbHeader};
use crate::model::{spec_text_encoding, PageSize};
use crate::page::{page_matches, page_parses, parse_page, Page};

verus! {

/// The decoded file: its header and every page, in page-number order.
/// Every byte range a decoded value holds was copied out of the buffer
/// it was parsed from; nothing borrows it.
#[derive(Debug, Clone, PartialEq)]
pub struct Database {
    pub header: DbHeader,
    pub pages: Vec<Page>,
}

/// How many pages the buffer holds: the header's declared count when it
/// is non-zero, else the count the buffer's length implies.
pub open spec fn spec_page_count(buf_len: int, h: DbHeader) -> int {
    if h.db_size != 0 {
        h.db_size as int
    } else {
        buf_len / h.page_size.spec_real_size()
    }
}

/// The header a well-formed 100-byte prefix denotes, field by field.
pub open spec fn spec_header_of(s: Seq<u8>) -> DbHeader {
    DbHeader {
        page_size: PageSize(be_uint(s.subrange(16, 18)) as u16),
        write_version: s[18],
        read_version: s[19],
        max_payload_fraction: s[20],
        min_payload_fraction: s[21],
        leaf_payload_fraction: s[22],
        file_change_counter: be_uint(s.subrange(24, 28)) as u32,
        db_size: be_uint(s.subrange(28, 32)) as u32,
        first_freelist_page_no: be_uint(s.subrange(32, 36)) as u32,
        total_freelist_pages: be_uint(s.subrange(36, 40)) as u32,
        schema_cookie: be_uint(s.subrange(40, 44)) as u32,
        schema_format_no: be_uint(s.subrange(44, 48)) as u32,
        default_page_cache_size: be_uint(s.subrange(48, 52)) as u32,
        no_largest_root_b_tree: be_uint(s.subrange(52, 56)) as u32,
        db_text_encoding: spec_text_encoding(be_uint(s.subrange(56, 60)) as u32).unwrap(),
        user_version: be_uint(s.subrange(60, 64)) as u32,
        incremental_vacuum_mode: be_uint(s.subrange(64, 68)) as u32,
        application_id: be_uint(s.subrange(68, 72)) as u32,
        version_valid_for_no: be_uint(s.subrange(92, 96)) as u32,
        sqlite_version_number: be_uint(s.subrange(96, 100)) as u32,
    }
}

/// Whether a whole buffer decodes: a valid header, a length that is
/// exactly the pages the header implies, and every page decoding.
pub open spec fn database_parses(buf: Seq<u8>) -> bool {
    let rs = PageSize(be_uint(buf.subrange(16, 18)) as u16).spec_real_size();
    let dbs = be_uint(buf.subrange(28, 32));
    let n = spec_page_count(buf.len() as int, spec_header_of(buf));
    &&& buf.len() >= 100
    &&& magic_ok(buf)
    &&& PageSize(be_uint(buf.subrange(16, 18)) as u16).wf()
    &&& spec_text_encoding(be_uint(buf.subrange(56, 60)) as u32) is Ok
    &&& (if dbs != 0 {
        buf.len() == dbs * rs
    } else {
        (buf.len() as int) % rs == 0
    })
    &&& n <= 0xFFFF_FFFF
    &&& (forall|p: int| 1 <= p <= n ==> #[trigger] page_parses(buf, spec_header_of(buf), p))
}

/// Decode a whole database file: the 100-byte header, then every page in
/// order, each cell of each page, following overflow chains. The buffer
/// must hold exactly the pages the header implies: a declared page count
/// that disagrees with the buffer length, or a buffer that is no whole
/// number of pages, is refused.
pub fn parse_database(buf: &[u8]) -> (r: Result<Database, SQLiteError>)
    ensures
        r matches Ok(db) ==> {
            &&& buf@.len() >= 100
            &&& magic_ok(buf@)
            &&& db.header.page_size.wf()
            &&& header_matches(buf@, db.header)
            &&& buf@.len() == spec_page_count(buf@.len() as int, db.header)
                * db.header.page_size.spec_real_size()
            &&& db.pages@.len() == spec_page_count(buf@.len() as int, db.header)
            &&& (forall|i: int|
                0 <= i < db.pages@.len() ==> page_matches(
                    buf@,
                    db.header,
                    i + 1,
                    #[trigger] db.pages@[i],
                ))
        },
        buf@.len() < 100 ==> r == Err::<Database, SQLiteError>(SQLiteError::OutOfBounds),
        buf@.len() >= 100 && !magic_ok(buf@) ==> r == Err::<Database, SQLiteError>(
            SQLiteError::InvalidMagic,
        ),
        buf@.len() >= 100 && magic_ok(buf@) && !PageSize(
            be_uint(buf@.subrange(16, 18)) as u16,
        ).wf() ==> r == Err::<Database, SQLiteError>(
            SQLiteError::InvalidPageSize(be_uint(buf@.subrange(16, 18)) as u16),
        ),
        buf@.len() >= 100 && magic_ok(buf@) && PageSize(be_uint(buf@.subrange(16, 18)) as u16).wf()
            && spec_text_encoding(be_uint(buf@.subrange(56, 60)) as u32) is Err ==> r == Err::<
            Database,
            SQLiteError,
        >(SQLiteError::UnknownTextEncodingError(be_uint(buf@.subrange(56, 60)) as u32)),
        ({
            let hdr_ok = buf@.len() >= 100 && magic_ok(buf@) && PageSize(
                be_uint(buf@.subrange(16, 18)) as u16,
            ).wf() && spec_text_encoding(be_uint(buf@.subrange(56, 60)) as u32) is Ok;
            let rs = PageSize(be_uint(buf@.subrange(16, 18)) as u16).spec_real_size();
            let dbs = be_uint(buf@.subrange(28, 32));
            &&& (hdr_ok && dbs != 0 && buf@.len() != dbs * rs ==> r == Err::<
                Database,
                SQLiteError,
            >(SQLiteError::PageCountMismatch))
            &&& (hdr_ok && dbs == 0 && (buf@.len() as int) % rs != 0 ==> r == Err::<
                Database,
                SQLiteError,
            >(SQLiteError::PageCountMismatch))
        }),
        r is Err ==> !database_parses(buf@),
{
    let blen: usize = buf.len();
    if blen < 100 {
        return Err(SQLiteError::OutOfBounds);
    }
    let header = match parse_db_header(buf) {
        Ok(h) => h,
        Err(e) => {
            return Err(e);
        },
    };
    let ps: usize = header.page_size.real_size();
    proof {
        assert(header == spec_header_of(buf@));
        assert((header.db_size as int) * (ps as int) < 0x1_0000_0000_0000_0000
            && (header.db_size as int) * (ps as int) >= 0) by (nonlinear_arith)
            requires
                0 <= header.db_size < 0x1_0000_0000,
                0 <= ps <= 0x10000,
        ;
    }
    let n: usize = if header.db_size != 0 {
        if (blen as u64) != (header.db_size as u64) * (ps as u64) {
            return Err(SQLiteError::PageCountMismatch);
        }
        proof {
            assert(blen as int == (header.db_size as int) * (ps as int));
        }
        header.db_size as usize
    } else {
        if blen % ps != 0 {
            return Err(SQLiteError::PageCountMismatch);
        }
        proof {
            vstd::arithmetic::div_mod::lemma_fundamental_div_mod(blen as int, ps as int);
            assert((blen as int) == ((blen as int) / (ps as int)) * (ps as int))
                by (nonlinear_arith)
                requires
                    ps > 0,
                    blen as int == (ps as int) * ((blen as int) / (ps as int)) + (blen as int) % (
                    ps as int),
                    (blen as int) % (ps as int) == 0,
            ;
        }
        blen / ps
    };
    if n > 0xFFFF_FFFFusize {
        return Err(SQLiteError::PageCountMismatch);
    }
    proof {
        vstd::arithmetic::div_mod::lemma_mod_multiples_basic(n as int, ps as int);
        assert((n as int) * (ps as int) == blen);
        assert((blen as int) % (ps as int) == 0);
    }
    proof {
        assert(blen as int == spec_page_count(blen as int, header)
            * header.page_size.spec_real_size());
    }
    let mut pages: Vec<Page> = Vec::new();
    let mut i: usize = 0;
    while i < n
        invariant
            i <= n,
            blen == buf@.len(),
            blen >= 100,
            magic_ok(buf@),
            header_matches(buf@, header),
            header.page_size.wf(),
            ps == header.page_size.spec_real_size(),
            n <= 0xFFFF_FFFF,
            (n as int) * (ps as int) == blen,
            header.db_size != 0 ==> n == header.db_size,
            (blen as int) % (ps as int) == 0,
            header == spec_header_of(buf@),
            n as int == spec_page_count(blen as int, header),
            pages@.len() == i,
            forall|j: int|
                0 <= j < i ==> page_matches(buf@, header, j + 1, #[trigger] pages@[j]),
        decreases n - i,
    {
        proof {
            assert(((i + 1) as int) * (ps as int) <= (n as int) * (ps as int))
                by (nonlinear_arith)
                requires
                    i + 1 <= n,
                    ps >= 0,
            ;
        }
        let page = match parse_page(buf, &header, (i + 1) as u32) {
            Ok(p) => p,
            Err(e) => {
                proof {
                    assert(!page_parses(buf@, spec_header_of(buf@), i + 1));
                }
                return Err(e);
            },
        };
        pages.push(page);
        i = i + 1;
    }
    Ok(Database { header, pages })
}

} // verus!
