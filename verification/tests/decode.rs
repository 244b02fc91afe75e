use sqlite_decode::database::parse_database;
use sqlite_decode::error::SQLiteError;
use sqlite_decode::header::parse_db_header;
use sqlite_decode::model::{Payload, SerialType, TextEncoding};
use sqlite_decode::overflow::{payload_split, resolve_payload};
use sqlite_decode::page::{parse_interior_table_cell, parse_page, Page};
use sqlite_decode::record::{decode_index_record, decode_table_record};

fn header_bytes(page_size: u16, db_size: u32, enc: u32) -> [u8; 100] {
    let mut h = [0u8; 100];
    h[..16].copy_from_slice(b"SQLite format 3\0");
    h[16..18].copy_from_slice(&page_size.to_be_bytes());
    h[18] = 1;
    h[19] = 1;
    h[20] = 64;
    h[21] = 32;
    h[22] = 32;
    h[24..28].copy_from_slice(&7u32.to_be_bytes());
    h[28..32].copy_from_slice(&db_size.to_be_bytes());
    h[56..60].copy_from_slice(&enc.to_be_bytes());
    h
}

#[test]
fn single_column_i8_record() {
    let p = decode_table_record(&[2, 1, 0x7f]).unwrap();
    assert_eq!(p.header_size, 2);
    assert_eq!(p.column_types, vec![SerialType::I8]);
    assert_eq!(p.column_values, vec![Some(Payload::I8(127))]);
}

#[test]
fn record_integer_sign_extension() {
    let p = decode_table_record(&[2, 2, 0xFF, 0xFE]).unwrap();
    assert_eq!(p.column_values, vec![Some(Payload::I16(-2))]);
    let p = decode_table_record(&[2, 3, 0xFF, 0xFF, 0xFF]).unwrap();
    assert_eq!(p.column_values, vec![Some(Payload::I32(-1))]);
    let p = decode_table_record(&[2, 6, 0x80, 0, 0, 0, 0, 0, 0, 0]).unwrap();
    assert_eq!(p.column_values, vec![Some(Payload::I64(i64::MIN))]);
}

#[test]
fn record_constants_and_null() {
    let p = decode_table_record(&[4, 0, 8, 9]).unwrap();
    assert_eq!(p.column_types, vec![SerialType::Null, SerialType::Const0, SerialType::Const1]);
    assert_eq!(p.column_values, vec![None, Some(Payload::I8(0)), Some(Payload::I8(1))]);
}

#[test]
fn record_blob_and_text() {
    let p = decode_table_record(&[3, 18, 19, b'a', b'b', b'c', b'x', b'y', b'z']).unwrap();
    assert_eq!(p.column_types, vec![SerialType::Blob(18), SerialType::Text(19)]);
    match &p.column_values[0] {
        Some(Payload::Blob(b)) => assert_eq!(b.as_slice(), b"abc"),
        other => panic!("expected blob, got {:?}", other),
    }
    match &p.column_values[1] {
        Some(Payload::Text(t)) => {
            assert_eq!(t.decode(TextEncoding::Utf8), Ok(String::from("xyz")))
        }
        other => panic!("expected text, got {:?}", other),
    }
}

#[test]
fn record_double_bit_for_bit() {
    let bits = 1.5f64.to_bits();
    let mut bytes = vec![2u8, 7];
    bytes.extend_from_slice(&bits.to_be_bytes());
    let p = decode_table_record(&bytes).unwrap();
    assert_eq!(p.column_values, vec![Some(Payload::F64(bits))]);
}

#[test]
fn record_reserved_code_fails() {
    assert_eq!(decode_table_record(&[2, 10]), Err(SQLiteError::ReservedSerialType));
    assert_eq!(decode_table_record(&[2, 11, 1, 0x05]), Err(SQLiteError::ReservedSerialType));
}

#[test]
fn record_truncated_fails() {
    assert_eq!(decode_table_record(&[]), Err(SQLiteError::OutOfBounds));
    assert_eq!(decode_table_record(&[5, 1]), Err(SQLiteError::OutOfBounds));
    assert_eq!(decode_table_record(&[2, 1]), Err(SQLiteError::OutOfBounds));
}

#[test]
fn index_record_trailing_rowid() {
    let p = decode_index_record(&[3, 1, 1, 5, 9]).unwrap();
    assert_eq!(p.column_types, vec![SerialType::I8]);
    assert_eq!(p.column_values, vec![Some(Payload::I8(5))]);
    assert_eq!(p.rowid, 9);
}

#[test]
fn index_record_negative_rowid_pattern() {
    let p = decode_index_record(&[3, 1, 1, 5, 0xFF]).unwrap();
    assert_eq!(p.rowid, u64::MAX);
}

#[test]
fn index_record_without_integer_rowid_fails() {
    assert_eq!(decode_index_record(&[2, 0]), Err(SQLiteError::InvalidIndexRowId));
    assert_eq!(decode_index_record(&[1]), Err(SQLiteError::InvalidIndexRowId));
    assert_eq!(decode_index_record(&[2, 7]), Err(SQLiteError::OutOfBounds));
}

#[test]
fn interior_table_cell_varints() {
    let c = parse_interior_table_cell(&[0, 0, 0, 5, 0x81, 0x00], 0, 6).unwrap();
    assert_eq!(c.left_child_page_no, 5);
    assert_eq!(c.integer_key, 128);
    let nine = [0u8, 0, 0, 1, 0xFF, 0xFF, 0xFF, 0xFF, 0xFF, 0xFF, 0xFF, 0xFF, 0xFF];
    let c = parse_interior_table_cell(&nine, 0, nine.len()).unwrap();
    assert_eq!(c.integer_key, u64::MAX);
}

#[test]
fn payload_split_inline_and_spill() {
    assert_eq!(payload_split(512, 64, 32, 100, true), Ok((100, false)));
    assert_eq!(payload_split(512, 64, 32, 477, true), Ok((477, false)));
    // 600 > 477, minimum 39, and 39 + (600 - 39) % 508 = 92 stays local
    assert_eq!(payload_split(512, 64, 32, 600, true), Ok((92, true)));
    // index pages use the fraction-derived maximum: (500 * 64) / 255 - 23 = 102
    assert_eq!(payload_split(512, 64, 32, 102, false), Ok((102, false)));
    // 39 + (103 - 39) % 508 = 103 exceeds the maximum, so the minimum stays
    assert_eq!(payload_split(512, 64, 32, 103, false), Ok((39, true)));
    // 39 + (611 - 39) % 508 = 103 exceeds it too; 39 + (547 - 39) % 508 = 39 does not
    assert_eq!(payload_split(512, 64, 32, 547, false), Ok((39, true)));
    assert_eq!(payload_split(512, 0, 32, 1, false), Err(SQLiteError::InvalidPayloadFractions));
}

#[test]
fn overflow_chain_reassembles_declared_size() {
    // two pages of 512 bytes; the second is the sole overflow page
    let mut buf = vec![0u8; 1024];
    for (i, b) in buf[516..1024].iter_mut().enumerate() {
        *b = (i % 251) as u8;
    }
    let local: Vec<u8> = (0..92u32).map(|i| (i % 13) as u8).collect();
    let (local_len, spilled) = payload_split(512, 64, 32, 600, true).unwrap();
    assert_eq!(local_len as usize, local.len());
    assert!(spilled);
    let full = resolve_payload(&buf, 512, &local, 2, 600).unwrap();
    assert_eq!(full.len(), 600);
    assert_eq!(&full[..92], local.as_slice());
    assert_eq!(&full[92..], &buf[516..1024]);
}

#[test]
fn overflow_chain_truncated() {
    let buf = vec![0u8; 1024];
    let local = [0u8; 10];
    assert_eq!(
        resolve_payload(&buf, 512, &local, 2, 700),
        Err(SQLiteError::OverflowChainTruncated)
    );
}

#[test]
fn overflow_chain_cycle_detected() {
    let mut buf = vec![0u8; 1024];
    buf[512..516].copy_from_slice(&2u32.to_be_bytes());
    let local = [0u8; 0];
    assert_eq!(
        resolve_payload(&buf, 512, &local, 2, 5000),
        Err(SQLiteError::OverflowChainTooLong)
    );
}

#[test]
fn overflow_chain_out_of_bounds() {
    let buf = vec![0u8; 1024];
    let local = [0u8; 0];
    assert_eq!(resolve_payload(&buf, 512, &local, 9, 100), Err(SQLiteError::OutOfBounds));
}

#[test]
fn header_fields_decode() {
    let h = parse_db_header(&header_bytes(4096, 9, 1)).unwrap();
    assert_eq!(h.page_size.real_size(), 4096);
    assert_eq!(h.write_version, 1);
    assert_eq!(h.read_version, 1);
    assert_eq!(h.max_payload_fraction, 64);
    assert_eq!(h.min_payload_fraction, 32);
    assert_eq!(h.leaf_payload_fraction, 32);
    assert_eq!(h.file_change_counter, 7);
    assert_eq!(h.db_size, 9);
    assert_eq!(h.db_text_encoding, TextEncoding::Utf8);
}

#[test]
fn header_rejects_bad_magic() {
    let mut bytes = header_bytes(4096, 1, 1);
    bytes[0] = b'X';
    assert_eq!(parse_db_header(&bytes), Err(SQLiteError::InvalidMagic));
}

#[test]
fn header_rejects_bad_page_size() {
    let bytes = header_bytes(300, 1, 1);
    assert_eq!(parse_db_header(&bytes), Err(SQLiteError::InvalidPageSize(300)));
}

#[test]
fn header_rejects_bad_encoding() {
    let bytes = header_bytes(4096, 1, 5);
    assert_eq!(parse_db_header(&bytes), Err(SQLiteError::UnknownTextEncodingError(5)));
}

fn one_page_db(flag: u8) -> Vec<u8> {
    let mut buf = vec![0u8; 512];
    buf[..100].copy_from_slice(&header_bytes(512, 1, 1));
    buf[100] = flag;
    buf
}

#[test]
fn database_single_leaf_table_page() {
    let mut buf = one_page_db(13);
    buf[103..105].copy_from_slice(&1u16.to_be_bytes());
    buf[105..107].copy_from_slice(&400u16.to_be_bytes());
    buf[108..110].copy_from_slice(&400u16.to_be_bytes());
    buf[400..405].copy_from_slice(&[3, 7, 2, 1, 0x7f]);
    let db = parse_database(&buf).unwrap();
    assert_eq!(db.pages.len(), 1);
    match &db.pages[0] {
        Page::LeafTable(p) => {
            assert_eq!(p.header.first_freeblock_offset, None);
            assert_eq!(p.header.no_cells, 1);
            assert_eq!(p.header.cell_content_offset.real_offset(), 400);
            assert_eq!(p.cell_pointers, vec![400]);
            assert_eq!(p.cells.len(), 1);
            let c = &p.cells[0];
            assert_eq!(c.payload_size, 3);
            assert_eq!(c.rowid, 7);
            assert_eq!(c.overflow_page_no, None);
            assert_eq!(c.payload.header_size, 2);
            assert_eq!(c.payload.column_types, vec![SerialType::I8]);
            assert_eq!(c.payload.column_values, vec![Some(Payload::I8(127))]);
        }
        other => panic!("expected leaf table page, got {:?}", other),
    }
}

#[test]
fn database_interior_table_page() {
    let mut buf = one_page_db(5);
    buf[103..105].copy_from_slice(&1u16.to_be_bytes());
    buf[105..107].copy_from_slice(&400u16.to_be_bytes());
    buf[108..112].copy_from_slice(&3u32.to_be_bytes());
    buf[112..114].copy_from_slice(&400u16.to_be_bytes());
    buf[400..405].copy_from_slice(&[0, 0, 0, 2, 0x2A]);
    let db = parse_database(&buf).unwrap();
    match &db.pages[0] {
        Page::InteriorTable(p) => {
            assert_eq!(p.header.rightmost_pointer, 3);
            assert_eq!(p.cells[0].left_child_page_no, 2);
            assert_eq!(p.cells[0].integer_key, 42);
        }
        other => panic!("expected interior table page, got {:?}", other),
    }
}

#[test]
fn database_rejects_unknown_page_type() {
    let buf = one_page_db(7);
    assert_eq!(parse_database(&buf), Err(SQLiteError::UnknownPageType(7)));
}

#[test]
fn database_rejects_oversized_cell_array() {
    let mut buf = one_page_db(13);
    buf[103..105].copy_from_slice(&1000u16.to_be_bytes());
    assert_eq!(parse_database(&buf), Err(SQLiteError::OutOfBounds));
}

#[test]
fn database_rejects_page_count_mismatch() {
    let mut buf = vec![0u8; 512];
    buf[..100].copy_from_slice(&header_bytes(512, 2, 1));
    assert_eq!(parse_database(&buf), Err(SQLiteError::PageCountMismatch));
    let mut buf = vec![0u8; 600];
    buf[..100].copy_from_slice(&header_bytes(512, 0, 1));
    assert_eq!(parse_database(&buf), Err(SQLiteError::PageCountMismatch));
}

#[test]
fn database_rejects_short_buffer() {
    assert_eq!(parse_database(&[0u8; 50]), Err(SQLiteError::OutOfBounds));
}

#[test]
fn database_leaf_cell_with_overflow() {
    // one leaf-table page plus one overflow page, 512 bytes each
    let mut payload = vec![0x03u8, 0x89, 0x36];
    payload.extend((0..597u32).map(|i| (i % 241) as u8));
    assert_eq!(payload.len(), 600);

    let mut buf = vec![0u8; 1024];
    buf[..100].copy_from_slice(&header_bytes(512, 2, 1));
    buf[100] = 13;
    buf[103..105].copy_from_slice(&1u16.to_be_bytes());
    buf[105..107].copy_from_slice(&300u16.to_be_bytes());
    buf[108..110].copy_from_slice(&300u16.to_be_bytes());
    // the cell: payload-size varint 600, rowid varint 1, 92 local bytes,
    // then the 4-byte first overflow page number
    buf[300..302].copy_from_slice(&[0x84, 0x58]);
    buf[302] = 0x01;
    buf[303..395].copy_from_slice(&payload[..92]);
    buf[395..399].copy_from_slice(&2u32.to_be_bytes());
    // the overflow page: next-page number 0, then the remaining 508 bytes
    buf[516..1024].copy_from_slice(&payload[92..]);

    let header = parse_db_header(&buf[..100]).unwrap();
    match parse_page(&buf, &header, 1).unwrap() {
        Page::LeafTable(p) => {
            let c = &p.cells[0];
            assert_eq!(c.payload_size, 600);
            assert_eq!(c.rowid, 1);
            assert_eq!(c.overflow_page_no, Some(2));
            assert_eq!(c.payload.header_size, 3);
            assert_eq!(c.payload.column_types, vec![SerialType::Blob(1206)]);
            match &c.payload.column_values[0] {
                Some(Payload::Blob(b)) => assert_eq!(b.as_slice(), &payload[3..]),
                other => panic!("expected blob, got {:?}", other),
            }
        }
        other => panic!("expected leaf table page, got {:?}", other),
    }
}

#[test]
fn database_leaf_index_page() {
    let mut buf = one_page_db(10);
    buf[103..105].copy_from_slice(&1u16.to_be_bytes());
    buf[105..107].copy_from_slice(&400u16.to_be_bytes());
    buf[108..110].copy_from_slice(&400u16.to_be_bytes());
    // payload-size varint 5, then the index record [3, 1, 1, 5, 9]
    buf[400..406].copy_from_slice(&[5, 3, 1, 1, 5, 9]);
    let db = parse_database(&buf).unwrap();
    match &db.pages[0] {
        Page::LeafIndex(p) => {
            let c = &p.cells[0];
            assert_eq!(c.payload_size, 5);
            assert_eq!(c.overflow_page_no, None);
            assert_eq!(c.payload.column_values, vec![Some(Payload::I8(5))]);
            assert_eq!(c.payload.rowid, 9);
        }
        other => panic!("expected leaf index page, got {:?}", other),
    }
}

#[test]
fn database_interior_index_page() {
    let mut buf = one_page_db(2);
    buf[103..105].copy_from_slice(&1u16.to_be_bytes());
    buf[105..107].copy_from_slice(&400u16.to_be_bytes());
    buf[108..112].copy_from_slice(&6u32.to_be_bytes());
    buf[112..114].copy_from_slice(&400u16.to_be_bytes());
    // left child 4, payload-size varint 5, the index record [3, 1, 1, 5, 9]
    buf[400..410].copy_from_slice(&[0, 0, 0, 4, 5, 3, 1, 1, 5, 9]);
    let db = parse_database(&buf).unwrap();
    match &db.pages[0] {
        Page::InteriorIndex(p) => {
            assert_eq!(p.header.rightmost_pointer, 6);
            let c = &p.cells[0];
            assert_eq!(c.left_child_page_no, 4);
            assert_eq!(c.payload_size, 5);
            assert_eq!(c.payload.rowid, 9);
            assert_eq!(c.payload.column_values, vec![Some(Payload::I8(5))]);
        }
        other => panic!("expected interior index page, got {:?}", other),
    }
}
