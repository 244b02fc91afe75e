use sqlite_decode::error::SQLiteError;
use sqlite_decode::model::{CellOffset, PageSize, RawText, SerialType, TextEncoding};

#[test]
fn page_size_one_means_64k() {
    assert_eq!(PageSize(1).real_size(), 65536);
    assert_eq!(PageSize(4096).real_size(), 4096);
}

#[test]
fn cell_offset_zero_means_64k() {
    assert_eq!(CellOffset(0).real_offset(), 65536);
    assert_eq!(CellOffset(512).real_offset(), 512);
}

#[test]
fn serial_type_fixed_kinds() {
    assert_eq!(SerialType::from(0), SerialType::Null);
    assert_eq!(SerialType::from(0).size(), Ok(0));
    assert_eq!(SerialType::from(1), SerialType::I8);
    assert_eq!(SerialType::from(1).size(), Ok(1));
    assert_eq!(SerialType::from(6), SerialType::I64);
    assert_eq!(SerialType::from(6).size(), Ok(8));
    assert_eq!(SerialType::from(2).size(), Ok(2));
    assert_eq!(SerialType::from(3).size(), Ok(3));
    assert_eq!(SerialType::from(4).size(), Ok(4));
    assert_eq!(SerialType::from(5).size(), Ok(6));
    assert_eq!(SerialType::from(7).size(), Ok(8));
    assert_eq!(SerialType::from(8).size(), Ok(0));
    assert_eq!(SerialType::from(9).size(), Ok(0));
}

#[test]
fn serial_type_blob_and_text() {
    assert_eq!(SerialType::from(12), SerialType::Blob(12));
    assert_eq!(SerialType::from(12).size(), Ok(0));
    assert_eq!(SerialType::from(14), SerialType::Blob(14));
    assert_eq!(SerialType::from(14).size(), Ok(1));
    assert_eq!(SerialType::from(1000), SerialType::Blob(1000));
    assert_eq!(SerialType::from(1000).size(), Ok(494));
    assert_eq!(SerialType::from(13), SerialType::Text(13));
    assert_eq!(SerialType::from(13).size(), Ok(0));
    assert_eq!(SerialType::from(17), SerialType::Text(17));
    assert_eq!(SerialType::from(17).size(), Ok(2));
    assert_eq!(SerialType::from(1001), SerialType::Text(1001));
    assert_eq!(SerialType::from(1001).size(), Ok(494));
}

#[test]
fn serial_type_reserved_fails() {
    assert_eq!(SerialType::from(10), SerialType::Reserved);
    assert_eq!(SerialType::from(11), SerialType::Reserved);
    assert_eq!(SerialType::from(10).size(), Err(SQLiteError::ReservedSerialType));
    assert_eq!(SerialType::from(11).size(), Err(SQLiteError::ReservedSerialType));
}

#[test]
fn text_encoding_codes() {
    assert_eq!(TextEncoding::try_from(1), Ok(TextEncoding::Utf8));
    assert_eq!(TextEncoding::try_from(2), Ok(TextEncoding::Utf16Le));
    assert_eq!(TextEncoding::try_from(3), Ok(TextEncoding::Utf16Be));
    assert_eq!(TextEncoding::try_from(0), Err(SQLiteError::UnknownTextEncodingError(0)));
    assert_eq!(TextEncoding::try_from(4), Err(SQLiteError::UnknownTextEncodingError(4)));
    assert_eq!(TextEncoding::try_from(77), Err(SQLiteError::UnknownTextEncodingError(77)));
}

fn encode_page_size(real: u32) -> u16 {
    if real == 65536 { 1 } else { real as u16 }
}

fn encode_cell_offset(real: u32) -> u16 {
    if real == 65536 { 0 } else { real as u16 }
}

#[test]
fn real_conversions_round_trip() {
    for stored in [0u16, 1, 65535] {
        assert_eq!(encode_cell_offset(CellOffset(stored).real_offset()), stored);
    }
    for stored in [1u16, 512, 65535] {
        assert_eq!(encode_page_size(PageSize(stored).real_size() as u32), stored);
    }
}

#[test]
fn raw_text_decodes_utf8_only() {
    let bytes = [104u8, 105];
    assert_eq!(RawText::new(&bytes).decode(TextEncoding::Utf8), Ok(String::from("hi")));
    assert_eq!(
        RawText::new(&bytes).decode(TextEncoding::Utf16Le),
        Err(SQLiteError::UnsupportedTextEncoding)
    );
    assert_eq!(
        RawText::new(&bytes).decode(TextEncoding::Utf16Be),
        Err(SQLiteError::UnsupportedTextEncoding)
    );
}

#[test]
fn raw_text_replaces_invalid_utf8() {
    let bytes = [0xffu8, 0x68];
    let s = RawText::new(&bytes).decode(TextEncoding::Utf8).unwrap();
    assert_eq!(s, String::from("\u{FFFD}h"));
}
