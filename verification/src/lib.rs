//! Verified decoder for the SQLite on-disk file format: the file header,
//! B-tree pages, cell records and overflow chains, read from a raw byte
//! buffer. Decoding is a pure function from bytes to typed structure;
//! every offset, special-case value and variable-length encoding is stated
//! in the contracts and proved of the code.
pub mod bytes;
pub mod database;
pub mod error;
pub mod header;
pub mod model;
pub mod overflow;
pub mod page;
pub mod record;
pub mod varint;
