//! Parsing of single WARC capture records, optionally gzip-compressed, into
//! WARC-level metadata and the embedded HTTP response.

pub mod chars;
pub mod framing;
pub mod gzip;
pub mod http;
pub mod json;
pub mod laws;
pub mod number;
pub mod record;
pub mod row;
pub mod sanitize;
pub mod scan;
pub mod unicode;

pub use gzip::decompress;
pub use http::{http_headers_json, parse_http_response};
pub use record::{
    headers_to_json, parse_warc_record, record_from_fields, BinaryNotice, ParsedRecord, WarcFields,
};
pub use row::{parse_row, parse_warc, ParsedRow};
pub use sanitize::{sanitize_for_ffi, sanitize_header};
