//! The whole path for one input cell: an absent cell gives an empty row, a
//! present one is inflated if it is gzip, parsed, and laid out as a row of
//! six optional columns.

use crate::gzip::{decompress, decompressed};
use crate::http::{bytes_view, text_view};
use crate::record::{
    notice_view, read_warc_record, record_view, warc_notice, warc_record, BinaryNotice,
    BinaryNoticeView, ParsedRecord, ParsedRecordView,
};
use vstd::prelude::*;

verus! {

/// One row of output: the six columns, each present or absent.
#[derive(Debug, Clone, PartialEq, Eq)]
pub struct ParsedRow {
    pub warc_version: Option<String>,
    pub warc_headers: Option<String>,
    pub http_version: Option<String>,
    pub http_status: Option<i32>,
    pub http_headers: Option<String>,
    pub http_body: Option<Vec<u8>>,
}

/// What a `ParsedRow` holds.
pub struct ParsedRowView {
    pub warc_version: Option<Seq<char>>,
    pub warc_headers: Option<Seq<char>>,
    pub http_version: Option<Seq<char>>,
    pub http_status: Option<i32>,
    pub http_headers: Option<Seq<char>>,
    pub http_body: Option<Seq<u8>>,
}

impl View for ParsedRow {
    type V = ParsedRowView;

    open spec fn view(&self) -> ParsedRowView {
        ParsedRowView {
            warc_version: text_view(self.warc_version),
            warc_headers: text_view(self.warc_headers),
            http_version: text_view(self.http_version),
            http_status: self.http_status,
            http_headers: text_view(self.http_headers),
            http_body: bytes_view(self.http_body),
        }
    }
}

/// The row with every column absent.
pub open spec fn empty_row() -> ParsedRowView {
    ParsedRowView {
        warc_version: None,
        warc_headers: None,
        http_version: None,
        http_status: None,
        http_headers: None,
        http_body: None,
    }
}

/// The row of a parse: the empty row where parsing gave no record, else the
/// record's fields, the two WARC columns present.
pub open spec fn row_of(record: Option<ParsedRecordView>) -> ParsedRowView {
    match record {
        None => empty_row(),
        Some(r) => ParsedRowView {
            warc_version: Some(r.warc_version),
            warc_headers: Some(r.warc_headers),
            http_version: r.http_version,
            http_status: r.http_status,
            http_headers: r.http_headers,
            http_body: r.http_body,
        },
    }
}

/// The record that a buffer gives: that of the buffer inflated, or of the
/// buffer as it is where it does not inflate.
pub open spec fn parsed(buffer: Seq<u8>) -> Option<ParsedRecordView> {
    warc_record(decompressed(buffer))
}

/// The notice that a buffer gives.
pub open spec fn noticed(buffer: Seq<u8>) -> Option<BinaryNoticeView> {
    warc_notice(decompressed(buffer))
}

/// The row that a cell gives: the empty row for an absent cell.
pub open spec fn parsed_row(cell: Option<Seq<u8>>) -> ParsedRowView {
    match cell {
        None => empty_row(),
        Some(buffer) => row_of(parsed(buffer)),
    }
}

/// The notice that a cell gives: none for an absent cell.
pub open spec fn noticed_row(cell: Option<Seq<u8>>) -> Option<BinaryNoticeView> {
    match cell {
        None => None,
        Some(buffer) => noticed(buffer),
    }
}

/// The bytes that an optional buffer holds.
pub open spec fn cell_view(cell: Option<&[u8]>) -> Option<Seq<u8>> {
    match cell {
        Some(buffer) => Some(buffer@),
        None => None,
    }
}

/// Parses one buffer, raw or gzip-compressed, and hands out the notice on
/// binary content along with the record.
pub fn parse_warc(buffer: &[u8]) -> (r: (Option<ParsedRecord>, Option<BinaryNotice>))
    ensures
        record_view(r.0) == parsed(buffer@),
        notice_view(r.1) == noticed(buffer@),
{
    let data = decompress(buffer);
    read_warc_record(data.as_slice())
}

/// Lays a parse out as a row: every column absent where there is no record.
pub fn row_from_record(record: Option<ParsedRecord>) -> (r: ParsedRow)
    ensures
        r@ == row_of(record_view(record)),
{
    match record {
        None => ParsedRow {
            warc_version: None,
            warc_headers: None,
            http_version: None,
            http_status: None,
            http_headers: None,
            http_body: None,
        },
        Some(rec) => ParsedRow {
            warc_version: Some(rec.warc_version),
            warc_headers: Some(rec.warc_headers),
            http_version: rec.http_version,
            http_status: rec.http_status,
            http_headers: rec.http_headers,
            http_body: rec.http_body,
        },
    }
}

/// Parses one input cell. An absent cell gives the empty row without any
/// parsing; a present one gives the row of its record, or the empty row
/// where it holds none. The headers column is present whenever the version
/// column is.
pub fn parse_row(cell: Option<&[u8]>) -> (r: (ParsedRow, Option<BinaryNotice>))
    ensures
        r.0@ == parsed_row(cell_view(cell)),
        notice_view(r.1) == noticed_row(cell_view(cell)),
        cell is None ==> r.0@ == empty_row() && r.1 is None,
        r.0.warc_version is Some ==> r.0.warc_headers is Some,
{
    match cell {
        None => (row_from_record(None), None),
        Some(buffer) => {
            let (record, notice) = parse_warc(buffer);
            (row_from_record(record), notice)
        },
    }
}

} // verus!
