//! One WARC record: the parts that the record reader hands over, the header
//! map made of them, and the parsed record with its HTTP response.

use crate::chars::same_text;
use crate::framing::{declares_overlong_body, has_overlong_length};
use crate::http::{bytes_view, http_response, no_response, parse_http_response, text_view};
use crate::json::{
    encode_json_map, entry_views, json_map, JsonEntry, JsonEntryView, JsonValue, JsonValueView,
};
use crate::sanitize::{sanitize_for_ffi, sanitize_header, sanitized_header, strip_nulls};
use crate::unicode::{decode_lossy, utf8_lossy};
use std::io::BufReader;
use vstd::prelude::*;
use vstd::string::StringExecFns;
use warc::{RawRecordHeader, WarcHeader, WarcReader};

verus! {

/// What the record reader found in a buffer: the version token, the values
/// of the named header fields as the bytes they were written with, and the
/// block.
#[derive(Debug, Clone, PartialEq, Eq)]
pub struct RecordParts {
    pub version: String,
    pub warc_type: Option<Vec<u8>>,
    pub date: Option<Vec<u8>>,
    pub record_id: Option<Vec<u8>>,
    pub target_uri: Option<Vec<u8>>,
    pub ip_address: Option<Vec<u8>>,
    pub content_type: Option<Vec<u8>>,
    pub payload_digest: Option<Vec<u8>>,
    pub block_digest: Option<Vec<u8>>,
    pub identified_payload_type: Option<Vec<u8>>,
    pub body: Vec<u8>,
}

/// What a `RecordParts` holds.
pub struct RecordPartsView {
    pub version: Seq<char>,
    pub warc_type: Option<Seq<u8>>,
    pub date: Option<Seq<u8>>,
    pub record_id: Option<Seq<u8>>,
    pub target_uri: Option<Seq<u8>>,
    pub ip_address: Option<Seq<u8>>,
    pub content_type: Option<Seq<u8>>,
    pub payload_digest: Option<Seq<u8>>,
    pub block_digest: Option<Seq<u8>>,
    pub identified_payload_type: Option<Seq<u8>>,
    pub body: Seq<u8>,
}

impl View for RecordParts {
    type V = RecordPartsView;

    open spec fn view(&self) -> RecordPartsView {
        RecordPartsView {
            version: self.version@,
            warc_type: bytes_view(self.warc_type),
            date: bytes_view(self.date),
            record_id: bytes_view(self.record_id),
            target_uri: bytes_view(self.target_uri),
            ip_address: bytes_view(self.ip_address),
            content_type: bytes_view(self.content_type),
            payload_digest: bytes_view(self.payload_digest),
            block_digest: bytes_view(self.block_digest),
            identified_payload_type: bytes_view(self.identified_payload_type),
            body: self.body@,
        }
    }
}

/// What optional record parts hold.
pub open spec fn parts_view(o: Option<RecordParts>) -> Option<RecordPartsView> {
    match o {
        Some(p) => Some(p@),
        None => None,
    }
}

/// The parts of the first record that the `warc` crate's `WarcReader` reads
/// from `data` with `iter_records`, as `Record::into_raw_parts` hands them
/// out; `None` where the reader finds no record or gives an error.
pub uninterp spec fn first_record(data: Seq<u8>) -> Option<RecordPartsView>;

/// Reads the first record of `data` with `warc::WarcReader::iter_records`
/// and takes it apart with `Record::into_raw_parts`, which yields header
/// values as bytes. The contract only names the outcome. It asks that the
/// Content-Length line of the header block declare no overlong body, on
/// which the reader's length arithmetic overflows.
#[verifier::external_body]
fn read_first_record(data: &[u8]) -> (r: Option<RecordParts>)
    requires
        !declares_overlong_body(data@),
    ensures
        parts_view(r) == first_record(data@),
{
    let record = WarcReader::new(BufReader::new(data)).iter_records().next()?.ok()?;
    let (RawRecordHeader { version, mut headers }, body) = record.into_raw_parts();
    Some(RecordParts {
        version,
        warc_type: headers.remove(&WarcHeader::WarcType),
        date: headers.remove(&WarcHeader::Date),
        record_id: headers.remove(&WarcHeader::RecordID),
        target_uri: headers.remove(&WarcHeader::TargetURI),
        ip_address: headers.remove(&WarcHeader::IPAddress),
        content_type: headers.remove(&WarcHeader::ContentType),
        payload_digest: headers.remove(&WarcHeader::PayloadDigest),
        block_digest: headers.remove(&WarcHeader::BlockDigest),
        identified_payload_type: headers.remove(&WarcHeader::IdentifiedPayloadType),
        body,
    })
}

/// The named header fields of a record as text, and the length of its block.
#[derive(Debug, Clone, PartialEq, Eq)]
pub struct WarcFields {
    pub warc_type: Option<String>,
    pub date: Option<String>,
    pub record_id: Option<String>,
    pub target_uri: Option<String>,
    pub ip_address: Option<String>,
    pub content_type: Option<String>,
    pub content_length: u64,
    pub payload_digest: Option<String>,
    pub block_digest: Option<String>,
    pub identified_payload_type: Option<String>,
}

/// What a `WarcFields` holds.
pub struct WarcFieldsView {
    pub warc_type: Option<Seq<char>>,
    pub date: Option<Seq<char>>,
    pub record_id: Option<Seq<char>>,
    pub target_uri: Option<Seq<char>>,
    pub ip_address: Option<Seq<char>>,
    pub content_type: Option<Seq<char>>,
    pub content_length: nat,
    pub payload_digest: Option<Seq<char>>,
    pub block_digest: Option<Seq<char>>,
    pub identified_payload_type: Option<Seq<char>>,
}

impl View for WarcFields {
    type V = WarcFieldsView;

    open spec fn view(&self) -> WarcFieldsView {
        WarcFieldsView {
            warc_type: text_view(self.warc_type),
            date: text_view(self.date),
            record_id: text_view(self.record_id),
            target_uri: text_view(self.target_uri),
            ip_address: text_view(self.ip_address),
            content_type: text_view(self.content_type),
            content_length: self.content_length as nat,
            payload_digest: text_view(self.payload_digest),
            block_digest: text_view(self.block_digest),
            identified_payload_type: text_view(self.identified_payload_type),
        }
    }
}

/// An optional header value, lossily decoded.
pub open spec fn decoded(value: Option<Seq<u8>>) -> Option<Seq<char>> {
    match value {
        Some(bytes) => Some(utf8_lossy(bytes)),
        None => None,
    }
}

/// The fields of a record: each header value lossily decoded, and the
/// content length counted from the block, not read from a header.
pub open spec fn fields_of(parts: RecordPartsView) -> WarcFieldsView {
    WarcFieldsView {
        warc_type: decoded(parts.warc_type),
        date: decoded(parts.date),
        record_id: decoded(parts.record_id),
        target_uri: decoded(parts.target_uri),
        ip_address: decoded(parts.ip_address),
        content_type: decoded(parts.content_type),
        content_length: parts.body.len(),
        payload_digest: decoded(parts.payload_digest),
        block_digest: decoded(parts.block_digest),
        identified_payload_type: decoded(parts.identified_payload_type),
    }
}

/// The entry of a header field that may be absent: none for an absent one,
/// else one with the sanitized value as text.
pub open spec fn optional_entry(key: Seq<char>, value: Option<Seq<char>>) -> Seq<JsonEntryView> {
    match value {
        Some(v) => seq![
            JsonEntryView { key: key, value: JsonValueView::Text(sanitized_header(v)) },
        ],
        None => Seq::<JsonEntryView>::empty(),
    }
}

/// The entries of a record's header map, in their fixed order and under
/// their fixed names. Content-Length is always there, as an integer.
pub open spec fn warc_entries(f: WarcFieldsView) -> Seq<JsonEntryView> {
    optional_entry("WARC-Type"@, f.warc_type) + optional_entry("WARC-Date"@, f.date)
        + optional_entry("WARC-Record-ID"@, f.record_id) + optional_entry(
        "WARC-Target-URI"@,
        f.target_uri,
    ) + optional_entry("WARC-IP-Address"@, f.ip_address) + optional_entry(
        "Content-Type"@,
        f.content_type,
    ) + seq![
        JsonEntryView {
            key: "Content-Length"@,
            value: JsonValueView::Integer(f.content_length),
        },
    ] + optional_entry("WARC-Payload-Digest"@, f.payload_digest) + optional_entry(
        "WARC-Block-Digest"@,
        f.block_digest,
    ) + optional_entry("WARC-Identified-Payload-Type"@, f.identified_payload_type)
}

/// The header map of a record as JSON-like text.
pub open spec fn warc_headers_json(f: WarcFieldsView) -> Seq<char> {
    json_map(warc_entries(f))
}

/// Appends the entry of a header field to `entries` if the field is present.
fn push_optional(entries: &mut Vec<JsonEntry>, key: &str, value: &Option<String>)
    ensures
        entry_views(final(entries)@) == entry_views(old(entries)@) + optional_entry(
            key@,
            text_view(*value),
        ),
{
    match value {
        Some(v) => {
            let e = JsonEntry {
                key: String::from_str(key),
                value: JsonValue::Text(sanitize_header(v.as_str())),
            };
            proof {
                assert(entry_views(entries@.push(e)) =~= entry_views(entries@) + optional_entry(
                    key@,
                    text_view(*value),
                ));
            }
            entries.push(e);
        },
        None => {
            proof {
                assert(entry_views(entries@) =~= entry_views(entries@) + optional_entry(
                    key@,
                    text_view(*value),
                ));
            }
        },
    }
}

/// Writes the header map of a record: the fields that are present, in their
/// fixed order, with Content-Length always among them.
pub fn headers_to_json(fields: &WarcFields) -> (r: String)
    ensures
        r@ == warc_headers_json(fields@),
{
    let mut entries: Vec<JsonEntry> = Vec::new();
    proof {
        assert(entry_views(entries@) =~= Seq::<JsonEntryView>::empty());
    }
    push_optional(&mut entries, "WARC-Type", &fields.warc_type);
    push_optional(&mut entries, "WARC-Date", &fields.date);
    push_optional(&mut entries, "WARC-Record-ID", &fields.record_id);
    push_optional(&mut entries, "WARC-Target-URI", &fields.target_uri);
    push_optional(&mut entries, "WARC-IP-Address", &fields.ip_address);
    push_optional(&mut entries, "Content-Type", &fields.content_type);
    let length = JsonEntry {
        key: String::from_str("Content-Length"),
        value: JsonValue::Integer(fields.content_length),
    };
    proof {
        assert(entry_views(entries@.push(length)) =~= entry_views(entries@) + seq![length@]);
    }
    entries.push(length);
    push_optional(&mut entries, "WARC-Payload-Digest", &fields.payload_digest);
    push_optional(&mut entries, "WARC-Block-Digest", &fields.block_digest);
    push_optional(&mut entries, "WARC-Identified-Payload-Type", &fields.identified_payload_type);
    proof {
        assert(entry_views(entries@) =~= warc_entries(fields@));
    }
    encode_json_map(&entries)
}

/// A parsed record: the WARC-level fields, and the parts of the HTTP
/// response of a response record.
#[derive(Debug, Clone, PartialEq, Eq)]
pub struct ParsedRecord {
    pub warc_version: String,
    pub warc_headers: String,
    pub http_version: Option<String>,
    pub http_status: Option<i32>,
    pub http_headers: Option<String>,
    pub http_body: Option<Vec<u8>>,
}

/// What a `ParsedRecord` holds.
pub struct ParsedRecordView {
    pub warc_version: Seq<char>,
    pub warc_headers: Seq<char>,
    pub http_version: Option<Seq<char>>,
    pub http_status: Option<i32>,
    pub http_headers: Option<Seq<char>>,
    pub http_body: Option<Seq<u8>>,
}

impl View for ParsedRecord {
    type V = ParsedRecordView;

    open spec fn view(&self) -> ParsedRecordView {
        ParsedRecordView {
            warc_version: self.warc_version@,
            warc_headers: self.warc_headers@,
            http_version: text_view(self.http_version),
            http_status: self.http_status,
            http_headers: text_view(self.http_headers),
            http_body: bytes_view(self.http_body),
        }
    }
}

/// What an optional parsed record holds.
pub open spec fn record_view(o: Option<ParsedRecord>) -> Option<ParsedRecordView> {
    match o {
        Some(r) => Some(r@),
        None => None,
    }
}

/// The note that a response record with binary content gives rise to. It
/// carries the target URI and the identified payload type of the record,
/// each empty where the record has none.
#[derive(Debug, Clone, PartialEq, Eq)]
pub struct BinaryNotice {
    pub uri: String,
    pub payload_type: String,
}

/// What a `BinaryNotice` holds.
pub struct BinaryNoticeView {
    pub uri: Seq<char>,
    pub payload_type: Seq<char>,
}

impl View for BinaryNotice {
    type V = BinaryNoticeView;

    open spec fn view(&self) -> BinaryNoticeView {
        BinaryNoticeView { uri: self.uri@, payload_type: self.payload_type@ }
    }
}

/// What an optional notice holds.
pub open spec fn notice_view(o: Option<BinaryNotice>) -> Option<BinaryNoticeView> {
    match o {
        Some(n) => Some(n@),
        None => None,
    }
}

impl BinaryNotice {
    /// The line that reports the notice.
    pub fn message(&self) -> (r: String)
        ensures
            r@ == "parse_warc: binary content, omitting body uri="@ + self.uri@ + " type="@
                + self.payload_type@,
    {
        let mut r = String::from_str("parse_warc: binary content, omitting body uri=");
        r.append(self.uri.as_str());
        r.append(" type=");
        r.append(self.payload_type.as_str());
        r
    }
}

/// Whether the fields name a response record.
pub open spec fn is_response(f: WarcFieldsView) -> bool {
    f.warc_type == Some("response"@)
}

/// The text of an optional field, empty for an absent one.
pub open spec fn or_empty(value: Option<Seq<char>>) -> Seq<char> {
    match value {
        Some(v) => v,
        None => Seq::<char>::empty(),
    }
}

/// The record that a version token, the fields and the block of a record
/// give. There is none without a WARC-Type. The HTTP fields are those of the
/// block for a response record, with the body left out where the block holds
/// a null byte, and absent for any other record.
pub open spec fn record_of_fields(version: Seq<char>, f: WarcFieldsView, body: Seq<u8>) -> Option<
    ParsedRecordView,
> {
    if f.warc_type is None {
        None
    } else {
        let http = if is_response(f) {
            http_response(body, body.contains(0u8))
        } else {
            no_response()
        };
        Some(
            ParsedRecordView {
                warc_version: strip_nulls(version),
                warc_headers: strip_nulls(warc_headers_json(f)),
                http_version: http.version,
                http_status: http.status,
                http_headers: http.headers,
                http_body: http.body,
            },
        )
    }
}

/// The notice that the fields and the block of a record give: one for a
/// response record whose block holds a null byte, none otherwise.
pub open spec fn notice_of_fields(f: WarcFieldsView, body: Seq<u8>) -> Option<BinaryNoticeView> {
    if is_response(f) && body.contains(0u8) {
        Some(
            BinaryNoticeView {
                uri: or_empty(f.target_uri),
                payload_type: or_empty(f.identified_payload_type),
            },
        )
    } else {
        None
    }
}

/// The record that the parts give: that of their version token, their
/// decoded fields and their block.
pub open spec fn record_of(parts: RecordPartsView) -> Option<ParsedRecordView> {
    record_of_fields(parts.version, fields_of(parts), parts.body)
}

/// The notice that the parts give.
pub open spec fn notice_of(parts: RecordPartsView) -> Option<BinaryNoticeView> {
    notice_of_fields(fields_of(parts), parts.body)
}

/// Whether `bytes` holds a null byte.
pub fn has_null_byte(bytes: &[u8]) -> (r: bool)
    ensures
        r == bytes@.contains(0u8),
{
    let mut i: usize = 0;
    while i < bytes.len()
        invariant
            i <= bytes@.len(),
            forall|j: int| 0 <= j < i ==> bytes@[j] != 0u8,
        decreases bytes@.len() - i,
    {
        if bytes[i] == 0 {
            return true;
        }
        i += 1;
    }
    false
}

/// An optional header value, lossily decoded.
fn decode_optional(value: &Option<Vec<u8>>) -> (r: Option<String>)
    ensures
        text_view(r) == decoded(bytes_view(*value)),
{
    match value {
        Some(bytes) => Some(decode_lossy(bytes.as_slice())),
        None => None,
    }
}

/// A copy of an optional text, empty for an absent one.
fn text_or_empty(value: &Option<String>) -> (r: String)
    ensures
        r@ == or_empty(text_view(*value)),
{
    match value {
        Some(v) => v.clone(),
        None => String::new(),
    }
}

/// The fields of a record, decoded from its parts.
pub fn decode_fields(parts: &RecordParts) -> (r: WarcFields)
    ensures
        r@ == fields_of(parts@),
{
    WarcFields {
        warc_type: decode_optional(&parts.warc_type),
        date: decode_optional(&parts.date),
        record_id: decode_optional(&parts.record_id),
        target_uri: decode_optional(&parts.target_uri),
        ip_address: decode_optional(&parts.ip_address),
        content_type: decode_optional(&parts.content_type),
        content_length: parts.body.len() as u64,
        payload_digest: decode_optional(&parts.payload_digest),
        block_digest: decode_optional(&parts.block_digest),
        identified_payload_type: decode_optional(&parts.identified_payload_type),
    }
}

/// Builds the parsed record from the version token, the fields and the
/// block of a record, and the notice if the record is a response with binary
/// content. The fields are taken as they are: the content length written
/// into the header map is the one they hold.
pub fn record_from_fields(version: &str, fields: &WarcFields, body: &[u8]) -> (r: (
    Option<ParsedRecord>,
    Option<BinaryNotice>,
))
    ensures
        record_view(r.0) == record_of_fields(version@, fields@, body@),
        notice_view(r.1) == notice_of_fields(fields@, body@),
{
    let warc_version = sanitize_for_ffi(version);
    let warc_headers = sanitize_for_ffi(headers_to_json(fields).as_str());
    let response = match &fields.warc_type {
        None => {
            return (None, None);
        },
        Some(t) => same_text(t.as_str(), "response"),
    };
    if response {
        let binary = has_null_byte(body);
        let notice = if binary {
            Some(
                BinaryNotice {
                    uri: text_or_empty(&fields.target_uri),
                    payload_type: text_or_empty(&fields.identified_payload_type),
                },
            )
        } else {
            None
        };
        let (http_version, http_status, http_headers, http_body) = parse_http_response(
            body,
            binary,
        );
        (
            Some(
                ParsedRecord {
                    warc_version,
                    warc_headers,
                    http_version,
                    http_status,
                    http_headers,
                    http_body,
                },
            ),
            notice,
        )
    } else {
        (
            Some(
                ParsedRecord {
                    warc_version,
                    warc_headers,
                    http_version: None,
                    http_status: None,
                    http_headers: None,
                    http_body: None,
                },
            ),
            None,
        )
    }
}

/// Builds the parsed record from the parts of a record: decodes the fields
/// and builds the record from them.
pub fn parse_record_parts(parts: &RecordParts) -> (r: (Option<ParsedRecord>, Option<BinaryNotice>))
    ensures
        record_view(r.0) == record_of(parts@),
        notice_view(r.1) == notice_of(parts@),
{
    let fields = decode_fields(parts);
    record_from_fields(parts.version.as_str(), &fields, parts.body.as_slice())
}

/// The record that the first record framed in `data` gives; none where the
/// Content-Length line of the header block declares an overlong body, where
/// the reader finds no record or fails, or where the record has no WARC-Type.
pub open spec fn warc_record(data: Seq<u8>) -> Option<ParsedRecordView> {
    if declares_overlong_body(data) {
        None
    } else {
        match first_record(data) {
            Some(parts) => record_of(parts),
            None => None,
        }
    }
}

/// The notice that the first record framed in `data` gives.
pub open spec fn warc_notice(data: Seq<u8>) -> Option<BinaryNoticeView> {
    if declares_overlong_body(data) {
        None
    } else {
        match first_record(data) {
            Some(parts) => notice_of(parts),
            None => None,
        }
    }
}

/// Parses the first record framed in `data` and hands out the notice on
/// binary content along with it. What follows the first record is not read.
pub fn read_warc_record(data: &[u8]) -> (r: (Option<ParsedRecord>, Option<BinaryNotice>))
    ensures
        record_view(r.0) == warc_record(data@),
        notice_view(r.1) == warc_notice(data@),
{
    if has_overlong_length(data) {
        return (None, None);
    }
    match read_first_record(data) {
        Some(parts) => parse_record_parts(&parts),
        None => (None, None),
    }
}

/// Parses the first record framed in `data`. What follows the first record
/// is not read.
pub fn parse_warc_record(data: &[u8]) -> (r: Option<ParsedRecord>)
    ensures
        record_view(r) == warc_record(data@),
{
    read_warc_record(data).0
}

} // verus!
