//! What holds of the parser as a whole, stated over the spec functions that
//! its contracts use.

use crate::gzip::{decompressed, gzip_inflated};
use crate::http::{
    header_pair, header_pairs, http_prefix, http_response, no_response, occurs_at, pair_entry,
};
use crate::json::{JsonEntryView, JsonValueView};
use crate::framing::declares_overlong_body;
use crate::record::{
    fields_of, first_record, is_response, notice_of_fields, optional_entry, or_empty,
    record_of_fields, warc_entries, warc_record, BinaryNoticeView, WarcFieldsView,
};
use crate::row::{parsed, parsed_row};
use crate::sanitize::{escape_quotes, lemma_stripped_has_no_null, strip_nulls};
use crate::unicode::lowercase;
use vstd::prelude::*;

verus! {

/// Gzip is transparent: a buffer that inflates to a non-empty second buffer
/// parses as that second buffer does, provided the second one is not taken
/// for gzip itself. What inflates is flate2's answer, of which this crate
/// knows the name only; so that a record is no gzip stream is asked here,
/// not derived.
pub proof fn law_gzip_is_transparent(compressed: Seq<u8>, plain: Seq<u8>)
    requires
        gzip_inflated(compressed) == Some(plain),
        plain.len() > 0,
        decompressed(plain) == plain,
    ensures
        parsed(compressed) == parsed(plain),
{
}

/// A buffer that is not valid gzip is parsed as it is.
pub proof fn law_plain_buffer_is_parsed_unchanged(buffer: Seq<u8>)
    requires
        gzip_inflated(buffer) is None,
    ensures
        decompressed(buffer) == buffer,
        parsed(buffer) == warc_record(buffer),
{
}

/// In every row the headers column is present whenever the version column
/// is, and both are absent only together.
pub proof fn law_headers_come_with_version(cell: Option<Seq<u8>>)
    ensures
        parsed_row(cell).warc_version is Some <==> parsed_row(cell).warc_headers is Some,
{
}

/// A record of any type but "response" has none of the four HTTP fields, and
/// gives no notice, whatever its block holds; its two WARC fields are there.
pub proof fn law_only_responses_carry_http(version: Seq<char>, f: WarcFieldsView, body: Seq<u8>)
    requires
        f.warc_type is Some,
        !is_response(f),
    ensures
        record_of_fields(version, f, body) matches Some(r) && r.http_version is None
            && r.http_status is None && r.http_headers is None && r.http_body is None,
        notice_of_fields(f, body) is None,
{
}

/// A response record gives a record whose four HTTP fields are those that
/// its block gives, the body skipped exactly where the block holds a null
/// byte. Nothing in the block makes the record go away.
pub proof fn law_responses_carry_their_block(version: Seq<char>, f: WarcFieldsView, body: Seq<u8>)
    requires
        is_response(f),
    ensures
        record_of_fields(version, f, body) matches Some(r) && {
            let http = http_response(body, body.contains(0u8));
            &&& r.http_version == http.version
            &&& r.http_status == http.status
            &&& r.http_headers == http.headers
            &&& r.http_body == http.body
        },
{
}

/// A block that holds a null byte never gives a body, while version, status
/// and headers are what they are without the null-byte rule; and where the
/// record is a response, the notice is given and carries the target URI and
/// the identified payload type, each empty where the record has none.
pub proof fn law_binary_body_is_left_out(version: Seq<char>, f: WarcFieldsView, body: Seq<u8>)
    requires
        body.contains(0u8),
    ensures
        record_of_fields(version, f, body) matches Some(r) ==> r.http_body is None,
        is_response(f) ==> (record_of_fields(version, f, body) matches Some(r) && {
            &&& r.http_version == http_response(body, false).version
            &&& r.http_status == http_response(body, false).status
            &&& r.http_headers == http_response(body, false).headers
        }),
        is_response(f) ==> notice_of_fields(f, body) == Some(
            BinaryNoticeView {
                uri: or_empty(f.target_uri),
                payload_type: or_empty(f.identified_payload_type),
            },
        ),
{
}

/// A notice is given exactly for a response record whose block holds a null
/// byte.
pub proof fn law_notice_only_for_binary_responses(f: WarcFieldsView, body: Seq<u8>)
    ensures
        notice_of_fields(f, body) is Some <==> is_response(f) && body.contains(0u8),
{
}

/// A record comes out exactly when the fields hold a WARC-Type: nothing else
/// in the fields, and nothing in the block, decides it.
pub proof fn law_record_needs_only_a_type(version: Seq<char>, f: WarcFieldsView, body: Seq<u8>)
    ensures
        record_of_fields(version, f, body) is Some <==> f.warc_type is Some,
{
}

/// Where the header block declares no overlong body, no record comes out
/// exactly when the reader finds none or the record it finds has no
/// WARC-Type.
pub proof fn law_none_only_without_record_or_type(data: Seq<u8>)
    requires
        !declares_overlong_body(data),
    ensures
        warc_record(data) is None <==> (first_record(data) matches Some(parts) ==> fields_of(
            parts,
        ).warc_type is None),
{
}

/// Every key among the HTTP header pairs is a lower-cased text, and it is
/// written into the map with nothing changed but its quotes escaped.
pub proof fn law_http_keys_are_lower_cased(lines: Seq<Seq<char>>, i: int)
    requires
        0 <= i < header_pairs(lines).len(),
    ensures
        exists|raw: Seq<char>| header_pairs(lines)[i].0 == #[trigger] lowercase(raw),
        pair_entry(header_pairs(lines)[i]).key == escape_quotes(header_pairs(lines)[i].0),
    decreases lines.len(),
{
    if lines.len() > 0 {
        let before = header_pairs(lines.drop_last());
        if i < before.len() {
            law_http_keys_are_lower_cased(lines.drop_last(), i);
        } else {
            let pair = header_pair(lines.last());
            assert(pair is Some);
            assert(header_pairs(lines)[i] == pair->0);
        }
    }
}

/// Whether `key` is one of the ten names under which WARC fields are
/// written.
pub open spec fn is_warc_key(key: Seq<char>) -> bool {
    ||| key == "WARC-Type"@
    ||| key == "WARC-Date"@
    ||| key == "WARC-Record-ID"@
    ||| key == "WARC-Target-URI"@
    ||| key == "WARC-IP-Address"@
    ||| key == "Content-Type"@
    ||| key == "Content-Length"@
    ||| key == "WARC-Payload-Digest"@
    ||| key == "WARC-Block-Digest"@
    ||| key == "WARC-Identified-Payload-Type"@
}

/// Every key of a WARC header map is one of the ten fixed names, written as
/// in the standard and not lower-cased; and the map is never empty.
pub proof fn law_warc_keys_are_canonical(f: WarcFieldsView, i: int)
    requires
        0 <= i < warc_entries(f).len(),
    ensures
        is_warc_key(warc_entries(f)[i].key),
        warc_entries(f).len() >= 1,
{
}

/// A map of WARC headers always holds the content length, as an integer.
pub proof fn law_content_length_is_always_written(f: WarcFieldsView)
    ensures
        exists|i: int|
            0 <= i < warc_entries(f).len() && #[trigger] warc_entries(f)[i] == (JsonEntryView {
                key: "Content-Length"@,
                value: JsonValueView::Integer(f.content_length),
            }),
{
    let target = JsonEntryView {
        key: "Content-Length"@,
        value: JsonValueView::Integer(f.content_length),
    };
    let before = optional_entry("WARC-Type"@, f.warc_type)
        + optional_entry("WARC-Date"@, f.date) + optional_entry(
        "WARC-Record-ID"@,
        f.record_id,
    ) + optional_entry("WARC-Target-URI"@, f.target_uri)
        + optional_entry("WARC-IP-Address"@, f.ip_address)
        + optional_entry("Content-Type"@, f.content_type);
    assert(warc_entries(f)[before.len() as int] == target);
}

/// A body that does not start with `HTTP/` gives none of the four HTTP
/// fields.
pub proof fn law_no_prefix_no_response(body: Seq<u8>, skip_body: bool)
    requires
        !occurs_at(body, http_prefix(), 0),
    ensures
        http_response(body, skip_body) == no_response(),
{
}

/// With the body skipped, the body is absent and the other three fields are
/// what they are without skipping.
pub proof fn law_skipping_touches_the_body_only(body: Seq<u8>)
    ensures
        http_response(body, true).body is None,
        http_response(body, true).version == http_response(body, false).version,
        http_response(body, true).status == http_response(body, false).status,
        http_response(body, true).headers == http_response(body, false).headers,
{
}

/// Whether `s` holds no null char.
pub open spec fn null_free(s: Seq<char>) -> bool {
    forall|i: int| 0 <= i < s.len() ==> s[i] != '\0'
}

/// No text field of a parsed record holds a null char.
pub proof fn law_record_text_is_null_free(version: Seq<char>, f: WarcFieldsView, body: Seq<u8>)
    ensures
        record_of_fields(version, f, body) matches Some(r) ==> {
            &&& null_free(r.warc_version)
            &&& null_free(r.warc_headers)
            &&& (r.http_version matches Some(v) ==> null_free(v))
            &&& (r.http_headers matches Some(h) ==> null_free(h))
        },
{
    if let Some(r) = record_of_fields(version, f, body) {
        assert forall|s: Seq<char>| null_free(#[trigger] strip_nulls(s)) by {
            assert forall|i: int| 0 <= i < strip_nulls(s).len() implies strip_nulls(s)[i]
                != '\0' by {
                lemma_stripped_has_no_null(s, i);
            }
        }
    }
}

/// A buffer in which the reader finds no record gives no record.
pub proof fn law_unreadable_buffer_gives_nothing(data: Seq<u8>)
    requires
        first_record(data) is None,
    ensures
        warc_record(data) is None,
{
}

} // verus!
