//! Reading an HTTP response out of a record body: the status line, the
//! header lines and the payload behind the blank line.

use crate::chars::{chars_of, string_of};
use crate::json::{
    encode_json_map, entry_views, json_map, JsonEntry, JsonEntryView, JsonValue, JsonValueView,
};
use crate::number::{parse_i32, parse_i32_chars};
use crate::sanitize::{escape_quotes, escape_quotes_chars, strip_nulls, strip_nulls_chars};
use crate::scan::{find, find_char, lines_of, split_lines, subvec, trim, trim_chars, views};
use crate::unicode::{decode_lossy, lowercase, lowercase_of, utf8_lossy};
use vstd::prelude::*;
use vstd::slice::{slice_subrange, slice_to_vec};

verus! {

/// Whether `pat` stands in `s` at index `i`.
pub open spec fn occurs_at(s: Seq<u8>, pat: Seq<u8>, i: int) -> bool {
    &&& 0 <= i
    &&& i + pat.len() <= s.len()
    &&& forall|k: int| 0 <= k < pat.len() ==> s[i + k] == pat[k]
}

/// The least index at or after `from` at which `pat` stands in `s`.
pub open spec fn first_occurrence(s: Seq<u8>, pat: Seq<u8>, from: int) -> Option<int>
    decreases s.len() - from,
{
    if from < 0 || from + pat.len() > s.len() {
        None
    } else if occurs_at(s, pat, from) {
        Some(from)
    } else {
        first_occurrence(s, pat, from + 1)
    }
}

/// An index that `pat` stands at, with none before it, is the first
/// occurrence; and there is none if no index up to the last possible one
/// has it.
pub proof fn lemma_first_occurrence(s: Seq<u8>, pat: Seq<u8>, from: int, i: int)
    requires
        0 <= from <= i,
        forall|j: int| from <= j < i ==> !occurs_at(s, pat, j),
        occurs_at(s, pat, i) || i + pat.len() > s.len(),
    ensures
        first_occurrence(s, pat, from) == if occurs_at(s, pat, i) {
            Some(i)
        } else {
            None::<int>
        },
    decreases i - from,
{
    if from < i && from + pat.len() <= s.len() {
        lemma_first_occurrence(s, pat, from + 1, i);
    }
}

/// The bytes of `HTTP/`, with which every HTTP response starts.
pub open spec fn http_prefix() -> Seq<u8> {
    seq![0x48u8, 0x54u8, 0x54u8, 0x50u8, 0x2fu8]
}

/// Two line ends in a row, each a carriage return and a line feed.
pub open spec fn crlf_crlf() -> Seq<u8> {
    seq![0x0du8, 0x0au8, 0x0du8, 0x0au8]
}

/// Two line feeds in a row.
pub open spec fn lf_lf() -> Seq<u8> {
    seq![0x0au8, 0x0au8]
}

/// Where the header section of `body` ends and how long the separator is:
/// the first CR LF CR LF if there is one, else the first LF LF.
pub open spec fn separator(body: Seq<u8>) -> Option<(int, int)> {
    match first_occurrence(body, crlf_crlf(), 0) {
        Some(pos) => Some((pos, 4int)),
        None => match first_occurrence(body, lf_lf(), 0) {
            Some(pos) => Some((pos, 2int)),
            None => None,
        },
    }
}

/// The version token of a status line: what stands before the first space,
/// without null chars.
pub open spec fn status_line_version(line: Seq<char>) -> Seq<char> {
    strip_nulls(line.take(find(line, ' ')))
}

/// The status code of a status line: the token between the first and the
/// second space, or behind the first if there is no second, read as an
/// integer. `None` without a space or where the token is no integer.
pub open spec fn status_line_code(line: Seq<char>) -> Option<i32> {
    let p = find(line, ' ');
    if p < line.len() {
        let rest = line.skip(p + 1);
        parse_i32(rest.take(find(rest, ' ')))
    } else {
        None
    }
}

/// A header key as it is kept: trimmed, without null chars, lower-cased.
pub open spec fn header_key(raw: Seq<char>) -> Seq<char> {
    lowercase(strip_nulls(trim(raw)))
}

/// A header value as it is kept: trimmed, without null chars.
pub open spec fn header_value(raw: Seq<char>) -> Seq<char> {
    strip_nulls(trim(raw))
}

/// The key and value that a header line gives: the line is cut at its first
/// colon. A line without a colon gives none.
pub open spec fn header_pair(line: Seq<char>) -> Option<(Seq<char>, Seq<char>)> {
    let p = find(line, ':');
    if p < line.len() {
        Some((header_key(line.take(p)), header_value(line.skip(p + 1))))
    } else {
        None
    }
}

/// The pairs of the header lines, in the order of the lines; lines without a
/// colon are passed over, and a repeated key gives repeated pairs.
pub open spec fn header_pairs(lines: Seq<Seq<char>>) -> Seq<(Seq<char>, Seq<char>)>
    decreases lines.len(),
{
    if lines.len() == 0 {
        Seq::<(Seq<char>, Seq<char>)>::empty()
    } else {
        let before = header_pairs(lines.drop_last());
        match header_pair(lines.last()) {
            Some(pair) => before.push(pair),
            None => before,
        }
    }
}

/// The entry under which a pair is written: key and value as text, the
/// quotes of both escaped.
pub open spec fn pair_entry(pair: (Seq<char>, Seq<char>)) -> JsonEntryView {
    JsonEntryView {
        key: escape_quotes(pair.0),
        value: JsonValueView::Text(escape_quotes(pair.1)),
    }
}

/// The header map of the pairs as JSON-like text, without null chars; absent
/// where there is no pair.
pub open spec fn headers_json(pairs: Seq<(Seq<char>, Seq<char>)>) -> Option<Seq<char>> {
    if pairs.len() == 0 {
        None
    } else {
        Some(
            strip_nulls(json_map(pairs.map_values(|p: (Seq<char>, Seq<char>)| pair_entry(p)))),
        )
    }
}

/// The texts that a list of string pairs holds, in order.
pub open spec fn pair_views(pairs: Seq<(String, String)>) -> Seq<(Seq<char>, Seq<char>)> {
    pairs.map_values(|p: (String, String)| (p.0@, p.1@))
}

/// What the head of a response holds.
pub struct HttpHeadView {
    pub version: Option<Seq<char>>,
    pub status: Option<i32>,
    pub headers: Option<Seq<char>>,
}

/// The head of a response, read from its text. The first line is the status
/// line, each further line a header. Without any line nothing is present;
/// without any header entry the headers are absent.
pub open spec fn http_head(text: Seq<char>) -> HttpHeadView {
    let lines = lines_of(text);
    if lines.len() == 0 {
        HttpHeadView { version: None, status: None, headers: None }
    } else {
        HttpHeadView {
            version: Some(status_line_version(lines[0])),
            status: status_line_code(lines[0]),
            headers: headers_json(header_pairs(lines.skip(1))),
        }
    }
}

/// What a parsed response holds.
pub struct HttpResponseView {
    pub version: Option<Seq<char>>,
    pub status: Option<i32>,
    pub headers: Option<Seq<char>>,
    pub body: Option<Seq<u8>>,
}

/// A response of which nothing is present.
pub open spec fn no_response() -> HttpResponseView {
    HttpResponseView { version: None, status: None, headers: None, body: None }
}

/// The response that `body` holds. Nothing is present unless `body` starts
/// with `HTTP/` and has a separator. The head is read from the lossily
/// decoded bytes before the separator; the payload is the bytes behind it,
/// unchanged, and absent where `skip_body` is set.
pub open spec fn http_response(body: Seq<u8>, skip_body: bool) -> HttpResponseView {
    if !occurs_at(body, http_prefix(), 0) {
        no_response()
    } else {
        match separator(body) {
            None => no_response(),
            Some((pos, len)) => {
                let head = http_head(utf8_lossy(body.subrange(0, pos)));
                HttpResponseView {
                    version: head.version,
                    status: head.status,
                    headers: head.headers,
                    body: if skip_body {
                        None
                    } else {
                        Some(body.subrange(pos + len, body.len() as int))
                    },
                }
            },
        }
    }
}

/// The text that an optional string holds.
pub open spec fn text_view(o: Option<String>) -> Option<Seq<char>> {
    match o {
        Some(s) => Some(s@),
        None => None,
    }
}

/// The bytes that an optional byte vector holds.
pub open spec fn bytes_view(o: Option<Vec<u8>>) -> Option<Seq<u8>> {
    match o {
        Some(b) => Some(b@),
        None => None,
    }
}

/// Whether `pat` stands in `s` at index `i`.
pub fn matches_at(s: &[u8], pat: &[u8], i: usize) -> (b: bool)
    requires
        i + pat@.len() <= s@.len(),
    ensures
        b == occurs_at(s@, pat@, i as int),
{
    let n = s.len();
    let mut k: usize = 0;
    while k < pat.len()
        invariant
            k <= pat@.len(),
            n == s@.len(),
            i + pat@.len() <= n,
            forall|j: int| 0 <= j < k ==> s@[i + j] == pat@[j],
        decreases pat@.len() - k,
    {
        if s[i + k] != pat[k] {
            return false;
        }
        k += 1;
    }
    true
}

/// The index of the first occurrence of `pat` in `s`, if there is one.
pub fn find_bytes(s: &[u8], pat: &[u8]) -> (r: Option<usize>)
    ensures
        match r {
            Some(i) => first_occurrence(s@, pat@, 0) == Some(i as int),
            None => first_occurrence(s@, pat@, 0) is None,
        },
{
    if pat.len() > s.len() {
        return None;
    }
    let last: usize = s.len() - pat.len();
    let mut i: usize = 0;
    while i < last
        invariant
            i <= last,
            last == s@.len() - pat@.len(),
            forall|j: int| 0 <= j < i ==> !occurs_at(s@, pat@, j),
        decreases last - i,
    {
        if matches_at(s, pat, i) {
            proof {
                lemma_first_occurrence(s@, pat@, 0, i as int);
            }
            return Some(i);
        }
        i += 1;
    }
    let at_last = matches_at(s, pat, last);
    proof {
        if at_last {
            lemma_first_occurrence(s@, pat@, 0, last as int);
        } else {
            lemma_first_occurrence(s@, pat@, 0, last + 1);
        }
    }
    if at_last {
        Some(last)
    } else {
        None
    }
}

/// The key and value of one header line, if the line has a colon: both
/// trimmed and without null chars, the key lower-cased.
fn parse_header_line(line: &Vec<char>) -> (r: Option<(String, String)>)
    ensures
        match r {
            Some(pair) => header_pair(line@) == Some((pair.0@, pair.1@)),
            None => header_pair(line@) is None,
        },
{
    let p = find_char(line, ':');
    if p >= line.len() {
        return None;
    }
    let raw_key = subvec(line, 0, p);
    let raw_value = subvec(line, p + 1, line.len());
    let key = string_of(&strip_nulls_chars(&trim_chars(&raw_key)));
    let value = string_of(&strip_nulls_chars(&trim_chars(&raw_value)));
    Some((lowercase_of(key.as_str()), value))
}

/// Writes header pairs as a JSON-like map: each key and value between
/// quotes with its own quotes escaped, in the order given, null chars
/// dropped. The keys are written as they come, so a caller lower-cases them
/// first. No pairs give no map.
pub fn http_headers_json(pairs: &Vec<(String, String)>) -> (r: Option<String>)
    ensures
        text_view(r) == headers_json(pair_views(pairs@)),
{
    if pairs.len() == 0 {
        return None;
    }
    let ghost wanted = pair_views(pairs@).map_values(|p: (Seq<char>, Seq<char>)| pair_entry(p));
    let mut entries: Vec<JsonEntry> = Vec::new();
    let mut i: usize = 0;
    while i < pairs.len()
        invariant
            i <= pairs.len(),
            wanted == pair_views(pairs@).map_values(|p: (Seq<char>, Seq<char>)| pair_entry(p)),
            entry_views(entries@) == wanted.take(i as int),
        decreases pairs.len() - i,
    {
        let key = escape_quotes_chars(&chars_of(pairs[i].0.as_str()));
        let value = escape_quotes_chars(&chars_of(pairs[i].1.as_str()));
        let e = JsonEntry { key: string_of(&key), value: JsonValue::Text(string_of(&value)) };
        proof {
            assert(e@ == pair_entry(pair_views(pairs@)[i as int]));
            assert(wanted[i as int] == e@);
            assert(entry_views(entries@.push(e)) =~= entry_views(entries@).push(e@));
            assert(wanted.take(i + 1) =~= wanted.take(i as int).push(wanted[i as int]));
        }
        entries.push(e);
        i += 1;
    }
    proof {
        assert(wanted.take(i as int) =~= wanted);
    }
    let map = encode_json_map(&entries);
    Some(string_of(&strip_nulls_chars(&chars_of(map.as_str()))))
}

/// Reads the head of a response from its text: the version token and the
/// status code of the first line, and the headers of the further lines as a
/// JSON-like map with lower-cased keys.
pub fn parse_http_head(text: &str) -> (r: (Option<String>, Option<i32>, Option<String>))
    ensures
        text_view(r.0) == http_head(text@).version,
        r.1 == http_head(text@).status,
        text_view(r.2) == http_head(text@).headers,
{
    let chars = chars_of(text);
    let lines = split_lines(&chars);
    if lines.len() == 0 {
        return (None, None, None);
    }
    let line = &lines[0];
    proof {
        assert(views(lines@)[0] == line@);
    }
    let p = find_char(line, ' ');
    let version = string_of(&strip_nulls_chars(&subvec(line, 0, p)));
    let status = if p < line.len() {
        let rest = subvec(line, p + 1, line.len());
        let q = find_char(&rest, ' ');
        parse_i32_chars(&subvec(&rest, 0, q))
    } else {
        None
    };
    let ghost rest_lines = views(lines@).skip(1);
    let mut pairs: Vec<(String, String)> = Vec::new();
    let mut i: usize = 1;
    while i < lines.len()
        invariant
            1 <= i <= lines.len(),
            rest_lines == views(lines@).skip(1),
            pair_views(pairs@) == header_pairs(rest_lines.take(i - 1)),
        decreases lines.len() - i,
    {
        proof {
            assert(rest_lines.take(i as int).drop_last() =~= rest_lines.take(i - 1));
            assert(rest_lines.take(i as int).last() == lines@[i as int]@);
        }
        match parse_header_line(&lines[i]) {
            Some(pair) => {
                proof {
                    assert(pair_views(pairs@.push(pair)) =~= pair_views(pairs@).push(
                        (pair.0@, pair.1@),
                    ));
                }
                pairs.push(pair);
            },
            None => {},
        }
        i += 1;
    }
    proof {
        assert(rest_lines.take(i - 1) =~= rest_lines);
    }
    let headers = http_headers_json(&pairs);
    (Some(version), status, headers)
}

/// Reads the HTTP response that a record body holds. All four results are
/// absent unless the body starts with `HTTP/` and a separator is found. The
/// payload is absent where `skip_body` is set.
pub fn parse_http_response(body: &[u8], skip_body: bool) -> (r: (
    Option<String>,
    Option<i32>,
    Option<String>,
    Option<Vec<u8>>,
))
    ensures
        text_view(r.0) == http_response(body@, skip_body).version,
        r.1 == http_response(body@, skip_body).status,
        text_view(r.2) == http_response(body@, skip_body).headers,
        bytes_view(r.3) == http_response(body@, skip_body).body,
        !occurs_at(body@, http_prefix(), 0) ==> r.0 is None && r.1 is None && r.2 is None
            && r.3 is None,
        skip_body ==> r.3 is None,
{
    let prefix: [u8; 5] = [0x48, 0x54, 0x54, 0x50, 0x2f];
    let crlf_crlf_bytes: [u8; 4] = [0x0d, 0x0a, 0x0d, 0x0a];
    let lf_lf_bytes: [u8; 2] = [0x0a, 0x0a];
    proof {
        assert(prefix@ =~= http_prefix());
        assert(crlf_crlf_bytes@ =~= crlf_crlf());
        assert(lf_lf_bytes@ =~= lf_lf());
    }
    if body.len() < 5 || !matches_at(body, prefix.as_slice(), 0) {
        return (None, None, None, None);
    }
    let found = match find_bytes(body, crlf_crlf_bytes.as_slice()) {
        Some(pos) => Some((pos, 4usize)),
        None => match find_bytes(body, lf_lf_bytes.as_slice()) {
            Some(pos) => Some((pos, 2usize)),
            None => None,
        },
    };
    match found {
        None => (None, None, None, None),
        Some((pos, len)) => {
            proof {
                lemma_occurrence_in_range(body@, crlf_crlf(), 0);
                lemma_occurrence_in_range(body@, lf_lf(), 0);
            }
            let text = decode_lossy(slice_subrange(body, 0, pos));
            let head = parse_http_head(text.as_str());
            let payload = if skip_body {
                None
            } else {
                Some(slice_to_vec(slice_subrange(body, pos + len, body.len())))
            };
            (head.0, head.1, head.2, payload)
        },
    }
}

/// A first occurrence lies at or after `from`, and the pattern fits behind
/// it.
pub proof fn lemma_occurrence_in_range(s: Seq<u8>, pat: Seq<u8>, from: int)
    requires
        0 <= from,
    ensures
        first_occurrence(s, pat, from) matches Some(i) ==> from <= i && i + pat.len() <= s.len()
            && occurs_at(s, pat, i),
    decreases s.len() - from,
{
    if from + pat.len() <= s.len() && !occurs_at(s, pat, from) {
        lemma_occurrence_in_range(s, pat, from + 1);
    }
}

} // verus!
