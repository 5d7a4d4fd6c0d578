use std::io::BufReader;
use warc::{WarcHeader, WarcReader};
use warc_parser::http::parse_http_response;
use warc_parser::record::parse_warc_record;
use warc_parser::sanitize::{sanitize_for_ffi, sanitize_header};

/// The same reading written with std's string methods.
fn parse_with_std(
    body: &[u8],
    skip_body: bool,
) -> (Option<String>, Option<i32>, Option<String>, Option<Vec<u8>>) {
    if !body.starts_with(b"HTTP/") {
        return (None, None, None, None);
    }
    let separator = body
        .windows(4)
        .position(|w| w == b"\r\n\r\n")
        .map(|p| (p, 4))
        .or_else(|| body.windows(2).position(|w| w == b"\n\n").map(|p| (p, 2)));
    let (pos, len) = match separator {
        Some(found) => found,
        None => return (None, None, None, None),
    };
    let text = String::from_utf8_lossy(&body[..pos]);
    let mut lines = text.lines();
    let (version, status) = match lines.next() {
        Some(line) => {
            let parts: Vec<&str> = line.splitn(3, ' ').collect();
            (
                parts.first().map(|s| s.replace('\0', "")),
                parts.get(1).and_then(|s| s.parse::<i32>().ok()),
            )
        }
        None => (None, None),
    };
    let mut pairs = Vec::new();
    for line in lines {
        if let Some((key, value)) = line.split_once(':') {
            let key = key.trim().replace('\0', "").to_lowercase().replace('"', "\\\"");
            let value = value.trim().replace('\0', "").replace('"', "\\\"");
            pairs.push(format!("\"{}\": \"{}\"", key, value));
        }
    }
    let headers = if pairs.is_empty() { None } else { Some(format!("{{{}}}", pairs.join(", "))) };
    let payload = if skip_body { None } else { Some(body[pos + len..].to_vec()) };
    (version, status, headers, payload)
}

fn next(state: &mut u64) -> u64 {
    *state = state.wrapping_mul(6364136223846793005).wrapping_add(1442695040888963407);
    *state >> 33
}

#[test]
fn response_reading_agrees_with_std_on_generated_input() {
    let pieces: [&[u8]; 28] = [
        b"HTTP/",
        b"HTTP/1.1",
        b" ",
        b"  ",
        b"200",
        b"-1",
        b"+404",
        b"99999999999",
        b"OK",
        b"\r\n",
        b"\n",
        b"\r",
        b"\r\n\r\n",
        b"\n\n",
        b":",
        b"Content-Type",
        b"text/html",
        b"\"",
        b"\\",
        b"\0",
        b"\t",
        b"\xc3\x84",
        b"\xe2\x80\x83",
        b"\xff",
        b"\xc2\xa0",
        b"X-Key: value",
        b"\xce\xa3",
        b"abc",
    ];
    let mut state: u64 = 0x5eed;
    let mut round = 0;
    while round < 6000 {
        let mut body: Vec<u8> = Vec::new();
        if next(&mut state) % 8 != 0 {
            body.extend_from_slice(b"HTTP/1.1");
        }
        let count = next(&mut state) % 14;
        let mut k = 0;
        while k < count {
            let pick = (next(&mut state) % pieces.len() as u64) as usize;
            body.extend_from_slice(pieces[pick]);
            k += 1;
        }
        let skip = next(&mut state) % 2 == 0;
        assert_eq!(parse_http_response(&body, skip), parse_with_std(&body, skip), "{:?}", body);
        round += 1;
    }
}

#[test]
fn sanitizers_agree_with_std_replace() {
    let samples = ["", "plain", "a\"b", "\0", "\"\0\"", "x\\\"y", "\0a\0\"\0", "tab\there", "\u{e9}\"\u{1f600}\0"];
    for s in samples {
        assert_eq!(sanitize_header(s), s.replace('"', "\\\"").replace('\0', ""), "{:?}", s);
        let kept: String = s.chars().filter(|c| *c != '\0').collect();
        assert_eq!(sanitize_for_ffi(s), kept, "{:?}", s);
    }
}

/// The header map written from what the record's own accessors give.
fn headers_with_accessors(data: &[u8]) -> Option<(String, String)> {
    let record = WarcReader::new(BufReader::new(data)).iter_records().next()?.ok()?;
    let mut pairs = Vec::new();
    let named = [
        ("WARC-Type", WarcHeader::WarcType),
        ("WARC-Date", WarcHeader::Date),
        ("WARC-Record-ID", WarcHeader::RecordID),
        ("WARC-Target-URI", WarcHeader::TargetURI),
        ("WARC-IP-Address", WarcHeader::IPAddress),
        ("Content-Type", WarcHeader::ContentType),
    ];
    for (name, header) in named {
        if let Some(v) = record.header(header) {
            pairs.push(format!("\"{}\": \"{}\"", name, sanitize_header(&v)));
        }
    }
    pairs.push(format!("\"Content-Length\": {}", record.content_length()));
    let rest = [
        ("WARC-Payload-Digest", WarcHeader::PayloadDigest),
        ("WARC-Block-Digest", WarcHeader::BlockDigest),
        ("WARC-Identified-Payload-Type", WarcHeader::IdentifiedPayloadType),
    ];
    for (name, header) in rest {
        if let Some(v) = record.header(header) {
            pairs.push(format!("\"{}\": \"{}\"", name, sanitize_header(&v)));
        }
    }
    Some((record.warc_version().to_string(), format!("{{{}}}", pairs.join(", "))))
}

#[test]
fn warc_fields_agree_with_the_record_accessors() {
    let samples: [&[u8]; 7] = [
        b"WARC/1.0\r\nWARC-Type: response\r\nWARC-Date: 2020-02-03T04:05:06+01:00\r\nWARC-Record-ID: <urn:uuid:a>\r\nWARC-Target-URI: http://a/\r\nWARC-IP-Address: 10.0.0.1\r\nContent-Type: application/http\r\nWARC-Payload-Digest: sha1:AAAA\r\nWARC-Block-Digest: sha1:BBBB\r\nWARC-Identified-Payload-Type: text/html\r\nContent-Length: 2\r\n\r\nhi\r\n\r\n",
        b"WARC/1.1\r\nwarc-type: Metadata\r\nwarc-date: 2020-02-03T04:05:06.789Z\r\nwarc-record-id: id with \"quotes\"\r\ncontent-length: 0\r\n\r\n\r\n\r\n",
        b"WARC/0.17\r\nWARC-Type: custom-Type\r\nWARC-Date: 2020-02-03T04:05:06Z\r\nWARC-Record-ID: x\r\nWARC-Target-URI: first\r\nWARC-Target-URI: second\r\nContent-Length: 3\r\n\r\na\nb\r\n\r\n",
        b"WARC/1.0\r\nWARC-Type: response\r\nWARC-Date: not a date\r\nWARC-Record-ID: x\r\nContent-Length: 0\r\n\r\n\r\n\r\n",
        b"WARC/1.0\r\nWARC-Type: response\r\nWARC-Date: 2020-02-03T04:05:06Z\r\nWARC-Record-ID: x\r\nContent-Length: 5\r\n\r\nabc\r\n\r\n",
        b"WARC/1.0\r\nWARC-Type: response\r\nWARC-Date: 2020-02-03T04:05:06Z\r\nWARC-Record-ID: x\r\n\r\n\r\n\r\n",
        b"WARC/1.0\nWARC-Type: response\nWARC-Date: 2020-02-03T04:05:06Z\nWARC-Record-ID: x\nContent-Length: 0\n\r\n\r\n\r\n",
    ];
    let mut parsed = 0;
    for data in samples {
        let got = parse_warc_record(data).map(|r| (r.warc_version, r.warc_headers));
        let want = headers_with_accessors(data);
        assert_eq!(got, want, "{:?}", String::from_utf8_lossy(data));
        if got.is_some() {
            parsed += 1;
        }
    }
    assert!(parsed >= 3);
}
