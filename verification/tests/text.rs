use warc_parser::chars::{chars_of, same_text, string_of};
use warc_parser::number::{parse_i32_chars, push_decimal};
use warc_parser::sanitize::{
    escape_quotes_chars, sanitize_for_ffi, sanitize_header, strip_nulls_chars,
};
use warc_parser::scan::{find_char, is_whitespace, split_lines, subvec, trim_chars};

#[test]
fn test_sanitize_for_ffi_removes_nulls() {
    let input = "hello\0world";
    let result = sanitize_for_ffi(input);
    assert_eq!(result, "helloworld");
}

#[test]
fn sanitize_for_ffi_keeps_other_control_chars() {
    assert_eq!(sanitize_for_ffi("a\tb\r\nc\u{1}\u{7f}"), "a\tb\r\nc\u{1}\u{7f}");
    assert_eq!(sanitize_for_ffi(""), "");
    assert_eq!(sanitize_for_ffi("\0\0"), "");
    assert_eq!(sanitize_for_ffi("\"q\""), "\"q\"");
}

#[test]
fn sanitize_for_ffi_twice_is_once() {
    let once = sanitize_for_ffi("a\0b\0\0c");
    assert_eq!(sanitize_for_ffi(&once), once);
}

#[test]
fn sanitize_header_escapes_quotes_and_drops_nulls() {
    assert_eq!(sanitize_header("say \"hi\"\0"), "say \\\"hi\\\"");
    assert_eq!(sanitize_header("plain"), "plain");
    assert_eq!(sanitize_header("\""), "\\\"");
    assert_eq!(sanitize_header("back\\slash"), "back\\slash");
    assert_eq!(sanitize_header(""), "");
}

#[test]
fn escaped_value_is_recovered_by_unescaping() {
    let value = "a \"quoted\" value with \\\" inside";
    let escaped = sanitize_header(value);
    assert_eq!(escaped.replace("\\\"", "\""), value);
}

#[test]
fn escaping_and_stripping_work_on_chars() {
    let v: Vec<char> = "a\"b\0c".chars().collect();
    let e: String = escape_quotes_chars(&v).into_iter().collect();
    assert_eq!(e, "a\\\"b\0c");
    let s: String = strip_nulls_chars(&v).into_iter().collect();
    assert_eq!(s, "a\"bc");
}

#[test]
fn chars_and_strings_convert_both_ways() {
    let text = "h\u{e9}llo \u{1f600}\0";
    let v = chars_of(text);
    assert_eq!(v, text.chars().collect::<Vec<char>>());
    assert_eq!(string_of(&v), text);
    assert!(same_text("abc", "abc"));
    assert!(!same_text("abc", "abd"));
    assert!(!same_text("abc", "ab"));
    assert!(same_text("", ""));
}

#[test]
fn white_space_is_what_std_calls_white_space() {
    let mut code: u32 = 0;
    while code <= 0x10ffff {
        if let Some(c) = char::from_u32(code) {
            assert_eq!(is_whitespace(c), c.is_whitespace(), "U+{:04X}", code);
        }
        code += 1;
    }
}

#[test]
fn trimming_agrees_with_std() {
    let samples = [
        "",
        " ",
        "  a  ",
        "\t\r\n x y \u{a0}\u{3000}",
        "no-space",
        "\u{85}edge\u{2028}",
        " \u{200b} ",
        "a ",
        " a",
    ];
    for s in samples {
        let v: Vec<char> = s.chars().collect();
        let t: String = trim_chars(&v).into_iter().collect();
        assert_eq!(t, s.trim(), "{:?}", s);
    }
}

#[test]
fn lines_agree_with_std() {
    let samples = [
        "",
        "a",
        "a\n",
        "a\r\n",
        "a\r",
        "\n",
        "\r\n",
        "\n\n",
        "a\nb",
        "a\r\nb\r\n",
        "a\n\rb",
        "a\r\r\nb",
        "HTTP/1.1 200 OK\r\nA: b\r\nC: d",
        "x\n\ny\n",
        "\r",
        "a\n\r",
    ];
    for s in samples {
        let v: Vec<char> = s.chars().collect();
        let got: Vec<String> = split_lines(&v).into_iter().map(|l| l.into_iter().collect()).collect();
        let want: Vec<String> = s.lines().map(|l| l.to_string()).collect();
        assert_eq!(got, want, "{:?}", s);
    }
}

#[test]
fn finding_and_cutting() {
    let v: Vec<char> = "key: value".chars().collect();
    assert_eq!(find_char(&v, ':'), 3);
    assert_eq!(find_char(&v, 'k'), 0);
    assert_eq!(find_char(&v, 'z'), 10);
    assert_eq!(subvec(&v, 0, 3), vec!['k', 'e', 'y']);
    assert_eq!(subvec(&v, 4, 4), Vec::<char>::new());
    assert_eq!(find_char(&Vec::new(), 'a'), 0);
}

#[test]
fn integers_are_read_as_std_reads_them() {
    let samples = [
        "",
        "+",
        "-",
        "0",
        "-0",
        "+0",
        "+5",
        "-5",
        "404",
        "2147483647",
        "2147483648",
        "-2147483648",
        "-2147483649",
        "+2147483647",
        "00000000000000000012",
        "-00000000000000000012",
        "99999999999999999999999999",
        "1_0",
        " 1",
        "1 ",
        "12a",
        "a12",
        "--1",
        "+-1",
        "1.0",
        "\u{ff11}",
        "\u{661}",
    ];
    for s in samples {
        let v: Vec<char> = s.chars().collect();
        assert_eq!(parse_i32_chars(&v), s.parse::<i32>().ok(), "{:?}", s);
    }
}

#[test]
fn integer_values_are_exact() {
    let v: Vec<char> = "404".chars().collect();
    assert_eq!(parse_i32_chars(&v), Some(404));
    let v: Vec<char> = "-2147483648".chars().collect();
    assert_eq!(parse_i32_chars(&v), Some(i32::MIN));
    let v: Vec<char> = "2147483648".chars().collect();
    assert_eq!(parse_i32_chars(&v), None);
}

#[test]
fn decimals_are_written_as_std_writes_them() {
    for n in [0u64, 1, 9, 10, 11, 99, 100, 513, 1234567890, u64::MAX] {
        let mut out: Vec<char> = vec!['#'];
        push_decimal(&mut out, n);
        let got: String = out.into_iter().collect();
        assert_eq!(got, format!("#{}", n));
    }
}
