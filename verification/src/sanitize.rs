//! Making text safe for the output: null chars are dropped, and double
//! quotes inside a header value are escaped with a backslash.

use crate::chars::{chars_of, string_of};
use vstd::prelude::*;

verus! {

/// `s` without its null chars; every other char stays, in order.
pub open spec fn strip_nulls(s: Seq<char>) -> Seq<char> {
    s.filter(|c: char| c != '\0')
}

/// `s` with a backslash put before each double quote.
pub open spec fn escape_quotes(s: Seq<char>) -> Seq<char>
    decreases s.len(),
{
    if s.len() == 0 {
        s
    } else if s.last() == '"' {
        escape_quotes(s.drop_last()).push('\\').push('"')
    } else {
        escape_quotes(s.drop_last()).push(s.last())
    }
}

/// `s` with the backslash taken away from before each double quote that has
/// one.
pub open spec fn unescape_quotes(s: Seq<char>) -> Seq<char>
    decreases s.len(),
{
    if s.len() == 0 {
        s
    } else if s.len() >= 2 && s.last() == '"' && s[s.len() - 2] == '\\' {
        unescape_quotes(s.take(s.len() - 2)).push('"')
    } else {
        unescape_quotes(s.drop_last()).push(s.last())
    }
}

/// A header value as it goes into a header map: quotes escaped, nulls
/// dropped.
pub open spec fn sanitized_header(s: Seq<char>) -> Seq<char> {
    strip_nulls(escape_quotes(s))
}

/// Unescaping gives back the value that was escaped, whatever it holds.
pub proof fn lemma_unescape_escape(s: Seq<char>)
    ensures
        unescape_quotes(escape_quotes(s)) == s,
    decreases s.len(),
{
    if s.len() > 0 {
        let e = escape_quotes(s.drop_last());
        lemma_unescape_escape(s.drop_last());
        if s.last() == '"' {
            let t = e.push('\\').push('"');
            assert(t.take(t.len() - 2) =~= e);
        } else {
            assert(e.push(s.last()).drop_last() =~= e);
        }
        assert(s.drop_last().push(s.last()) =~= s);
    }
}

/// In escaped text no double quote stands first, and each one follows a
/// backslash.
pub proof fn lemma_escaped_quotes_follow_backslash(s: Seq<char>, i: int)
    requires
        0 <= i < escape_quotes(s).len(),
        escape_quotes(s)[i] == '"',
    ensures
        i > 0,
        escape_quotes(s)[i - 1] == '\\',
    decreases s.len(),
{
    if s.len() > 0 {
        let e = escape_quotes(s.drop_last());
        if i < e.len() {
            lemma_escaped_quotes_follow_backslash(s.drop_last(), i);
        }
    }
}

/// Stripping looks at each char by itself: a null char at the end goes, any
/// other stays at the end.
pub proof fn lemma_strip_nulls_push(s: Seq<char>, c: char)
    ensures
        strip_nulls(s.push(c)) == if c == '\0' {
            strip_nulls(s)
        } else {
            strip_nulls(s).push(c)
        },
{
    reveal(Seq::filter);
    assert(s.push(c).drop_last() =~= s);
}

/// A sanitized header value grows with the value: by nothing for a null
/// char, by a backslash and a quote for a quote, by the char itself for any
/// other.
pub proof fn lemma_sanitized_header_push(s: Seq<char>, c: char)
    ensures
        sanitized_header(s.push(c)) == if c == '\0' {
            sanitized_header(s)
        } else if c == '"' {
            sanitized_header(s).push('\\').push('"')
        } else {
            sanitized_header(s).push(c)
        },
{
    let e = escape_quotes(s);
    assert(s.push(c).drop_last() =~= s);
    if c == '"' {
        lemma_strip_nulls_push(e, '\\');
        lemma_strip_nulls_push(e.push('\\'), '"');
    } else {
        lemma_strip_nulls_push(e, c);
    }
}

/// In a sanitized header value, too, no double quote stands first and each
/// one follows a backslash: so no quote in it follows a space, and neither
/// `": "` nor `", "` occurs in it.
pub proof fn lemma_sanitized_quotes_follow_backslash(s: Seq<char>, i: int)
    requires
        0 <= i < sanitized_header(s).len(),
        sanitized_header(s)[i] == '"',
    ensures
        i > 0,
        sanitized_header(s)[i - 1] == '\\',
    decreases s.len(),
{
    if s.len() > 0 {
        let before = sanitized_header(s.drop_last());
        assert(s.drop_last().push(s.last()) =~= s);
        lemma_sanitized_header_push(s.drop_last(), s.last());
        if i < before.len() {
            lemma_sanitized_quotes_follow_backslash(s.drop_last(), i);
        }
    } else {
        lemma_strip_nulls_keeps_clean(s);
    }
}

/// Unescaping a sanitized header value gives back the value that was handed
/// in, without its null chars.
pub proof fn lemma_unescape_sanitized(s: Seq<char>)
    ensures
        unescape_quotes(sanitized_header(s)) == strip_nulls(s),
    decreases s.len(),
{
    if s.len() > 0 {
        let before = sanitized_header(s.drop_last());
        assert(s.drop_last().push(s.last()) =~= s);
        lemma_unescape_sanitized(s.drop_last());
        lemma_sanitized_header_push(s.drop_last(), s.last());
        lemma_strip_nulls_push(s.drop_last(), s.last());
        if s.last() == '"' {
            let t = before.push('\\').push('"');
            assert(t.take(t.len() - 2) =~= before);
        } else if s.last() != '\0' {
            assert(before.push(s.last()).drop_last() =~= before);
        }
    } else {
        lemma_strip_nulls_keeps_clean(s);
    }
}

/// Stripped text holds no null char.
pub proof fn lemma_stripped_has_no_null(s: Seq<char>, i: int)
    requires
        0 <= i < strip_nulls(s).len(),
    ensures
        strip_nulls(s)[i] != '\0',
{
    s.lemma_filter_pred(|c: char| c != '\0', i);
}

/// Text without a null char is left as it is.
pub proof fn lemma_strip_nulls_keeps_clean(s: Seq<char>)
    requires
        forall|i: int| 0 <= i < s.len() ==> s[i] != '\0',
    ensures
        strip_nulls(s) == s,
    decreases s.len(),
{
    reveal(Seq::filter);
    if s.len() > 0 {
        lemma_strip_nulls_keeps_clean(s.drop_last());
        assert(s.drop_last().push(s.last()) =~= s);
    }
}

/// Stripping twice is stripping once.
pub proof fn lemma_strip_nulls_idempotent(s: Seq<char>)
    ensures
        strip_nulls(strip_nulls(s)) == strip_nulls(s),
{
    assert forall|i: int| 0 <= i < strip_nulls(s).len() implies strip_nulls(s)[i] != '\0' by {
        lemma_stripped_has_no_null(s, i);
    }
    lemma_strip_nulls_keeps_clean(strip_nulls(s));
}

/// A copy of `v` without its null chars.
pub fn strip_nulls_chars(v: &Vec<char>) -> (r: Vec<char>)
    ensures
        r@ == strip_nulls(v@),
{
    let mut r: Vec<char> = Vec::new();
    let mut i: usize = 0;
    proof {
        reveal(Seq::filter);
    }
    while i < v.len()
        invariant
            i <= v.len(),
            r@ == strip_nulls(v@.take(i as int)),
        decreases v.len() - i,
    {
        proof {
            reveal(Seq::filter);
            assert(v@.take(i + 1).drop_last() =~= v@.take(i as int));
        }
        if v[i] != '\0' {
            r.push(v[i]);
        }
        i += 1;
    }
    proof {
        assert(v@.take(i as int) =~= v@);
    }
    r
}

/// A copy of `v` with a backslash before each double quote.
pub fn escape_quotes_chars(v: &Vec<char>) -> (r: Vec<char>)
    ensures
        r@ == escape_quotes(v@),
{
    let mut r: Vec<char> = Vec::new();
    let mut i: usize = 0;
    while i < v.len()
        invariant
            i <= v.len(),
            r@ == escape_quotes(v@.take(i as int)),
        decreases v.len() - i,
    {
        proof {
            assert(v@.take(i + 1).drop_last() =~= v@.take(i as int));
        }
        if v[i] == '"' {
            r.push('\\');
            r.push('"');
        } else {
            r.push(v[i]);
        }
        i += 1;
    }
    proof {
        assert(v@.take(i as int) =~= v@);
    }
    r
}

/// Makes a header value fit for a header map: each double quote gets a
/// backslash before it, and null chars are dropped.
pub fn sanitize_header(v: &str) -> (r: String)
    ensures
        r@ == sanitized_header(v@),
{
    let chars = chars_of(v);
    let escaped = escape_quotes_chars(&chars);
    let clean = strip_nulls_chars(&escaped);
    string_of(&clean)
}

/// Makes text fit for the output: null chars are dropped, every other char
/// passes unchanged.
pub fn sanitize_for_ffi(s: &str) -> (r: String)
    ensures
        r@ == strip_nulls(s@),
{
    let chars = chars_of(s);
    let clean = strip_nulls_chars(&chars);
    string_of(&clean)
}

} // verus!
