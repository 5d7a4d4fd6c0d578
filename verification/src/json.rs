//! The JSON-like text of an ordered list of key and value pairs.
//!
//! Keys and text values are written between double quotes as they are: a
//! caller escapes what needs escaping before it hands a value in. Integer
//! values are written bare.

use crate::chars::{chars_of, string_of};
use crate::number::{decimal, push_decimal};
use vstd::prelude::*;

verus! {

/// The value of one entry.
#[derive(Debug, Clone, PartialEq, Eq)]
pub enum JsonValue {
    /// Text, written between double quotes.
    Text(String),
    /// An integer, written bare in base ten.
    Integer(u64),
}

/// What a `JsonValue` holds.
pub enum JsonValueView {
    Text(Seq<char>),
    Integer(nat),
}

impl View for JsonValue {
    type V = JsonValueView;

    open spec fn view(&self) -> JsonValueView {
        match self {
            JsonValue::Text(t) => JsonValueView::Text(t@),
            JsonValue::Integer(n) => JsonValueView::Integer(*n as nat),
        }
    }
}

/// One key with its value.
#[derive(Debug, Clone, PartialEq, Eq)]
pub struct JsonEntry {
    pub key: String,
    pub value: JsonValue,
}

/// What a `JsonEntry` holds.
pub struct JsonEntryView {
    pub key: Seq<char>,
    pub value: JsonValueView,
}

impl View for JsonEntry {
    type V = JsonEntryView;

    open spec fn view(&self) -> JsonEntryView {
        JsonEntryView { key: self.key@, value: self.value@ }
    }
}

/// The views of a list of entries, in order.
pub open spec fn entry_views(entries: Seq<JsonEntry>) -> Seq<JsonEntryView> {
    entries.map_values(|e: JsonEntry| e@)
}

/// One entry as text: the key in quotes, a colon and a space, then the value,
/// in quotes if it is text.
pub open spec fn entry_text(e: JsonEntryView) -> Seq<char> {
    match e.value {
        JsonValueView::Text(t) => seq!['"'] + e.key + seq!['"', ':', ' ', '"'] + t + seq!['"'],
        JsonValueView::Integer(n) => seq!['"'] + e.key + seq!['"', ':', ' '] + decimal(n),
    }
}

/// The parts in order with `sep` between each two neighbours.
pub open spec fn joined(parts: Seq<Seq<char>>, sep: Seq<char>) -> Seq<char>
    decreases parts.len(),
{
    if parts.len() == 0 {
        Seq::<char>::empty()
    } else if parts.len() == 1 {
        parts[0]
    } else {
        joined(parts.drop_last(), sep) + sep + parts.last()
    }
}

/// The whole map as text: the entries in order, separated by a comma and a
/// space, between braces. No entries give `{}`.
pub open spec fn json_map(entries: Seq<JsonEntryView>) -> Seq<char> {
    seq!['{'] + joined(entries.map_values(|e: JsonEntryView| entry_text(e)), seq![',', ' '])
        + seq!['}']
}

/// Appends the text of `e` to `out`.
fn push_entry(out: &mut Vec<char>, e: &JsonEntry)
    ensures
        final(out)@ == old(out)@ + entry_text(e@),
{
    let key = chars_of(e.key.as_str());
    out.push('"');
    out.extend_from_slice(key.as_slice());
    out.push('"');
    out.push(':');
    out.push(' ');
    match &e.value {
        JsonValue::Text(t) => {
            let text = chars_of(t.as_str());
            out.push('"');
            out.extend_from_slice(text.as_slice());
            out.push('"');
            proof {
                assert(out@ =~= old(out)@ + entry_text(e@));
            }
        },
        JsonValue::Integer(n) => {
            push_decimal(out, *n);
            proof {
                assert(out@ =~= old(out)@ + entry_text(e@));
            }
        },
    }
}

/// Writes `entries` as a JSON-like map, keeping their order and repeating a
/// key as often as it occurs.
pub fn encode_json_map(entries: &Vec<JsonEntry>) -> (r: String)
    ensures
        r@ == json_map(entry_views(entries@)),
{
    let ghost texts = entry_views(entries@).map_values(|e: JsonEntryView| entry_text(e));
    let ghost sep = seq![',', ' '];
    let mut out: Vec<char> = Vec::new();
    out.push('{');
    let mut i: usize = 0;
    while i < entries.len()
        invariant
            i <= entries.len(),
            texts == entry_views(entries@).map_values(|e: JsonEntryView| entry_text(e)),
            sep == seq![',', ' '],
            out@ == seq!['{'] + joined(texts.take(i as int), sep),
        decreases entries.len() - i,
    {
        if i > 0 {
            out.push(',');
            out.push(' ');
        }
        push_entry(&mut out, &entries[i]);
        proof {
            let before = texts.take(i as int);
            let after = texts.take(i + 1);
            assert(after.drop_last() =~= before);
            assert(after.last() == entry_text(entries@[i as int]@));
            if i > 0 {
                assert(out@ =~= seq!['{'] + (joined(before, sep) + sep + after.last()));
            } else {
                assert(out@ =~= seq!['{'] + after[0]);
            }
        }
        i += 1;
    }
    out.push('}');
    proof {
        assert(texts.take(i as int) =~= texts);
        assert(out@ =~= json_map(entry_views(entries@)));
    }
    string_of(&out)
}

} // verus!
