use vstd::prelude::*;
use vstd::string::*;

use crate::crypto::hex_char;
use crate::text::{decimal, i64_text, join2, signed_decimal, u32_text, u64_text};

verus! {

/// How a character is written in a JSON text: quotation marks, backslashes and control characters
/// are escaped.
pub open spec fn json_escaped(c: char) -> Seq<char> {
    if c == '"' {
        seq!['\\', '"']
    } else if c == '\\' {
        seq!['\\', '\\']
    } else if c == '\u{8}' {
        seq!['\\', 'b']
    } else if c == '\t' {
        seq!['\\', 't']
    } else if c == '\n' {
        seq!['\\', 'n']
    } else if c == '\u{c}' {
        seq!['\\', 'f']
    } else if c == '\r' {
        seq!['\\', 'r']
    } else if (c as nat) < 32 {
        seq!['\\', 'u', '0', '0', hex_char((c as nat) / 16), hex_char((c as nat) % 16)]
    } else {
        seq![c]
    }
}

/// A text with its characters escaped, one after the other.
pub open spec fn json_escapes(text: Seq<char>) -> Seq<char>
    decreases text.len(),
{
    if text.len() == 0 {
        Seq::empty()
    } else {
        json_escapes(text.drop_last()) + json_escaped(text.last())
    }
}

/// How a text is written in JSON: in quotation marks, with escapes.
#[verifier::opaque]
pub open spec fn json_quoted(text: Seq<char>) -> Seq<char> {
    seq!['"'] + json_escapes(text) + seq!['"']
}

/// `serde_json::to_string` of a text. It writes the text in quotation marks: a quotation mark and a
/// backslash come after a backslash, the five control characters that JSON has letters for are
/// written with them, the other control characters below the space by their four hexadecimal digits
/// in lower case, and all other characters as they are. Writing a text into memory does not fail.
#[verifier::external_body]
fn quote_json(text: &str) -> (r: String)
    ensures
        r@ == json_quoted(text@),
{
    serde_json::to_string(text).unwrap_or_default()
}

/// An object with one more member, whose value has been written already.
pub open spec fn json_member(object: Seq<char>, name: Seq<char>, value: Seq<char>) -> Seq<char> {
    object + (if object == "{"@ {
        Seq::empty()
    } else {
        ","@
    }) + "\""@ + name + "\":"@ + value
}

/// A list of values that have been written already.
pub open spec fn json_list(values: Seq<Seq<char>>) -> Seq<char> {
    "["@ + json_items(values) + "]"@
}

pub open spec fn json_items(values: Seq<Seq<char>>) -> Seq<char>
    decreases values.len(),
{
    if values.len() == 0 {
        Seq::empty()
    } else if values.len() == 1 {
        values[0]
    } else {
        json_items(values.drop_last()) + ","@ + values.last()
    }
}

/// A text or `null`.
pub open spec fn json_optional(text: Option<Seq<char>>) -> Seq<char> {
    match text {
        Some(text) => json_quoted(text),
        None => "null"@,
    }
}

/// Writes a text with quotation marks.
pub fn quoted(text: &str) -> (r: String)
    ensures
        r@ == json_quoted(text@),
{
    quote_json(text)
}

/// Adds a member to an object.
pub fn put_value(object: &mut String, name: &str, value: &str)
    ensures
        final(object)@ == json_member(old(object)@, name@, value@),
{
    let ghost before = object@;
    if !crate::text::text_same(object.as_str(), "{") {
        object.append(",");
    }
    object.append("\"");
    object.append(name);
    object.append("\":");
    object.append(value);
    assert(object@ =~= json_member(before, name@, value@));
}

pub fn put_text(object: &mut String, name: &str, value: &str)
    ensures
        final(object)@ == json_member(old(object)@, name@, json_quoted(value@)),
{
    let quoted = quote_json(value);
    put_value(object, name, quoted.as_str());
}

pub fn put_u64(object: &mut String, name: &str, value: u64)
    ensures
        final(object)@ == json_member(old(object)@, name@, decimal(value as nat)),
{
    let text = u64_text(value);
    put_value(object, name, text.as_str());
}

pub fn put_u32(object: &mut String, name: &str, value: u32)
    ensures
        final(object)@ == json_member(old(object)@, name@, decimal(value as nat)),
{
    let text = u32_text(value);
    put_value(object, name, text.as_str());
}

pub fn put_i64(object: &mut String, name: &str, value: i64)
    ensures
        final(object)@ == json_member(old(object)@, name@, signed_decimal(value as int)),
{
    let text = i64_text(value);
    put_value(object, name, text.as_str());
}

/// How a truth value is written.
pub open spec fn json_flag(value: bool) -> Seq<char> {
    if value {
        "true"@
    } else {
        "false"@
    }
}

pub fn put_flag(object: &mut String, name: &str, value: bool)
    ensures
        final(object)@ == json_member(old(object)@, name@, json_flag(value)),
{
    if value {
        put_value(object, name, "true");
    } else {
        put_value(object, name, "false");
    }
}

pub fn put_optional_text(object: &mut String, name: &str, value: &Option<String>)
    ensures
        final(object)@ == json_member(old(object)@, name@, json_optional(value.deep_view())),
{
    match value {
        Some(text) => put_text(object, name, text.as_str()),
        None => put_value(object, name, "null"),
    }
}

/// Writes a list of texts.
pub fn list_texts(values: &Vec<String>) -> (r: String)
    ensures
        r@ == json_list(values.deep_view().map_values(|text: Seq<char>| json_quoted(text))),
{
    let ghost quoted = values.deep_view().map_values(|text: Seq<char>| json_quoted(text));
    let mut items = String::new();
    let mut i: usize = 0;
    assert(quoted.take(0) =~= Seq::empty());
    while i < values.len()
        invariant
            i <= values@.len(),
            quoted == values.deep_view().map_values(|text: Seq<char>| json_quoted(text)),
            items@ == json_items(quoted.take(i as int)),
        decreases values@.len() - i,
    {
        let ghost before = items@;
        let ghost next = quoted.take(i as int + 1);
        assert(next.drop_last() =~= quoted.take(i as int));
        assert(next.last() == json_quoted(values@[i as int]@));
        if i > 0 {
            items.append(",");
        }
        let text = quote_json(values[i].as_str());
        items.append(text.as_str());
        assert(items@ =~= json_items(next));
        i = i + 1;
    }
    assert(quoted.take(quoted.len() as int) =~= quoted);
    let mut list = join2("[", items.as_str());
    list.append("]");
    list
}

/// Writes a list of numbers.
pub fn list_numbers(values: &Vec<u64>) -> (r: String)
    ensures
        r@ == json_list(values@.map_values(|n: u64| decimal(n as nat))),
{
    let ghost written = values@.map_values(|n: u64| decimal(n as nat));
    let mut items = String::new();
    let mut i: usize = 0;
    assert(written.take(0) =~= Seq::empty());
    while i < values.len()
        invariant
            i <= values@.len(),
            written == values@.map_values(|n: u64| decimal(n as nat)),
            items@ == json_items(written.take(i as int)),
        decreases values@.len() - i,
    {
        let ghost next = written.take(i as int + 1);
        assert(next.drop_last() =~= written.take(i as int));
        assert(next.last() == decimal(values@[i as int] as nat));
        if i > 0 {
            items.append(",");
        }
        let text = u64_text(values[i]);
        items.append(text.as_str());
        assert(items@ =~= json_items(next));
        i = i + 1;
    }
    assert(written.take(written.len() as int) =~= written);
    let mut list = join2("[", items.as_str());
    list.append("]");
    list
}

/// Writes a list of values that have been written already.
pub fn list_values(values: &Vec<String>) -> (r: String)
    ensures
        r@ == json_list(values.deep_view()),
{
    let ghost written = values.deep_view();
    let mut items = String::new();
    let mut i: usize = 0;
    assert(written.take(0) =~= Seq::empty());
    while i < values.len()
        invariant
            i <= values@.len(),
            written == values.deep_view(),
            items@ == json_items(written.take(i as int)),
        decreases values@.len() - i,
    {
        let ghost next = written.take(i as int + 1);
        assert(next.drop_last() =~= written.take(i as int));
        assert(next.last() == values@[i as int]@);
        if i > 0 {
            items.append(",");
        }
        items.append(values[i].as_str());
        assert(items@ =~= json_items(next));
        i = i + 1;
    }
    assert(written.take(written.len() as int) =~= written);
    let mut list = join2("[", items.as_str());
    list.append("]");
    list
}

} // verus!
