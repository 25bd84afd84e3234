//! The JSON a peer reports its result in, read and written by `serde_json`.

use vstd::prelude::*;

verus! {

/// What a `test-result` object holds, as far as the suite reads it: its `tag`
/// and `val` members, where they are present and are strings.
#[derive(Debug, Clone)]
pub struct ResultFields {
    pub tag: Option<String>,
    pub val: Option<String>,
}

/// The characters of an optional string.
pub open spec fn opt_view(s: Option<String>) -> Option<Seq<char>> {
    match s {
        Some(s) => Some(s@),
        None => None,
    }
}

/// The characters of an optional string slice.
pub open spec fn opt_str_view(s: Option<&str>) -> Option<Seq<char>> {
    match s {
        Some(s) => Some(s@),
        None => None,
    }
}

impl View for ResultFields {
    type V = (Option<Seq<char>>, Option<Seq<char>>);

    open spec fn view(&self) -> (Option<Seq<char>>, Option<Seq<char>>) {
        (opt_view(self.tag), opt_view(self.val))
    }
}

/// How a character stands in a JSON string literal: quotes, backslashes and control
/// characters are escaped, in the short form where there is one.
pub open spec fn escaped(c: char) -> Seq<char> {
    if c == '"' {
        seq!['\\', '"']
    } else if c == '\\' {
        seq!['\\', '\\']
    } else if c == '\u{8}' {
        seq!['\\', 'b']
    } else if c == '\t' {
        seq!['\\', 't']
    } else if c == '\n' {
        seq!['\\', 'n']
    } else if c == '\u{c}' {
        seq!['\\', 'f']
    } else if c == '\r' {
        seq!['\\', 'r']
    } else if (c as nat) <= 31 {
        seq!['\\', 'u', '0', '0', hex_digit(c as nat / 16), hex_digit(c as nat % 16)]
    } else {
        seq![c]
    }
}

/// The lower-case hexadecimal digit of a number below sixteen.
pub open spec fn hex_digit(d: nat) -> char {
    if d < 10 {
        ('0' as nat + d) as char
    } else {
        ('a' as nat + d - 10) as char
    }
}

/// The characters of a string, each escaped.
pub open spec fn all_escaped(s: Seq<char>) -> Seq<char>
    decreases s.len(),
{
    if s.len() == 0 {
        Seq::empty()
    } else {
        all_escaped(s.drop_last()) + escaped(s.last())
    }
}

/// The JSON string literal for a string.
pub open spec fn json_text(s: Seq<char>) -> Seq<char> {
    seq!['"'] + all_escaped(s) + seq!['"']
}

proof fn lemma_escaped_line(s: Seq<char>)
    ensures
        forall|i: int| 0 <= i < all_escaped(s).len() ==> #[trigger] all_escaped(s)[i] != '\n',
    decreases s.len(),
{
    if s.len() > 0 {
        lemma_escaped_line(s.drop_last());
        let head = all_escaped(s.drop_last());
        assert forall|i: int| 0 <= i < all_escaped(s).len() implies #[trigger] all_escaped(s)[i]
            != '\n' by {
            if i < head.len() {
                assert(all_escaped(s)[i] == head[i]);
            } else {
                assert(all_escaped(s)[i] == escaped(s.last())[i - head.len()]);
            }
        }
    }
}

/// What `serde_json` reads from a JSON text: the string members `tag` and `val`
/// of the object it holds (neither, if it is no object), or the error it reports.
pub uninterp spec fn json_fields(text: Seq<char>) -> Result<
    (Option<Seq<char>>, Option<Seq<char>>),
    Seq<char>,
>;

/// Whether a JSON text reads as an object with these members.
pub open spec fn reads_as(
    text: Seq<char>,
    members: (Option<Seq<char>>, Option<Seq<char>>),
) -> bool {
    json_fields(text) matches Ok(found) && found == members
}

/// What a read of a JSON text gave, as characters.
pub open spec fn read_view(r: Result<ResultFields, String>) -> Result<
    (Option<Seq<char>>, Option<Seq<char>>),
    Seq<char>,
> {
    match r {
        Ok(fields) => Ok(fields@),
        Err(error) => Err(error@),
    }
}

/// The compact object with the members `tag` and, where there is one, `val`.
pub open spec fn result_object(tag: Seq<char>, val: Option<Seq<char>>) -> Seq<char> {
    match val {
        Some(val) => "{\"tag\":"@ + json_text(tag) + ",\"val\":"@ + json_text(val) + "}"@,
        None => "{\"tag\":"@ + json_text(tag) + "}"@,
    }
}

/// A result object is a single line, between braces.
pub proof fn result_object_is_a_line(tag: Seq<char>, val: Option<Seq<char>>)
    ensures
        result_object(tag, val).len() > 0,
        result_object(tag, val)[0] == '{',
        result_object(tag, val).last() == '}',
        forall|i: int|
            0 <= i < result_object(tag, val).len() ==> #[trigger] result_object(tag, val)[i]
                != '\n',
{
    reveal_strlit("{\"tag\":");
    reveal_strlit(",\"val\":");
    reveal_strlit("}");
    lemma_escaped_line(tag);
    if val is Some {
        lemma_escaped_line(val->Some_0);
    }
}

/// Write a string as a JSON literal with `serde_json::Value`'s `Display`: between
/// quotes, each character escaped as [`escaped`] says.
#[verifier::external_body]
pub(crate) fn json_str(value: &str) -> (r: String)
    ensures
        r@ == json_text(value@),
{
    serde_json::Value::String(value.to_string()).to_string()
}

/// Write a `test-result` object with `serde_json::Value`'s `Display`: the compact
/// form, members in the order of their keys. It reads back as the members that were
/// written.
#[verifier::external_body]
pub(crate) fn write_result_object(tag: &str, val: Option<&str>) -> (r: String)
    ensures
        r@ == result_object(tag@, opt_str_view(val)),
        reads_as(r@, (Some(tag@), opt_str_view(val))),
{
    let mut object = serde_json::Map::new();
    object.insert("tag".to_string(), serde_json::Value::String(tag.to_string()));
    object.extend(val.map(|v| ("val".to_string(), serde_json::Value::String(v.to_string()))));
    serde_json::Value::Object(object).to_string()
}

/// Read a JSON text with `serde_json::from_str` and pick the string members `tag`
/// and `val`. The error is handed on as the text that it displays.
#[verifier::external_body]
pub(crate) fn read_result_object(text: &str) -> (r: Result<ResultFields, String>)
    ensures
        json_fields(text@) == read_view(r),
{
    let member = |value: &serde_json::Value, key: &str| {
        value.get(key).and_then(serde_json::Value::as_str).map(str::to_string)
    };
    serde_json::from_str::<serde_json::Value>(text)
        .map(|value| ResultFields { tag: member(&value, "tag"), val: member(&value, "val") })
        .map_err(|e| e.to_string())
}

} // verus!
