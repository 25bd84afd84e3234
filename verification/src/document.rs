//! TOML documents, as the `toml` crate reads them.

use vstd::prelude::*;

use crate::text::same;

verus! {

/// A value of the `toml` crate.
#[verifier::external_type_specification]
#[verifier::external_body]
pub struct ExTomlValue(toml::Value);

/// What a TOML value holds, as far as the suite's documents go.
pub enum Node {
    Text(Seq<char>),
    List(Seq<Node>),
    /// The entries of a table, in the order of their keys.
    Table(Seq<(Seq<char>, Node)>),
    /// A number, a boolean or a date.
    Other,
}

/// What a value of the `toml` crate holds.
pub uninterp spec fn toml_held(value: toml::Value) -> Node;

/// What the `toml` crate reads from a text: the document's value, or the error it
/// reports.
pub uninterp spec fn toml_read(text: Seq<char>) -> Result<Node, Seq<char>>;

/// What each of some values holds.
pub open spec fn held_all(values: Seq<toml::Value>) -> Seq<Node> {
    values.map_values(|v: toml::Value| toml_held(v))
}

/// The entries of a table.
pub open spec fn held_entries(entries: Seq<(String, toml::Value)>) -> Seq<(Seq<char>, Node)> {
    entries.map_values(|e: (String, toml::Value)| (e.0@, toml_held(e.1)))
}

/// What a read gave.
pub open spec fn read_node(r: Result<toml::Value, String>) -> Result<Node, Seq<char>> {
    match r {
        Ok(value) => Ok(toml_held(value)),
        Err(error) => Err(error@),
    }
}

/// Whether some entries are those of a value.
pub open spec fn are_entries(value: toml::Value, entries: Seq<(String, toml::Value)>) -> bool {
    toml_held(value) == Node::Table(held_entries(entries))
}

/// Whether some values are the elements of a value.
pub open spec fn are_elements(value: toml::Value, values: Seq<toml::Value>) -> bool {
    toml_held(value) == Node::List(held_all(values))
}

/// Read a text with `toml::from_str`. The error is handed on as the text that it
/// displays.
#[verifier::external_body]
pub(crate) fn read_toml(text: &str) -> (r: Result<toml::Value, String>)
    ensures
        toml_read(text@) == read_node(r),
{
    toml::from_str::<toml::Value>(text).map_err(|e| e.to_string())
}

/// The entries of a `toml::Value` that is a table.
#[verifier::external_body]
pub(crate) fn table_of(value: toml::Value) -> (r: Option<Vec<(String, toml::Value)>>)
    ensures
        r is Some <==> toml_held(value) is Table,
        r matches Some(entries) ==> are_entries(value, entries@),
{
    match value {
        toml::Value::Table(table) => Some(table.into_iter().collect()),
        _ => None,
    }
}

/// The elements of a `toml::Value` that is an array.
#[verifier::external_body]
pub(crate) fn list_of(value: toml::Value) -> (r: Option<Vec<toml::Value>>)
    ensures
        r is Some <==> toml_held(value) is List,
        r matches Some(values) ==> are_elements(value, values@),
{
    match value {
        toml::Value::Array(values) => Some(values),
        _ => None,
    }
}

/// The text of a `toml::Value` that is a string.
#[verifier::external_body]
pub(crate) fn text_of(value: toml::Value) -> (r: Option<String>)
    ensures
        r is Some <==> toml_held(value) is Text,
        r matches Some(text) ==> toml_held(value) == Node::Text(text@),
{
    match value {
        toml::Value::String(text) => Some(text),
        _ => None,
    }
}

// ----- reading entries -----------------------------------------------------------------

/// The value of a key in a table, from a position on.
pub open spec fn entry_from(entries: Seq<(Seq<char>, Node)>, key: Seq<char>, from: int) -> Option<
    Node,
>
    decreases entries.len() - from,
{
    if from >= entries.len() {
        None
    } else if entries[from].0 == key {
        Some(entries[from].1)
    } else {
        entry_from(entries, key, from + 1)
    }
}

/// The value of a key in a table.
pub open spec fn entry(entries: Seq<(Seq<char>, Node)>, key: Seq<char>) -> Option<Node> {
    entry_from(entries, key, 0)
}

proof fn lemma_entry_kept(
    entries: Seq<(Seq<char>, Node)>,
    key: Seq<char>,
    other: Seq<char>,
    at: int,
    from: int,
)
    requires
        0 <= from <= entries.len(),
        0 <= at < entries.len(),
        entries[at].0 == key,
        other != key,
    ensures
        entry_from(entries.remove(at), other, if from <= at {
            from
        } else {
            from - 1
        }) == entry_from(entries, other, from),
    decreases entries.len() - from,
{
    let less = entries.remove(at);
    if from < entries.len() {
        lemma_entry_kept(entries, key, other, at, from + 1);
        if from < at {
            assert(less[from] == entries[from]);
        } else if from > at {
            assert(less[from - 1] == entries[from]);
        } else {
            assert(entry_from(entries, other, from) == entry_from(entries, other, from + 1));
        }
    }
}

/// Take the value of a key out of a table.
pub(crate) fn take_entry(entries: &mut Vec<(String, toml::Value)>, key: &str) -> (r: Option<
    toml::Value,
>)
    ensures
        match r {
            Some(value) => entry(held_entries(old(entries)@), key@) == Some(toml_held(value)),
            None => entry(held_entries(old(entries)@), key@) is None && final(entries)@
                == old(entries)@,
        },
        forall|other: Seq<char>|
            other != key@ ==> #[trigger] entry(held_entries(final(entries)@), other) == entry(
                held_entries(old(entries)@),
                other,
            ),
{
    let ghost all = held_entries(entries@);
    let mut i: usize = 0;
    while i < entries.len()
        invariant
            i <= entries@.len(),
            entries@ == old(entries)@,
            all == held_entries(entries@),
            entry(all, key@) == entry_from(all, key@, i as int),
        decreases entries@.len() - i,
    {
        assert(all[i as int].0 == entries@[i as int].0@);
        if same(entries[i].0.as_str(), key) {
            let (_, value) = entries.remove(i);
            proof {
                assert(held_entries(entries@) =~= all.remove(i as int));
                assert forall|other: Seq<char>| other != key@ implies #[trigger] entry(
                    held_entries(entries@),
                    other,
                ) == entry(all, other) by {
                    lemma_entry_kept(all, key@, other, i as int, 0);
                }
            }
            return Some(value);
        }
        i += 1;
    }
    None
}

// ----- laws ----------------------------------------------------------------------------

/// A key's value is that of its first entry, wherever that stands, and there is none only if no
/// entry has the key.
pub proof fn entry_is_the_first_of_its_key(entries: Seq<(Seq<char>, Node)>, key: Seq<char>)
    ensures
        entry(entries, key) is None <==> forall|k: int|
            0 <= k < entries.len() ==> (#[trigger] entries[k]).0 != key,
        forall|i: int|
            0 <= i < entries.len() && (#[trigger] entries[i]).0 == key && (forall|k: int|
                0 <= k < i ==> (#[trigger] entries[k]).0 != key) ==> entry(entries, key) == Some(
                entries[i].1,
            ),
{
    lemma_entry_first(entries, key, 0);
}

proof fn lemma_entry_first(entries: Seq<(Seq<char>, Node)>, key: Seq<char>, from: int)
    requires
        0 <= from <= entries.len(),
        forall|k: int| 0 <= k < from ==> (#[trigger] entries[k]).0 != key,
    ensures
        entry_from(entries, key, from) is None <==> forall|k: int|
            0 <= k < entries.len() ==> (#[trigger] entries[k]).0 != key,
        forall|i: int|
            0 <= i < entries.len() && (#[trigger] entries[i]).0 == key && (forall|k: int|
                0 <= k < i ==> (#[trigger] entries[k]).0 != key) ==> entry_from(entries, key, from)
                == Some(entries[i].1),
    decreases entries.len() - from,
{
    if from < entries.len() {
        if entries[from].0 == key {
            assert forall|i: int|
                0 <= i < entries.len() && (#[trigger] entries[i]).0 == key && (forall|k: int|
                    0 <= k < i ==> (#[trigger] entries[k]).0 != key) implies entry_from(
                entries,
                key,
                from,
            ) == Some(entries[i].1) by {
                if i < from {
                    assert(entries[i].0 != key);
                } else if from < i {
                    assert(entries[from].0 != key);
                }
            }
        } else {
            lemma_entry_first(entries, key, from + 1);
        }
    }
}

} // verus!
