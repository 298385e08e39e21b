//! The calls that leave the crate.
//!
//! What this file claims of other crates and of the standard library is believed without
//! proof; every other file is proved from it.

use crate::config::PadSpec;
use crate::config::PadSpecView;
use indexmap::IndexMap;
use regex::Regex;
use std::hash::RandomState;
use vstd::prelude::*;

verus! {

/// How the standard library shows a text for debugging: in double quotes, with escapes.
pub uninterp spec fn quoted(s: Seq<char>) -> Seq<char>;

/// Calls the `Debug` formatting of `str`. Claims only that the result depends on the text alone.
#[verifier::external_body]
pub(crate) fn quote(s: &str) -> (r: String)
    ensures
        r@ == quoted(s@),
{
    format!("{:?}", s)
}

/// The message with which `regex::Regex::new` refuses a pattern; `None` where it compiles it.
pub uninterp spec fn regex_fault(pattern: Seq<char>) -> Option<Seq<char>>;

/// Calls `regex::Regex::new` and keeps its error message. Claims only that whether the pattern
/// compiles, and the message where it does not, depend on the pattern alone.
#[verifier::external_body]
pub(crate) fn compile_fault(pattern: &str) -> (r: Option<String>)
    ensures
        match r {
            Some(message) => regex_fault(pattern@) == Some(message@),
            None => regex_fault(pattern@) is None,
        },
{
    match Regex::new(pattern) {
        Ok(_) => None,
        Err(e) => Some(e.to_string()),
    }
}

/// What `regex::Regex::is_match` answers for the compiled `pattern` on `text`.
pub uninterp spec fn regex_matches(pattern: Seq<char>, text: Seq<char>) -> bool;

/// Calls `regex::Regex::is_match` on the compiled pattern. Claims that there is an answer exactly
/// where the pattern compiles, and that it depends on the pattern and the text alone.
#[verifier::external_body]
pub(crate) fn is_match(pattern: &str, text: &str) -> (r: Option<bool>)
    ensures
        r == if regex_fault(pattern@) is None {
            Some(regex_matches(pattern@, text@))
        } else {
            None
        },
{
    match Regex::new(pattern) {
        Ok(re) => Some(re.is_match(text)),
        Err(_) => None,
    }
}

/// `indexmap::IndexMap`: a hash map that keeps its entries in the order of insertion.
#[verifier::external_type_specification]
#[verifier::external_body]
#[verifier::reject_recursive_types(K)]
#[verifier::reject_recursive_types(V)]
#[verifier::reject_recursive_types(S)]
pub struct ExIndexMap<K, V, S>(IndexMap<K, V, S>);

/// The entries of a map of pads, in their order.
pub uninterp spec fn entries(m: IndexMap<String, PadSpec, RandomState>) -> Seq<
    (Seq<char>, PadSpecView),
>;

/// The value that stands under `key` in a list of entries.
pub open spec fn lookup(list: Seq<(Seq<char>, PadSpecView)>, key: Seq<char>) -> Option<PadSpecView>
    decreases list.len(),
{
    if list.len() == 0 {
        None
    } else if list[0].0 == key {
        Some(list[0].1)
    } else {
        lookup(list.drop_first(), key)
    }
}

/// A list of entries in which `value` stands under `key`: in the place of the entry that had this
/// key, or behind all others.
pub open spec fn with_entry(
    list: Seq<(Seq<char>, PadSpecView)>,
    key: Seq<char>,
    value: PadSpecView,
) -> Seq<(Seq<char>, PadSpecView)>
    decreases list.len(),
{
    if list.len() == 0 {
        seq![(key, value)]
    } else if list[0].0 == key {
        seq![(key, value)] + list.drop_first()
    } else {
        seq![list[0]] + with_entry(list.drop_first(), key, value)
    }
}

/// Calls `IndexMap::new`, which makes an empty map.
#[verifier::external_body]
pub(crate) fn new_map() -> (r: IndexMap<String, PadSpec, RandomState>)
    ensures
        entries(r) == Seq::<(Seq<char>, PadSpecView)>::empty(),
{
    IndexMap::new()
}

/// Calls `IndexMap::insert`: a key that is there keeps its place and gets the new value, a new key
/// goes last.
#[verifier::external_body]
pub(crate) fn map_insert(
    m: &mut IndexMap<String, PadSpec, RandomState>,
    key: String,
    value: PadSpec,
)
    ensures
        entries(*final(m)) == with_entry(entries(*old(m)), key@, value@),
{
    m.insert(key, value);
}

/// Calls `IndexMap::len`, the number of entries.
#[verifier::external_body]
pub(crate) fn map_len(m: &IndexMap<String, PadSpec, RandomState>) -> (r: usize)
    ensures
        r == entries(*m).len(),
{
    m.len()
}

/// Calls `IndexMap::get`, which finds the value under a key; no key occurs twice.
#[verifier::external_body]
pub(crate) fn map_get<'a>(m: &'a IndexMap<String, PadSpec, RandomState>, key: &str) -> (r: Option<
    &'a PadSpec,
>)
    ensures
        match r {
            Some(value) => lookup(entries(*m), key@) == Some(value@),
            None => lookup(entries(*m), key@) is None,
        },
{
    m.get(key)
}

/// Calls `IndexMap::get_index`, which finds an entry by its place in the order.
#[verifier::external_body]
pub(crate) fn map_entry<'a>(m: &'a IndexMap<String, PadSpec, RandomState>, i: usize) -> (r: Option<
    (&'a String, &'a PadSpec),
>)
    ensures
        match r {
            Some((key, value)) => i < entries(*m).len() && entries(*m)[i as int] == (key@, value@),
            None => i >= entries(*m).len(),
        },
{
    m.get_index(i)
}

} // verus!
