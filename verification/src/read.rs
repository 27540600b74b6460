//! The wire value, the cursor, and the two read sources.
//!
//! A [`Source`] is a read-only addressable container of tagged values:
//! either a name-to-value mapping (the item root and nested records) or
//! an ordered list (sequences).  An [`Index`] is the cursor vocabulary
//! shared by both: address by name, by position, or not yet addressed.
//! Resolving a mismatched cursor kind against a source yields absence,
//! never an error.

use vstd::prelude::*;

verus! {

/// One tagged wire value: exactly one variant is populated.
#[derive(Debug)]
pub enum AttributeValue {
    /// A boolean payload.
    Boolean(bool),
    /// A number, carried as text; parsed on demand to the width the
    /// target shape requests.
    NumericText(String),
    /// A string payload.
    Text(String),
    /// An explicit null marker; the flag distinguishes `null: true`
    /// from `null: false`.
    Null(bool),
    /// An ordered list of nested values.
    List(Vec<AttributeValue>),
    /// A nested name-to-value mapping.
    Mapping(Vec<(String, AttributeValue)>),
}

/// The decoder's cursor: where the next value is to be read from.
#[derive(Debug)]
pub enum Index {
    /// Address a keyed source by attribute name.
    Name(String),
    /// Address a positional source by 0-based position.
    Position(usize),
    /// No addressing performed yet: the state of a fresh decoder,
    /// before the first field or element resolution.
    Root,
}

impl Clone for Index {
    fn clone(&self) -> (r: Self)
        ensures
            r == *self,
    {
        match self {
            Index::Name(s) => Index::Name(s.clone()),
            Index::Position(p) => Index::Position(*p),
            Index::Root => Index::Root,
        }
    }
}

/// The value a keyed lookup yields: the value of the first entry whose
/// key reads as `key`, if any.
pub open spec fn keyed_lookup(
    entries: Seq<(String, AttributeValue)>,
    key: Seq<char>,
) -> Option<AttributeValue>
    decreases entries.len(),
{
    if entries.len() == 0 {
        None
    } else if entries[0].0@ == key {
        Some(entries[0].1)
    } else {
        keyed_lookup(entries.skip(1), key)
    }
}

/// A read-only addressable container of tagged values.
#[derive(Debug)]
pub enum Source {
    /// A name-to-value mapping: the item root, or an unwrapped nested map.
    Keyed(Vec<(String, AttributeValue)>),
    /// An ordered list: an unwrapped nested list.
    Positional(Vec<AttributeValue>),
}

/// The value a source yields for a cursor: a keyed source answers name
/// cursors, a positional source answers position cursors, and every
/// other pairing is absent.
pub open spec fn resolve_spec(src: Source, idx: Index) -> Option<AttributeValue> {
    match src {
        Source::Keyed(entries) => match idx {
            Index::Name(k) => keyed_lookup(entries@, k@),
            _ => None,
        },
        Source::Positional(items) => match idx {
            Index::Position(i) => if i < items@.len() {
                Some(items@[i as int])
            } else {
                None
            },
            _ => None,
        },
    }
}

/// Look a name up in an entry list: the value of the first entry whose
/// key equals `key`, if any.
pub fn lookup_entries<'a>(entries: &'a Vec<(String, AttributeValue)>, key: &String) -> (r: Option<
    &'a AttributeValue,
>)
    ensures
        match r {
            Some(v) => keyed_lookup(entries@, key@) == Some(*v),
            None => keyed_lookup(entries@, key@) is None,
        },
{
    let n = entries.len();
    assert(entries@.skip(0) =~= entries@);
    for i in 0..n
        invariant
            n == entries@.len(),
            keyed_lookup(entries@, key@) == keyed_lookup(entries@.skip(i as int), key@),
    {
        proof {
            assert(entries@.skip(i as int)[0] == entries@[i as int]);
        }
        if entries[i].0.eq(key) {
            return Some(&entries[i].1);
        }
        proof {
            assert(entries@.skip(i as int).skip(1) =~= entries@.skip(i + 1));
        }
    }
    assert(entries@.skip(n as int) =~= Seq::<(String, AttributeValue)>::empty());
    None
}

impl Source {
    /// Resolve a cursor against this source.
    pub fn get_attribute_value<'a>(&'a self, index: &Index) -> (r: Option<&'a AttributeValue>)
        ensures
            match r {
                Some(v) => resolve_spec(*self, *index) == Some(*v),
                None => resolve_spec(*self, *index) is None,
            },
    {
        match self {
            Source::Keyed(entries) => match index {
                Index::Name(k) => lookup_entries(entries, k),
                _ => None,
            },
            Source::Positional(items) => match index {
                Index::Position(i) => {
                    if *i < items.len() {
                        Some(&items[*i])
                    } else {
                        None
                    }
                },
                _ => None,
            },
        }
    }
}

} // verus!
