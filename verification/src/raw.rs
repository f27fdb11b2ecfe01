//! Untyped values, as a YAML document holds them.
//!
//! A decoded document is a tree of [`RawValue`]s. The rest of the library
//! reads such trees and never YAML text; turning text into trees is left to
//! `yaml_rust`, behind the few functions at the end of this file.

use vstd::prelude::*;
use yaml_rust::scanner::ScanError;
use yaml_rust::{Yaml, YamlLoader};

verus! {

/// One node of a decoded document.
#[derive(Debug, PartialEq, Eq)]
pub enum RawValue {
    /// A floating-point number, kept as it was written.
    Real(String),
    /// A whole number.
    Integer(i64),
    /// A text.
    String(String),
    /// `true` or `false`.
    Boolean(bool),
    /// Values in a row.
    Sequence(Vec<RawValue>),
    /// Keys with their values, in the order of the document.
    Mapping(Vec<(RawValue, RawValue)>),
    /// A reference to an anchor that was not followed.
    Alias(usize),
    /// Nothing: the value was left out.
    Null,
    /// What the decoder could not make sense of.
    BadValue,
}

/// The mathematical content of a [`RawValue`].
pub enum Value {
    Real(Seq<char>),
    Integer(i64),
    String(Seq<char>),
    Boolean(bool),
    Sequence(Seq<Value>),
    Mapping(Seq<(Value, Value)>),
    Alias(usize),
    Null,
    BadValue,
}

/// The content of one value.
pub open spec fn value_of(raw: RawValue) -> Value
    decreases raw,
{
    match raw {
        RawValue::Real(text) => Value::Real(text@),
        RawValue::Integer(number) => Value::Integer(number),
        RawValue::String(text) => Value::String(text@),
        RawValue::Boolean(flag) => Value::Boolean(flag),
        RawValue::Sequence(items) => Value::Sequence(values_of(items@)),
        RawValue::Mapping(entries) => Value::Mapping(pairs_of(entries@)),
        RawValue::Alias(id) => Value::Alias(id),
        RawValue::Null => Value::Null,
        RawValue::BadValue => Value::BadValue,
    }
}

/// The contents of a run of values, in order.
pub open spec fn values_of(items: Seq<RawValue>) -> Seq<Value>
    decreases items,
{
    Seq::new(
        items.len(),
        |i: int|
            if 0 <= i < items.len() {
                value_of(items[i])
            } else {
                Value::Null
            },
    )
}

/// The contents of a run of key and value pairs, in order.
pub open spec fn pairs_of(entries: Seq<(RawValue, RawValue)>) -> Seq<(Value, Value)>
    decreases entries,
{
    Seq::new(
        entries.len(),
        |i: int|
            if 0 <= i < entries.len() {
                (value_of(entries[i].0), value_of(entries[i].1))
            } else {
                (Value::Null, Value::Null)
            },
    )
}

impl View for RawValue {
    type V = Value;

    open spec fn view(&self) -> Value {
        value_of(*self)
    }
}

/// The value that stands under the first key equal to `key`, if any does.
pub open spec fn entry_of(entries: Seq<(Value, Value)>, key: Value) -> Option<Value>
    decreases entries.len(),
{
    if entries.len() == 0 {
        None
    } else if entries[0].0 == key {
        Some(entries[0].1)
    } else {
        entry_of(entries.drop_first(), key)
    }
}

/// A key that stands nowhere before `from` is looked for from `from` on.
proof fn lemma_entry_of_skip(entries: Seq<(Value, Value)>, key: Value, from: int)
    requires
        0 <= from <= entries.len(),
        forall|i: int| 0 <= i < from ==> (#[trigger] entries[i]).0 != key,
    ensures
        entry_of(entries, key) == entry_of(entries.skip(from), key),
    decreases from,
{
    if from == 0 {
        assert(entries.skip(0) =~= entries);
    } else {
        assert(entries[0].0 != key);
        let rest = entries.drop_first();
        assert forall|i: int| 0 <= i < from - 1 implies (#[trigger] rest[i]).0 != key by {
            assert(rest[i] == entries[i + 1]);
        }
        lemma_entry_of_skip(rest, key, from - 1);
        assert(rest.skip(from - 1) =~= entries.skip(from));
    }
}

impl RawValue {
    /// Whether two values have the same content.
    pub fn same_as(&self, other: &RawValue) -> (same: bool)
        ensures
            same == (self@ == other@),
        decreases self,
    {
        match self {
            RawValue::Real(mine) => match other {
                RawValue::Real(theirs) => *mine == *theirs,
                _ => false,
            },
            RawValue::Integer(mine) => match other {
                RawValue::Integer(theirs) => *mine == *theirs,
                _ => false,
            },
            RawValue::String(mine) => match other {
                RawValue::String(theirs) => *mine == *theirs,
                _ => false,
            },
            RawValue::Boolean(mine) => match other {
                RawValue::Boolean(theirs) => *mine == *theirs,
                _ => false,
            },
            RawValue::Sequence(mine) => match other {
                RawValue::Sequence(theirs) => {
                    if mine.len() != theirs.len() {
                        assert(values_of(mine@).len() != values_of(theirs@).len());
                        return false;
                    }
                    let mut at: usize = 0;
                    while at < mine.len()
                        invariant
                            at <= mine.len(),
                            mine.len() == theirs.len(),
                            *self == RawValue::Sequence(*mine),
                            *other == RawValue::Sequence(*theirs),
                            forall|i: int| 0 <= i < at ==> mine@[i]@ == theirs@[i]@,
                        decreases mine.len() - at,
                    {
                        assert(self->Sequence_0 == *mine);
                        assert(decreases_to!(*self => self->Sequence_0));
                        assert(decreases_to!(*mine => mine[at as int]));
                        if !mine[at].same_as(&theirs[at]) {
                            assert(values_of(mine@)[at as int] != values_of(theirs@)[at as int]);
                            return false;
                        }
                        at += 1;
                    }
                    assert(values_of(mine@) =~= values_of(theirs@));
                    true
                },
                _ => false,
            },
            RawValue::Mapping(mine) => match other {
                RawValue::Mapping(theirs) => {
                    if mine.len() != theirs.len() {
                        assert(pairs_of(mine@).len() != pairs_of(theirs@).len());
                        return false;
                    }
                    let mut at: usize = 0;
                    while at < mine.len()
                        invariant
                            at <= mine.len(),
                            mine.len() == theirs.len(),
                            *self == RawValue::Mapping(*mine),
                            *other == RawValue::Mapping(*theirs),
                            forall|i: int|
                                0 <= i < at ==> mine@[i].0@ == theirs@[i].0@ && mine@[i].1@
                                    == theirs@[i].1@,
                        decreases mine.len() - at,
                    {
                        assert(self->Mapping_0 == *mine);
                        assert(decreases_to!(*self => self->Mapping_0));
                        assert(decreases_to!(*mine => mine[at as int]));
                        assert(decreases_to!(mine@[at as int] => mine@[at as int].0));
                        assert(decreases_to!(mine@[at as int] => mine@[at as int].1));
                        if !mine[at].0.same_as(&theirs[at].0) || !mine[at].1.same_as(
                            &theirs[at].1,
                        ) {
                            assert(pairs_of(mine@)[at as int] != pairs_of(theirs@)[at as int]);
                            return false;
                        }
                        at += 1;
                    }
                    assert(pairs_of(mine@) =~= pairs_of(theirs@));
                    true
                },
                _ => false,
            },
            RawValue::Alias(mine) => match other {
                RawValue::Alias(theirs) => *mine == *theirs,
                _ => false,
            },
            RawValue::Null => match other {
                RawValue::Null => true,
                _ => false,
            },
            RawValue::BadValue => match other {
                RawValue::BadValue => true,
                _ => false,
            },
        }
    }
}

/// Looks `key` up among the entries of a mapping.
pub fn lookup<'a>(entries: &'a Vec<(RawValue, RawValue)>, key: &RawValue) -> (found: Option<
    &'a RawValue,
>)
    ensures
        match found {
            Some(value) => entry_of(pairs_of(entries@), key@) == Some(value@),
            None => entry_of(pairs_of(entries@), key@) is None,
        },
{
    let ghost pairs = pairs_of(entries@);
    let mut at: usize = 0;
    while at < entries.len()
        invariant
            at <= entries.len(),
            pairs == pairs_of(entries@),
            forall|i: int| 0 <= i < at ==> (#[trigger] pairs[i]).0 != key@,
        decreases entries.len() - at,
    {
        if entries[at].0.same_as(key) {
            proof {
                lemma_entry_of_skip(pairs, key@, at as int);
                assert(pairs.skip(at as int)[0] == pairs[at as int]);
            }
            return Some(&entries[at].1);
        }
        at += 1;
    }
    proof {
        lemma_entry_of_skip(pairs, key@, at as int);
        assert(pairs.skip(at as int).len() == 0);
    }
    None
}

/// `yaml_rust::Yaml`, a node of a document as the loader builds it. It is
/// only handed from the loader to the function that rewrites it.
#[verifier::external_type_specification]
#[verifier::external_body]
pub struct ExYaml(Yaml);

/// `yaml_rust::ScanError`, what the loader returns for a text that is no
/// YAML. It is only asked for its words.
#[verifier::external_type_specification]
#[verifier::external_body]
pub struct ExScanError(ScanError);

/// The documents that `yaml_rust` reads out of `source`, or `None` where its
/// scanner gives up on the text.
pub uninterp spec fn yaml_documents(source: Seq<char>) -> Option<Seq<Value>>;

/// The scalar that `yaml_rust` reads a plain, unquoted `text` as.
pub uninterp spec fn yaml_scalar(text: Seq<char>) -> Value;

/// Rewrites a node of `yaml_rust::Yaml` as a [`RawValue`], variant for
/// variant and child for child, for the two functions below that call into
/// `yaml_rust`. Nothing is claimed of the result: it is what the node held.
#[verifier::external_body]
fn raw_from_yaml(node: &Yaml) -> RawValue {
    match node {
        Yaml::Real(text) => RawValue::Real(text.clone()),
        Yaml::Integer(number) => RawValue::Integer(*number),
        Yaml::String(text) => RawValue::String(text.clone()),
        Yaml::Boolean(flag) => RawValue::Boolean(*flag),
        Yaml::Array(items) => RawValue::Sequence(items.iter().map(raw_from_yaml).collect()),
        Yaml::Hash(entries) => RawValue::Mapping(
            entries.iter().map(|(key, value)| (raw_from_yaml(key), raw_from_yaml(value))).collect(),
        ),
        Yaml::Alias(id) => RawValue::Alias(*id),
        Yaml::Null => RawValue::Null,
        Yaml::BadValue => RawValue::BadValue,
    }
}

/// `yaml_rust::YamlLoader::load_from_str`: the documents of `source`, each
/// rewritten as a [`RawValue`]. The contract only names what the loader
/// returns: documents where it returns `Ok`, and none where it returns its
/// scan error, which is handed on as it came.
#[verifier::external_body]
fn load_documents(source: &str) -> (loaded: Result<Vec<RawValue>, ScanError>)
    ensures
        match loaded {
            Ok(documents) => yaml_documents(source@) == Some(values_of(documents@)),
            Err(_) => yaml_documents(source@) is None,
        },
{
    match YamlLoader::load_from_str(source) {
        Ok(documents) => Ok(documents.iter().map(raw_from_yaml).collect()),
        Err(error) => Err(error),
    }
}

/// The `Display` text of a `yaml_rust::ScanError`: what went wrong, and
/// where. Nothing is claimed of the text.
#[verifier::external_body]
fn scan_error_text(error: &ScanError) -> String {
    error.to_string()
}

/// `yaml_rust::Yaml::from_str`: the value that an unquoted `text` stands for
/// in a document: a number, a truth value, null, or else the text itself.
/// The contract only names that value.
#[verifier::external_body]
fn read_scalar(text: &str) -> (scalar: RawValue)
    ensures
        scalar@ == yaml_scalar(text@),
{
    raw_from_yaml(&Yaml::from_str(text))
}

/// Reads the documents of a YAML text. Where the text is no YAML, the
/// result is what the scanner has to say of it.
pub fn parse(source: &str) -> (result: Result<Vec<RawValue>, String>)
    ensures
        match result {
            Ok(documents) => yaml_documents(source@) == Some(values_of(documents@)),
            Err(_) => yaml_documents(source@) is None,
        },
{
    match load_documents(source) {
        Ok(documents) => Ok(documents),
        Err(error) => Err(scan_error_text(&error)),
    }
}

/// The key under which a mapping of a document holds the field `name`.
///
/// A key is read as any unquoted text of the document is: a field named
/// `2019` stands under a number, and one named `true` under a truth value.
pub fn key_for(name: &str) -> (key: RawValue)
    ensures
        key@ == yaml_scalar(name@),
{
    read_scalar(name)
}

/// What a mapping holds for the field `name`, if it has a key for it.
pub open spec fn field_of(entries: Seq<(Value, Value)>, name: Seq<char>) -> Option<Value> {
    entry_of(entries, yaml_scalar(name))
}

/// Looks the field `name` up among the entries of a mapping.
pub fn field<'a>(entries: &'a Vec<(RawValue, RawValue)>, name: &str) -> (found: Option<
    &'a RawValue,
>)
    ensures
        match found {
            Some(value) => field_of(pairs_of(entries@), name@) == Some(value@),
            None => field_of(pairs_of(entries@), name@) is None,
        },
{
    let key = key_for(name);
    lookup(entries, &key)
}

} // verus!
