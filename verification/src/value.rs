//! The values that can be encoded, and what each is encoded as.

use vstd::prelude::*;
use crate::escape::escaped;
use crate::grammar::{bool_text, float_text, null_text, object_text, sequence_text, variant_text};
use crate::number::{decimal, non_finite_f32, non_finite_f64};
use crate::pairs::{pairs_map, TextPair};

verus! {

/// A value of any shape that the encoder knows.
///
/// The names of types and the indices of variants are carried along but play
/// no part in the encoding. A float is given by its IEEE-754 bit pattern
/// together with its shortest decimal form that reads back to the same float;
/// the encoder classifies the bits and writes the decimal form as it is.
#[derive(Debug)]
pub enum Value {
    Bool(bool),
    I8(i8),
    I16(i16),
    I32(i32),
    I64(i64),
    I128(i128),
    U8(u8),
    U16(u16),
    U32(u32),
    U64(u64),
    U128(u128),
    F32 { bits32: u32, shortest: String },
    F64 { bits64: u64, shortest: String },
    Char(char),
    Str(String),
    Bytes(Vec<u8>),
    /// An optional value that is absent.
    OptionNone,
    /// An optional value that is present.
    OptionSome(Box<Value>),
    Unit,
    UnitStruct { name: String },
    UnitVariant { name: String, variant_index: u32, variant: String },
    NewtypeStruct { name: String, value: Box<Value> },
    NewtypeVariant { name: String, variant_index: u32, variant: String, value: Box<Value> },
    Sequence(Vec<Value>),
    Tuple(Vec<Value>),
    TupleStruct { name: String, elements: Vec<Value> },
    TupleVariant { name: String, variant_index: u32, variant: String, elements: Vec<Value> },
    /// A map, as its entries in the order in which they are handed over.
    Mapping(Vec<(Value, Value)>),
    Struct { name: String, fields: Vec<(String, Value)> },
    StructVariant {
        name: String,
        variant_index: u32,
        variant: String,
        fields: Vec<(String, Value)>,
    },
}

/// The text that `v` is encoded as, or `None` where `v` holds a map with a
/// key that cannot stand as a key.
pub open spec fn encoded(v: Value) -> Option<Seq<char>>
    decreases v,
{
    match v {
        Value::Bool(b) => Some(bool_text(b)),
        Value::I8(n) => Some(decimal(n as int)),
        Value::I16(n) => Some(decimal(n as int)),
        Value::I32(n) => Some(decimal(n as int)),
        Value::I64(n) => Some(decimal(n as int)),
        Value::I128(n) => Some(decimal(n as int)),
        Value::U8(n) => Some(decimal(n as int)),
        Value::U16(n) => Some(decimal(n as int)),
        Value::U32(n) => Some(decimal(n as int)),
        Value::U64(n) => Some(decimal(n as int)),
        Value::U128(n) => Some(decimal(n as int)),
        Value::F32 { bits32, shortest } => Some(float_text(non_finite_f32(bits32), shortest@)),
        Value::F64 { bits64, shortest } => Some(float_text(non_finite_f64(bits64), shortest@)),
        Value::Char(c) => Some(escaped(seq![c])),
        Value::Str(s) => Some(escaped(s@)),
        Value::Bytes(bytes) => Some(sequence_text(byte_texts(bytes@))),
        Value::OptionNone => Some(null_text()),
        Value::OptionSome(inner) => encoded(*inner),
        Value::Unit => Some(null_text()),
        Value::UnitStruct { .. } => Some(null_text()),
        Value::UnitVariant { variant, .. } => Some(escaped(variant@)),
        Value::NewtypeStruct { value, .. } => encoded(*value),
        Value::NewtypeVariant { variant, value, .. } => match encoded(*value) {
            Some(payload) => Some(variant_text(variant@, payload)),
            None => None,
        },
        Value::Sequence(items) => match encoded_items(items@) {
            Some(elements) => Some(sequence_text(elements)),
            None => None,
        },
        Value::Tuple(items) => match encoded_items(items@) {
            Some(elements) => Some(sequence_text(elements)),
            None => None,
        },
        Value::TupleStruct { elements, .. } => match encoded_items(elements@) {
            Some(elements) => Some(sequence_text(elements)),
            None => None,
        },
        Value::TupleVariant { variant, elements, .. } => match encoded_items(elements@) {
            Some(elements) => Some(variant_text(variant@, sequence_text(elements))),
            None => None,
        },
        Value::Mapping(entries) => match encoded_entries(entries@) {
            Some(pairs) => Some(object_text(pairs_map(pairs))),
            None => None,
        },
        Value::Struct { fields, .. } => match encoded_fields(fields@) {
            Some(pairs) => Some(object_text(pairs_map(pairs))),
            None => None,
        },
        Value::StructVariant { variant, fields, .. } => match encoded_fields(fields@) {
            Some(pairs) => Some(variant_text(variant@, object_text(pairs_map(pairs)))),
            None => None,
        },
    }
}

/// Each byte as a decimal number.
pub open spec fn byte_texts(bytes: Seq<u8>) -> Seq<Seq<char>> {
    bytes.map_values(|b: u8| decimal(b as int))
}

/// The encodings of `items`, in order, or `None` if one of them has none.
pub open spec fn encoded_items(items: Seq<Value>) -> Option<Seq<Seq<char>>>
    decreases items,
{
    if items.len() == 0 {
        Some(Seq::empty())
    } else {
        match (encoded_items(items.drop_last()), encoded(items.last())) {
            (Some(before), Some(text)) => Some(before.push(text)),
            _ => None,
        }
    }
}

/// The entries of a map, each as its key text and its encoded value, in
/// order, or `None` if a key cannot stand as a key or a value has no
/// encoding.
pub open spec fn encoded_entries(entries: Seq<(Value, Value)>) -> Option<Seq<TextPair>>
    decreases entries,
{
    if entries.len() == 0 {
        Some(Seq::empty())
    } else {
        match (
            encoded_entries(entries.drop_last()),
            key_text(entries.last().0),
            encoded(entries.last().1),
        ) {
            (Some(before), Some(key), Some(text)) => Some(before.push((key, text))),
            _ => None,
        }
    }
}

/// The fields of a struct, each as its name in written form and its encoded
/// value, in order, or `None` if a value has no encoding.
pub open spec fn encoded_fields(fields: Seq<(String, Value)>) -> Option<Seq<TextPair>>
    decreases fields,
{
    if fields.len() == 0 {
        Some(Seq::empty())
    } else {
        match (encoded_fields(fields.drop_last()), encoded(fields.last().1)) {
            (Some(before), Some(text)) => Some(before.push((escaped(fields.last().0@), text))),
            _ => None,
        }
    }
}

/// The text of `v` as a map key, or `None` where `v` cannot stand as a key.
/// Integers, characters, strings and the names of unit variants can; a
/// newtype struct can if what it wraps can.
pub open spec fn key_text(v: Value) -> Option<Seq<char>>
    decreases v,
{
    match v {
        Value::I8(n) => Some(decimal(n as int)),
        Value::I16(n) => Some(decimal(n as int)),
        Value::I32(n) => Some(decimal(n as int)),
        Value::I64(n) => Some(decimal(n as int)),
        Value::I128(n) => Some(decimal(n as int)),
        Value::U8(n) => Some(decimal(n as int)),
        Value::U16(n) => Some(decimal(n as int)),
        Value::U32(n) => Some(decimal(n as int)),
        Value::U64(n) => Some(decimal(n as int)),
        Value::U128(n) => Some(decimal(n as int)),
        Value::Char(c) => Some(escaped(seq![c])),
        Value::Str(s) => Some(escaped(s@)),
        Value::UnitVariant { variant, .. } => Some(escaped(variant@)),
        Value::NewtypeStruct { value, .. } => key_text(*value),
        _ => None,
    }
}

/// The encodings of a list are as many as its items, and each is the
/// encoding of the item at its place; there are none exactly when some item
/// has no encoding.
pub proof fn lemma_items_pointwise(items: Seq<Value>)
    ensures
        encoded_items(items) is Some <==> forall|i: int|
            0 <= i < items.len() ==> encoded(#[trigger] items[i]) is Some,
        encoded_items(items) matches Some(elements) ==> elements.len() == items.len()
            && forall|i: int|
            0 <= i < items.len() ==> encoded(#[trigger] items[i]) == Some(elements[i]),
    decreases items.len(),
{
    if items.len() > 0 {
        let before = items.drop_last();
        lemma_items_pointwise(before);
        if encoded_items(items) is Some {
            assert forall|i: int| 0 <= i < items.len() implies encoded(#[trigger] items[i])
                == Some(encoded_items(items)->0[i]) by {
                if i < items.len() - 1 {
                    assert(before[i] == items[i]);
                }
            }
        }
        if forall|i: int| 0 <= i < items.len() ==> encoded(#[trigger] items[i]) is Some {
            assert forall|i: int| 0 <= i < before.len() implies encoded(#[trigger] before[i])
                is Some by {
                assert(before[i] == items[i]);
            }
            assert(encoded(items[items.len() - 1]) is Some);
        }
    }
}

/// The pairs of a map's entries are as many as the entries, and each is the
/// key text and the encoding of the entry at its place; there are none
/// exactly when some key cannot stand as a key or some value has no
/// encoding.
pub proof fn lemma_entries_pointwise(entries: Seq<(Value, Value)>)
    ensures
        encoded_entries(entries) is Some <==> forall|i: int|
            0 <= i < entries.len() ==> key_text((#[trigger] entries[i]).0) is Some && encoded(
                entries[i].1,
            ) is Some,
        encoded_entries(entries) matches Some(pairs) ==> pairs.len() == entries.len()
            && forall|i: int|
            0 <= i < entries.len() ==> key_text((#[trigger] entries[i]).0) == Some(pairs[i].0)
                && encoded(entries[i].1) == Some(pairs[i].1),
    decreases entries.len(),
{
    if entries.len() > 0 {
        let before = entries.drop_last();
        lemma_entries_pointwise(before);
        if encoded_entries(entries) is Some {
            let pairs = encoded_entries(entries)->0;
            assert forall|i: int| 0 <= i < entries.len() implies key_text(
                (#[trigger] entries[i]).0,
            ) == Some(pairs[i].0) && encoded(entries[i].1) == Some(pairs[i].1) by {
                if i < entries.len() - 1 {
                    assert(before[i] == entries[i]);
                }
            }
        }
        if forall|i: int|
            0 <= i < entries.len() ==> key_text((#[trigger] entries[i]).0) is Some && encoded(
                entries[i].1,
            ) is Some {
            assert forall|i: int| 0 <= i < before.len() implies key_text(
                (#[trigger] before[i]).0,
            ) is Some && encoded(before[i].1) is Some by {
                assert(before[i] == entries[i]);
            }
            assert(key_text(entries[entries.len() - 1].0) is Some);
        }
    }
}

/// The pairs of a struct's fields are as many as the fields, and each is
/// the written name and the encoding of the field at its place; there are
/// none exactly when some field's value has no encoding.
pub proof fn lemma_fields_pointwise(fields: Seq<(String, Value)>)
    ensures
        encoded_fields(fields) is Some <==> forall|i: int|
            0 <= i < fields.len() ==> encoded((#[trigger] fields[i]).1) is Some,
        encoded_fields(fields) matches Some(pairs) ==> pairs.len() == fields.len()
            && forall|i: int|
            0 <= i < fields.len() ==> escaped((#[trigger] fields[i]).0@) == pairs[i].0
                && encoded(fields[i].1) == Some(pairs[i].1),
    decreases fields.len(),
{
    if fields.len() > 0 {
        let before = fields.drop_last();
        lemma_fields_pointwise(before);
        if encoded_fields(fields) is Some {
            let pairs = encoded_fields(fields)->0;
            assert forall|i: int| 0 <= i < fields.len() implies escaped(
                (#[trigger] fields[i]).0@,
            ) == pairs[i].0 && encoded(fields[i].1) == Some(pairs[i].1) by {
                if i < fields.len() - 1 {
                    assert(before[i] == fields[i]);
                }
            }
        }
        if forall|i: int| 0 <= i < fields.len() ==> encoded((#[trigger] fields[i]).1) is Some {
            assert forall|i: int| 0 <= i < before.len() implies encoded(
                (#[trigger] before[i]).1,
            ) is Some by {
                assert(before[i] == fields[i]);
            }
            assert(encoded(fields[fields.len() - 1].1) is Some);
        }
    }
}

} // verus!
