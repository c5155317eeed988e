//! How a value drives the encoder: each shape calls the operation made for
//! it, and the shapes with parts hand their parts over one by one.

use vstd::prelude::*;
use crate::error::Error;
use crate::escape::escaped;
use crate::grammar::{join, object_text};
use crate::key::rejected;
use crate::map::MapSerializer;
use crate::pairs::pairs_map;
use crate::ser::{SeqSerializer, Serializer};
use crate::value::{
    encoded, encoded_entries, encoded_fields, encoded_items, key_text, lemma_entries_pointwise,
    lemma_fields_pointwise, lemma_items_pointwise, Value,
};

verus! {

/// Hands the elements of a sequence to its writer, first to last.
fn write_elements(w: &mut SeqSerializer<'_>, items: &Vec<Value>) -> (r: Result<(), Error>)
    requires
        old(w).first,
    ensures
        final(w).in_variant == old(w).in_variant,
        *final(final(w).ser) == *final(old(w).ser),
        match encoded_items(items@) {
            Some(elements) => r is Ok && final(w).ser@ == old(w).ser@ + join(elements, seq![',']),
            None => rejected(r) && old(w).ser@.is_prefix_of(final(w).ser@),
        },
    decreases items@, 2int,
{
    let ghost start = w.ser@;
    let mut i: usize = 0;
    while i < items.len()
        invariant
            i <= items@.len(),
            w.first == (i == 0),
            w.in_variant == old(w).in_variant,
            *final(w.ser) == *final(old(w).ser),
            start == old(w).ser@,
            encoded_items(items@.take(i as int)) matches Some(elements) && w.ser@ == start + join(
                elements,
                seq![','],
            ),
        decreases items@.len() - i,
    {
        let ghost done = encoded_items(items@.take(i as int))->0;
        proof {
            assert(items@.take(i + 1).drop_last() == items@.take(i as int));
            assert(items@.take(i + 1).last() == items@[i as int]);
        }
        match w.serialize_element(&items[i]) {
            Ok(()) => {
                proof {
                    let text = encoded(items@[i as int])->0;
                    assert(done.push(text).drop_last() == done);
                    if i == 0 {
                        assert(done =~= Seq::<Seq<char>>::empty());
                    }
                }
            },
            Err(e) => {
                proof {
                    lemma_items_pointwise(items@);
                }
                return Err(e);
            },
        }
        i = i + 1;
    }
    assert(items@.take(items@.len() as int) == items@);
    Ok(())
}

/// Hands the entries of a map to its writer, each key before its value.
fn write_entries(w: &mut MapSerializer<'_>, entries: &Vec<(Value, Value)>) -> (r: Result<
    (),
    Error,
>)
    requires
        old(w).map.wf(),
        old(w).map@ == Map::<Seq<char>, Seq<char>>::empty(),
    ensures
        final(w).ser == old(w).ser,
        final(w).in_variant == old(w).in_variant,
        final(w).map.wf(),
        match encoded_entries(entries@) {
            Some(pairs) => r is Ok && final(w).map@ == pairs_map(pairs),
            None => rejected(r),
        },
    decreases entries@, 3int,
{
    let mut i: usize = 0;
    while i < entries.len()
        invariant
            i <= entries@.len(),
            w.ser == old(w).ser,
            w.in_variant == old(w).in_variant,
            w.map.wf(),
            encoded_entries(entries@.take(i as int)) matches Some(pairs) && w.map@ == pairs_map(
                pairs,
            ),
        decreases entries@.len() - i,
    {
        let ghost done = encoded_entries(entries@.take(i as int))->0;
        proof {
            assert(entries@.take(i + 1).drop_last() == entries@.take(i as int));
            assert(entries@.take(i + 1).last() == entries@[i as int]);
        }
        match w.serialize_key(&entries[i].0) {
            Ok(()) => {},
            Err(e) => {
                proof {
                    lemma_entries_pointwise(entries@);
                }
                return Err(e);
            },
        }
        match w.serialize_value(&entries[i].1) {
            Ok(()) => {
                proof {
                    let entry = entries@[i as int];
                    let pair = (key_text(entry.0)->0, encoded(entry.1)->0);
                    assert(done.push(pair).drop_last() == done);
                }
            },
            Err(e) => {
                proof {
                    lemma_entries_pointwise(entries@);
                }
                return Err(e);
            },
        }
        i = i + 1;
    }
    assert(entries@.take(entries@.len() as int) == entries@);
    Ok(())
}

/// Hands the fields of a struct to its writer, first to last.
fn write_fields(w: &mut MapSerializer<'_>, fields: &Vec<(String, Value)>) -> (r: Result<
    (),
    Error,
>)
    requires
        old(w).map.wf(),
        old(w).map@ == Map::<Seq<char>, Seq<char>>::empty(),
    ensures
        final(w).ser == old(w).ser,
        final(w).in_variant == old(w).in_variant,
        final(w).map.wf(),
        match encoded_fields(fields@) {
            Some(pairs) => r is Ok && final(w).map@ == pairs_map(pairs),
            None => rejected(r),
        },
    decreases fields@, 3int,
{
    let mut i: usize = 0;
    while i < fields.len()
        invariant
            i <= fields@.len(),
            w.ser == old(w).ser,
            w.in_variant == old(w).in_variant,
            w.map.wf(),
            encoded_fields(fields@.take(i as int)) matches Some(pairs) && w.map@ == pairs_map(
                pairs,
            ),
        decreases fields@.len() - i,
    {
        let ghost done = encoded_fields(fields@.take(i as int))->0;
        proof {
            assert(fields@.take(i + 1).drop_last() == fields@.take(i as int));
            assert(fields@.take(i + 1).last() == fields@[i as int]);
        }
        match w.serialize_field(fields[i].0.as_str(), &fields[i].1) {
            Ok(()) => {
                proof {
                    let field = fields@[i as int];
                    let pair = (escaped(field.0@), encoded(field.1)->0);
                    assert(done.push(pair).drop_last() == done);
                }
            },
            Err(e) => {
                proof {
                    lemma_fields_pointwise(fields@);
                }
                return Err(e);
            },
        }
        i = i + 1;
    }
    assert(fields@.take(fields@.len() as int) == fields@);
    Ok(())
}

/// Writes a sequence that `w` has opened: its elements, then what closes it.
fn finish_sequence(w: SeqSerializer<'_>, items: &Vec<Value>) -> (r: Result<(), Error>)
    requires
        w.first,
    ensures
        match encoded_items(items@) {
            Some(elements) => r is Ok && final(w.ser)@ == old(w.ser)@ + join(elements, seq![','])
                + w.closing(),
            None => rejected(r) && old(w.ser)@.is_prefix_of(final(w.ser)@),
        },
    decreases items@, 3int,
{
    let mut w = w;
    match write_elements(&mut w, items) {
        Ok(()) => w.end(),
        Err(e) => Err(e),
    }
}

/// Writes an object that `w` has opened: collects its entries, then writes
/// them.
fn finish_map(w: MapSerializer<'_>, entries: &Vec<(Value, Value)>) -> (r: Result<(), Error>)
    requires
        w.map.wf(),
        w.map@ == Map::<Seq<char>, Seq<char>>::empty(),
    ensures
        match encoded_entries(entries@) {
            Some(pairs) => r is Ok && final(w.ser)@ == old(w.ser)@ + object_text(
                pairs_map(pairs),
            ) + w.closing(),
            None => rejected(r) && final(w.ser)@ == old(w.ser)@,
        },
    decreases entries@, 4int,
{
    let mut w = w;
    match write_entries(&mut w, entries) {
        Ok(()) => w.end(),
        Err(e) => Err(e),
    }
}

/// Writes an object that `w` has opened: collects its fields, then writes
/// them.
fn finish_struct(w: MapSerializer<'_>, fields: &Vec<(String, Value)>) -> (r: Result<(), Error>)
    requires
        w.map.wf(),
        w.map@ == Map::<Seq<char>, Seq<char>>::empty(),
    ensures
        match encoded_fields(fields@) {
            Some(pairs) => r is Ok && final(w.ser)@ == old(w.ser)@ + object_text(
                pairs_map(pairs),
            ) + w.closing(),
            None => rejected(r) && final(w.ser)@ == old(w.ser)@,
        },
    decreases fields@, 4int,
{
    let mut w = w;
    match write_fields(&mut w, fields) {
        Ok(()) => w.end(),
        Err(e) => Err(e),
    }
}

impl Value {
    /// Hands this value to the encoder `ser` by its shape. On success the
    /// encoding of the value has been appended. A map key that cannot stand
    /// as a key fails the call; what had been written before stays.
    pub fn serialize(&self, ser: &mut Serializer) -> (r: Result<(), Error>)
        ensures
            match encoded(*self) {
                Some(text) => r is Ok && final(ser)@ == old(ser)@ + text,
                None => rejected(r) && old(ser)@.is_prefix_of(final(ser)@),
            },
        decreases self, 0int,
    {
        match self {
            Value::Bool(v) => ser.serialize_bool(*v),
            Value::I8(v) => ser.serialize_i8(*v),
            Value::I16(v) => ser.serialize_i16(*v),
            Value::I32(v) => ser.serialize_i32(*v),
            Value::I64(v) => ser.serialize_i64(*v),
            Value::I128(v) => ser.serialize_i128(*v),
            Value::U8(v) => ser.serialize_u8(*v),
            Value::U16(v) => ser.serialize_u16(*v),
            Value::U32(v) => ser.serialize_u32(*v),
            Value::U64(v) => ser.serialize_u64(*v),
            Value::U128(v) => ser.serialize_u128(*v),
            Value::F32 { bits32, shortest } => ser.serialize_f32(*bits32, shortest.as_str()),
            Value::F64 { bits64, shortest } => ser.serialize_f64(*bits64, shortest.as_str()),
            Value::Char(v) => ser.serialize_char(*v),
            Value::Str(v) => ser.serialize_str(v.as_str()),
            Value::Bytes(v) => ser.serialize_bytes(v.as_slice()),
            Value::OptionNone => ser.serialize_none(),
            Value::OptionSome(value) => ser.serialize_some(value),
            Value::Unit => ser.serialize_unit(),
            Value::UnitStruct { name } => ser.serialize_unit_struct(name.as_str()),
            Value::UnitVariant { name, variant_index, variant } => ser.serialize_unit_variant(
                name.as_str(),
                *variant_index,
                variant.as_str(),
            ),
            Value::NewtypeStruct { name, value } => ser.serialize_newtype_struct(
                name.as_str(),
                value,
            ),
            Value::NewtypeVariant { name, variant_index, variant, value } => {
                ser.serialize_newtype_variant(
                    name.as_str(),
                    *variant_index,
                    variant.as_str(),
                    value,
                )
            },
            Value::Sequence(items) => {
                let w = ser.serialize_seq(Some(items.len())).unwrap();
                finish_sequence(w, items)
            },
            Value::Tuple(items) => {
                let w = ser.serialize_tuple(items.len()).unwrap();
                finish_sequence(w, items)
            },
            Value::TupleStruct { name, elements } => {
                let w = ser.serialize_tuple_struct(name.as_str(), elements.len()).unwrap();
                finish_sequence(w, elements)
            },
            Value::TupleVariant { name, variant_index, variant, elements } => {
                let w = ser.serialize_tuple_variant(
                    name.as_str(),
                    *variant_index,
                    variant.as_str(),
                    elements.len(),
                ).unwrap();
                finish_sequence(w, elements)
            },
            Value::Mapping(entries) => {
                let w = ser.serialize_map(Some(entries.len())).unwrap();
                finish_map(w, entries)
            },
            Value::Struct { name, fields } => {
                let w = ser.serialize_struct(name.as_str(), fields.len()).unwrap();
                finish_struct(w, fields)
            },
            Value::StructVariant { name, variant_index, variant, fields } => {
                let w = ser.serialize_struct_variant(
                    name.as_str(),
                    *variant_index,
                    variant.as_str(),
                    fields.len(),
                ).unwrap();
                finish_struct(w, fields)
            },
        }
    }
}

} // verus!
