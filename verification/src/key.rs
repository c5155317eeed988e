//! The encoder for map keys, which takes only what can stand as a key.

use vstd::prelude::*;
use crate::error::Error;
use crate::escape::{escaped, escaped_str};
use crate::number::{decimal, int_to_string, uint_to_string};
use crate::value::{key_text, Value};

verus! {

/// Whether `r` is the failure for a key that cannot stand as a key.
pub open spec fn rejected(r: Result<(), Error>) -> bool {
    r matches Err(e) && e is KeyMustBeAString
}

/// The encoder for one map key. It writes integers, characters, strings and
/// the names of unit variants as the encoder for values does, and refuses
/// every other shape before it has written anything.
pub struct MapKeySerializer {
    buf: String,
}

impl View for MapKeySerializer {
    type V = Seq<char>;

    /// The text written so far.
    closed spec fn view(&self) -> Seq<char> {
        self.buf@
    }
}

impl MapKeySerializer {
    /// A key encoder that has written nothing yet.
    pub fn new() -> (ser: MapKeySerializer)
        ensures
            ser@ == Seq::<char>::empty(),
    {
        MapKeySerializer { buf: String::new() }
    }

    /// Gives up the encoder for the text it has written.
    pub fn into_string(self) -> (text: String)
        ensures
            text@ == self@,
    {
        self.buf
    }

    /// Refuses a boolean as a key.
    pub fn serialize_bool(&mut self, _v: bool) -> (r: Result<(), Error>)
        ensures
            rejected(r),
            final(self)@ == old(self)@,
    {
        Err(Error::KeyMustBeAString)
    }

    /// Writes `v` in decimal.
    pub fn serialize_i8(&mut self, v: i8) -> (r: Result<(), Error>)
        ensures
            r is Ok,
            final(self)@ == old(self)@ + decimal(v as int),
    {
        int_to_string(&mut self.buf, v as i128);
        Ok(())
    }

    /// Writes `v` in decimal.
    pub fn serialize_i16(&mut self, v: i16) -> (r: Result<(), Error>)
        ensures
            r is Ok,
            final(self)@ == old(self)@ + decimal(v as int),
    {
        int_to_string(&mut self.buf, v as i128);
        Ok(())
    }

    /// Writes `v` in decimal.
    pub fn serialize_i32(&mut self, v: i32) -> (r: Result<(), Error>)
        ensures
            r is Ok,
            final(self)@ == old(self)@ + decimal(v as int),
    {
        int_to_string(&mut self.buf, v as i128);
        Ok(())
    }

    /// Writes `v` in decimal.
    pub fn serialize_i64(&mut self, v: i64) -> (r: Result<(), Error>)
        ensures
            r is Ok,
            final(self)@ == old(self)@ + decimal(v as int),
    {
        int_to_string(&mut self.buf, v as i128);
        Ok(())
    }

    /// Writes `v` in decimal.
    pub fn serialize_i128(&mut self, v: i128) -> (r: Result<(), Error>)
        ensures
            r is Ok,
            final(self)@ == old(self)@ + decimal(v as int),
    {
        int_to_string(&mut self.buf, v);
        Ok(())
    }

    /// Writes `v` in decimal.
    pub fn serialize_u8(&mut self, v: u8) -> (r: Result<(), Error>)
        ensures
            r is Ok,
            final(self)@ == old(self)@ + decimal(v as int),
    {
        uint_to_string(&mut self.buf, v as u128);
        Ok(())
    }

    /// Writes `v` in decimal.
    pub fn serialize_u16(&mut self, v: u16) -> (r: Result<(), Error>)
        ensures
            r is Ok,
            final(self)@ == old(self)@ + decimal(v as int),
    {
        uint_to_string(&mut self.buf, v as u128);
        Ok(())
    }

    /// Writes `v` in decimal.
    pub fn serialize_u32(&mut self, v: u32) -> (r: Result<(), Error>)
        ensures
            r is Ok,
            final(self)@ == old(self)@ + decimal(v as int),
    {
        uint_to_string(&mut self.buf, v as u128);
        Ok(())
    }

    /// Writes `v` in decimal.
    pub fn serialize_u64(&mut self, v: u64) -> (r: Result<(), Error>)
        ensures
            r is Ok,
            final(self)@ == old(self)@ + decimal(v as int),
    {
        uint_to_string(&mut self.buf, v as u128);
        Ok(())
    }

    /// Writes `v` in decimal.
    pub fn serialize_u128(&mut self, v: u128) -> (r: Result<(), Error>)
        ensures
            r is Ok,
            final(self)@ == old(self)@ + decimal(v as int),
    {
        uint_to_string(&mut self.buf, v);
        Ok(())
    }

    /// Refuses a float as a key.
    pub fn serialize_f32(&mut self, _bits: u32, _shortest: &str) -> (r: Result<(), Error>)
        ensures
            rejected(r),
            final(self)@ == old(self)@,
    {
        Err(Error::KeyMustBeAString)
    }

    /// Refuses a float as a key.
    pub fn serialize_f64(&mut self, _bits: u64, _shortest: &str) -> (r: Result<(), Error>)
        ensures
            rejected(r),
            final(self)@ == old(self)@,
    {
        Err(Error::KeyMustBeAString)
    }

    /// Writes the character as a text of length one.
    pub fn serialize_char(&mut self, v: char) -> (r: Result<(), Error>)
        ensures
            r is Ok,
            final(self)@ == old(self)@ + escaped(seq![v]),
    {
        let mut text = String::new();
        text.push(v);
        assert(text@ == seq![v]);
        self.serialize_str(text.as_str())
    }

    /// Writes the text, bare where it can stand bare and quoted where not.
    pub fn serialize_str(&mut self, v: &str) -> (r: Result<(), Error>)
        ensures
            r is Ok,
            final(self)@ == old(self)@ + escaped(v@),
    {
        escaped_str(&mut self.buf, v);
        Ok(())
    }

    /// Refuses bytes as a key.
    pub fn serialize_bytes(&mut self, _v: &[u8]) -> (r: Result<(), Error>)
        ensures
            rejected(r),
            final(self)@ == old(self)@,
    {
        Err(Error::KeyMustBeAString)
    }

    /// Refuses an absent optional value as a key.
    pub fn serialize_none(&mut self) -> (r: Result<(), Error>)
        ensures
            rejected(r),
            final(self)@ == old(self)@,
    {
        Err(Error::KeyMustBeAString)
    }

    /// Refuses a present optional value as a key, whatever it holds.
    pub fn serialize_some(&mut self, _value: &Value) -> (r: Result<(), Error>)
        ensures
            rejected(r),
            final(self)@ == old(self)@,
    {
        Err(Error::KeyMustBeAString)
    }

    /// Refuses the unit value as a key.
    pub fn serialize_unit(&mut self) -> (r: Result<(), Error>)
        ensures
            rejected(r),
            final(self)@ == old(self)@,
    {
        Err(Error::KeyMustBeAString)
    }

    /// Refuses a unit struct as a key.
    pub fn serialize_unit_struct(&mut self, _name: &str) -> (r: Result<(), Error>)
        ensures
            rejected(r),
            final(self)@ == old(self)@,
    {
        Err(Error::KeyMustBeAString)
    }

    /// Writes the name of the variant as text.
    pub fn serialize_unit_variant(
        &mut self,
        _name: &str,
        _variant_index: u32,
        variant: &str,
    ) -> (r: Result<(), Error>)
        ensures
            r is Ok,
            final(self)@ == old(self)@ + escaped(variant@),
    {
        escaped_str(&mut self.buf, variant);
        Ok(())
    }

    /// Takes a newtype struct as a key exactly when what it wraps can stand
    /// as a key, and writes it as that.
    pub fn serialize_newtype_struct(&mut self, _name: &str, value: &Value) -> (r: Result<
        (),
        Error,
    >)
        ensures
            match key_text(*value) {
                Some(text) => r is Ok && final(self)@ == old(self)@ + text,
                None => rejected(r) && final(self)@ == old(self)@,
            },
        decreases value, 1int,
    {
        value.serialize_key(self)
    }

    /// Refuses a newtype variant as a key, whatever it holds.
    pub fn serialize_newtype_variant(
        &mut self,
        _name: &str,
        _variant_index: u32,
        _variant: &str,
        _value: &Value,
    ) -> (r: Result<(), Error>)
        ensures
            rejected(r),
            final(self)@ == old(self)@,
    {
        Err(Error::KeyMustBeAString)
    }

    /// Refuses a sequence as a key.
    pub fn serialize_seq(&mut self, _len: Option<usize>) -> (r: Result<(), Error>)
        ensures
            rejected(r),
            final(self)@ == old(self)@,
    {
        Err(Error::KeyMustBeAString)
    }

    /// Refuses a tuple as a key.
    pub fn serialize_tuple(&mut self, _len: usize) -> (r: Result<(), Error>)
        ensures
            rejected(r),
            final(self)@ == old(self)@,
    {
        Err(Error::KeyMustBeAString)
    }

    /// Refuses a tuple struct as a key.
    pub fn serialize_tuple_struct(&mut self, _name: &str, _len: usize) -> (r: Result<(), Error>)
        ensures
            rejected(r),
            final(self)@ == old(self)@,
    {
        Err(Error::KeyMustBeAString)
    }

    /// Refuses a tuple variant as a key.
    pub fn serialize_tuple_variant(
        &mut self,
        _name: &str,
        _variant_index: u32,
        _variant: &str,
        _len: usize,
    ) -> (r: Result<(), Error>)
        ensures
            rejected(r),
            final(self)@ == old(self)@,
    {
        Err(Error::KeyMustBeAString)
    }

    /// Refuses a map as a key.
    pub fn serialize_map(&mut self, _len: Option<usize>) -> (r: Result<(), Error>)
        ensures
            rejected(r),
            final(self)@ == old(self)@,
    {
        Err(Error::KeyMustBeAString)
    }

    /// Refuses a struct as a key.
    pub fn serialize_struct(&mut self, _name: &str, _len: usize) -> (r: Result<(), Error>)
        ensures
            rejected(r),
            final(self)@ == old(self)@,
    {
        Err(Error::KeyMustBeAString)
    }

    /// Refuses a struct variant as a key.
    pub fn serialize_struct_variant(
        &mut self,
        _name: &str,
        _variant_index: u32,
        _variant: &str,
        _len: usize,
    ) -> (r: Result<(), Error>)
        ensures
            rejected(r),
            final(self)@ == old(self)@,
    {
        Err(Error::KeyMustBeAString)
    }
}

impl Value {
    /// Hands this value to the key encoder `ser` by its shape. The key is
    /// written exactly when it can stand as a key; when it cannot, nothing is
    /// written.
    pub fn serialize_key(&self, ser: &mut MapKeySerializer) -> (r: Result<(), Error>)
        ensures
            match key_text(*self) {
                Some(text) => r is Ok && final(ser)@ == old(ser)@ + text,
                None => rejected(r) && final(ser)@ == old(ser)@,
            },
        decreases self, 0int,
    {
        match self {
            Value::Bool(v) => ser.serialize_bool(*v),
            Value::I8(v) => ser.serialize_i8(*v),
            Value::I16(v) => ser.serialize_i16(*v),
            Value::I32(v) => ser.serialize_i32(*v),
            Value::I64(v) => ser.serialize_i64(*v),
            Value::I128(v) => ser.serialize_i128(*v),
            Value::U8(v) => ser.serialize_u8(*v),
            Value::U16(v) => ser.serialize_u16(*v),
            Value::U32(v) => ser.serialize_u32(*v),
            Value::U64(v) => ser.serialize_u64(*v),
            Value::U128(v) => ser.serialize_u128(*v),
            Value::F32 { bits32, shortest } => ser.serialize_f32(*bits32, shortest.as_str()),
            Value::F64 { bits64, shortest } => ser.serialize_f64(*bits64, shortest.as_str()),
            Value::Char(v) => ser.serialize_char(*v),
            Value::Str(v) => ser.serialize_str(v.as_str()),
            Value::Bytes(v) => ser.serialize_bytes(v.as_slice()),
            Value::OptionNone => ser.serialize_none(),
            Value::OptionSome(value) => ser.serialize_some(value),
            Value::Unit => ser.serialize_unit(),
            Value::UnitStruct { name } => ser.serialize_unit_struct(name.as_str()),
            Value::UnitVariant { name, variant_index, variant } => ser.serialize_unit_variant(
                name.as_str(),
                *variant_index,
                variant.as_str(),
            ),
            Value::NewtypeStruct { name, value } => ser.serialize_newtype_struct(
                name.as_str(),
                value,
            ),
            Value::NewtypeVariant { name, variant_index, variant, value } => {
                ser.serialize_newtype_variant(
                    name.as_str(),
                    *variant_index,
                    variant.as_str(),
                    value,
                )
            },
            Value::Sequence(items) => ser.serialize_seq(Some(items.len())),
            Value::Tuple(items) => ser.serialize_tuple(items.len()),
            Value::TupleStruct { name, elements } => ser.serialize_tuple_struct(
                name.as_str(),
                elements.len(),
            ),
            Value::TupleVariant { name, variant_index, variant, elements } => {
                ser.serialize_tuple_variant(
                    name.as_str(),
                    *variant_index,
                    variant.as_str(),
                    elements.len(),
                )
            },
            Value::Mapping(entries) => ser.serialize_map(Some(entries.len())),
            Value::Struct { name, fields } => ser.serialize_struct(name.as_str(), fields.len()),
            Value::StructVariant { name, variant_index, variant, fields } => {
                ser.serialize_struct_variant(
                    name.as_str(),
                    *variant_index,
                    variant.as_str(),
                    fields.len(),
                )
            },
        }
    }
}

} // verus!
