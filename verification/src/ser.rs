//! The encoder: a text buffer with one operation for each shape of value.

use vstd::prelude::*;
use crate::error::Error;
use crate::escape::{escaped, escaped_str};
use crate::grammar::{
    bool_text, float_text, join, null_text, sequence_text, separator, variant_open, variant_text,
};
use crate::key::rejected;
use crate::map::MapSerializer;
use crate::number::{
    decimal, int_to_string, is_non_finite_f32, is_non_finite_f64, non_finite_f32, non_finite_f64,
    uint_to_string,
};
use crate::pairs::OrderedPairs;
use crate::value::{byte_texts, encoded, Value};

verus! {

/// The encoder. It owns the text written so far and only ever appends to it.
pub struct Serializer {
    buf: String,
}

impl View for Serializer {
    type V = Seq<char>;

    /// The text written so far.
    closed spec fn view(&self) -> Seq<char> {
        self.buf@
    }
}

impl Serializer {
    /// An encoder that has written nothing yet.
    pub fn new() -> (ser: Serializer)
        ensures
            ser@ == Seq::<char>::empty(),
    {
        Serializer { buf: String::new() }
    }

    /// Gives up the encoder for the text it has written.
    pub fn into_string(self) -> (text: String)
        ensures
            text@ == self@,
    {
        self.buf
    }

    /// Appends one character as it is.
    pub(crate) fn write_char(&mut self, c: char)
        ensures
            final(self)@ == old(self)@.push(c),
    {
        self.buf.push(c);
    }

    /// Appends text as it is.
    pub(crate) fn write_text(&mut self, text: &str)
        ensures
            final(self)@ == old(self)@ + text@,
    {
        self.buf.append(text);
    }

    /// Writes `!t` or `!f`.
    pub fn serialize_bool(&mut self, v: bool) -> (r: Result<(), Error>)
        ensures
            r is Ok,
            final(self)@ == old(self)@ + bool_text(v),
    {
        if v {
            self.buf.push('!');
            self.buf.push('t');
        } else {
            self.buf.push('!');
            self.buf.push('f');
        }
        Ok(())
    }

    /// Writes `v` in decimal.
    pub fn serialize_i8(&mut self, v: i8) -> (r: Result<(), Error>)
        ensures
            r is Ok,
            final(self)@ == old(self)@ + decimal(v as int),
    {
        int_to_string(&mut self.buf, v as i128);
        Ok(())
    }

    /// Writes `v` in decimal.
    pub fn serialize_i16(&mut self, v: i16) -> (r: Result<(), Error>)
        ensures
            r is Ok,
            final(self)@ == old(self)@ + decimal(v as int),
    {
        int_to_string(&mut self.buf, v as i128);
        Ok(())
    }

    /// Writes `v` in decimal.
    pub fn serialize_i32(&mut self, v: i32) -> (r: Result<(), Error>)
        ensures
            r is Ok,
            final(self)@ == old(self)@ + decimal(v as int),
    {
        int_to_string(&mut self.buf, v as i128);
        Ok(())
    }

    /// Writes `v` in decimal.
    pub fn serialize_i64(&mut self, v: i64) -> (r: Result<(), Error>)
        ensures
            r is Ok,
            final(self)@ == old(self)@ + decimal(v as int),
    {
        int_to_string(&mut self.buf, v as i128);
        Ok(())
    }

    /// Writes `v` in decimal.
    pub fn serialize_i128(&mut self, v: i128) -> (r: Result<(), Error>)
        ensures
            r is Ok,
            final(self)@ == old(self)@ + decimal(v as int),
    {
        int_to_string(&mut self.buf, v);
        Ok(())
    }

    /// Writes `v` in decimal.
    pub fn serialize_u8(&mut self, v: u8) -> (r: Result<(), Error>)
        ensures
            r is Ok,
            final(self)@ == old(self)@ + decimal(v as int),
    {
        uint_to_string(&mut self.buf, v as u128);
        Ok(())
    }

    /// Writes `v` in decimal.
    pub fn serialize_u16(&mut self, v: u16) -> (r: Result<(), Error>)
        ensures
            r is Ok,
            final(self)@ == old(self)@ + decimal(v as int),
    {
        uint_to_string(&mut self.buf, v as u128);
        Ok(())
    }

    /// Writes `v` in decimal.
    pub fn serialize_u32(&mut self, v: u32) -> (r: Result<(), Error>)
        ensures
            r is Ok,
            final(self)@ == old(self)@ + decimal(v as int),
    {
        uint_to_string(&mut self.buf, v as u128);
        Ok(())
    }

    /// Writes `v` in decimal.
    pub fn serialize_u64(&mut self, v: u64) -> (r: Result<(), Error>)
        ensures
            r is Ok,
            final(self)@ == old(self)@ + decimal(v as int),
    {
        uint_to_string(&mut self.buf, v as u128);
        Ok(())
    }

    /// Writes `v` in decimal.
    pub fn serialize_u128(&mut self, v: u128) -> (r: Result<(), Error>)
        ensures
            r is Ok,
            final(self)@ == old(self)@ + decimal(v as int),
    {
        uint_to_string(&mut self.buf, v);
        Ok(())
    }

    /// Writes the 32-bit float with the bit pattern `bits`: `!n` if it is NaN
    /// or infinite, else `shortest`, which the caller gives as the float's
    /// shortest decimal form that reads back to the same float.
    pub fn serialize_f32(&mut self, bits: u32, shortest: &str) -> (r: Result<(), Error>)
        ensures
            r is Ok,
            final(self)@ == old(self)@ + float_text(non_finite_f32(bits), shortest@),
    {
        if is_non_finite_f32(bits) {
            self.serialize_unit()
        } else {
            self.buf.append(shortest);
            Ok(())
        }
    }

    /// Writes the 64-bit float with the bit pattern `bits`: `!n` if it is NaN
    /// or infinite, else `shortest`, which the caller gives as the float's
    /// shortest decimal form that reads back to the same float.
    pub fn serialize_f64(&mut self, bits: u64, shortest: &str) -> (r: Result<(), Error>)
        ensures
            r is Ok,
            final(self)@ == old(self)@ + float_text(non_finite_f64(bits), shortest@),
    {
        if is_non_finite_f64(bits) {
            self.serialize_unit()
        } else {
            self.buf.append(shortest);
            Ok(())
        }
    }

    /// Writes the character as a text of length one.
    pub fn serialize_char(&mut self, v: char) -> (r: Result<(), Error>)
        ensures
            r is Ok,
            final(self)@ == old(self)@ + escaped(seq![v]),
    {
        let mut text = String::new();
        text.push(v);
        assert(text@ == seq![v]);
        self.serialize_str(text.as_str())
    }

    /// Writes the text, bare where it can stand bare and quoted where not.
    pub fn serialize_str(&mut self, v: &str) -> (r: Result<(), Error>)
        ensures
            r is Ok,
            final(self)@ == old(self)@ + escaped(v@),
    {
        escaped_str(&mut self.buf, v);
        Ok(())
    }

    /// Writes the bytes as a sequence of decimal numbers.
    pub fn serialize_bytes(&mut self, v: &[u8]) -> (r: Result<(), Error>)
        ensures
            r is Ok,
            final(self)@ == old(self)@ + sequence_text(byte_texts(v@)),
    {
        let ghost target = *final(self);
        let mut seq = self.serialize_seq(Some(v.len())).unwrap();
        let mut i: usize = 0;
        while i < v.len()
            invariant
                i <= v@.len(),
                seq.first == (i == 0),
                !seq.in_variant,
                *final(seq.ser) == target,
                seq.ser@ == old(self)@ + seq!['!', '('] + join(
                    byte_texts(v@).take(i as int),
                    seq![','],
                ),
            decreases v@.len() - i,
        {
            seq.write_sep();
            let _ = seq.ser.serialize_u8(v[i]);
            proof {
                let parts = byte_texts(v@);
                assert(parts.take(i + 1).drop_last() == parts.take(i as int));
                assert(parts.take(i + 1).last() == decimal(v@[i as int] as int));
                if i == 0 {
                    assert(parts.take(0) =~= Seq::<Seq<char>>::empty());
                }
            }
            i = i + 1;
        }
        assert(byte_texts(v@).take(v@.len() as int) == byte_texts(v@));
        seq.end()
    }

    /// Writes `!n` for an optional value that is absent.
    pub fn serialize_none(&mut self) -> (r: Result<(), Error>)
        ensures
            r is Ok,
            final(self)@ == old(self)@ + null_text(),
    {
        self.serialize_unit()
    }

    /// Writes an optional value that is present as the value itself.
    pub fn serialize_some(&mut self, value: &Value) -> (r: Result<(), Error>)
        ensures
            match encoded(*value) {
                Some(text) => r is Ok && final(self)@ == old(self)@ + text,
                None => rejected(r) && old(self)@.is_prefix_of(final(self)@),
            },
        decreases value, 1int,
    {
        value.serialize(self)
    }

    /// Writes `!n`.
    pub fn serialize_unit(&mut self) -> (r: Result<(), Error>)
        ensures
            r is Ok,
            final(self)@ == old(self)@ + null_text(),
    {
        self.buf.push('!');
        self.buf.push('n');
        Ok(())
    }

    /// Writes `!n`; the name of the type is not written.
    pub fn serialize_unit_struct(&mut self, _name: &str) -> (r: Result<(), Error>)
        ensures
            r is Ok,
            final(self)@ == old(self)@ + null_text(),
    {
        self.serialize_unit()
    }

    /// Writes the name of the variant as text.
    pub fn serialize_unit_variant(
        &mut self,
        _name: &str,
        _variant_index: u32,
        variant: &str,
    ) -> (r: Result<(), Error>)
        ensures
            r is Ok,
            final(self)@ == old(self)@ + escaped(variant@),
    {
        self.serialize_str(variant)
    }

    /// Writes a newtype struct as the value that it wraps.
    pub fn serialize_newtype_struct(&mut self, _name: &str, value: &Value) -> (r: Result<
        (),
        Error,
    >)
        ensures
            match encoded(*value) {
                Some(text) => r is Ok && final(self)@ == old(self)@ + text,
                None => rejected(r) && old(self)@.is_prefix_of(final(self)@),
            },
        decreases value, 1int,
    {
        value.serialize(self)
    }

    /// Writes a newtype variant: `(`, the variant's name, `:`, the wrapped
    /// value, `)`.
    pub fn serialize_newtype_variant(
        &mut self,
        _name: &str,
        _variant_index: u32,
        variant: &str,
        value: &Value,
    ) -> (r: Result<(), Error>)
        ensures
            match encoded(*value) {
                Some(payload) => r is Ok && final(self)@ == old(self)@ + variant_text(
                    variant@,
                    payload,
                ),
                None => rejected(r) && old(self)@.is_prefix_of(final(self)@),
            },
        decreases value, 1int,
    {
        self.buf.push('(');
        let _ = self.serialize_str(variant);
        self.buf.push(':');
        match value.serialize(self) {
            Ok(()) => {
                self.buf.push(')');
                Ok(())
            },
            Err(e) => Err(e),
        }
    }

    /// Opens a sequence: writes `!(` and hands out the writer for its elements.
    pub fn serialize_seq<'a>(&'a mut self, _len: Option<usize>) -> (r: Result<
        SeqSerializer<'a>,
        Error,
    >)
        ensures
            r matches Ok(w) && w.first && !w.in_variant && w.ser@ == old(self)@ + seq!['!', '(']
                && *final(w.ser) == *final(self),
    {
        self.buf.push('!');
        self.buf.push('(');
        Ok(SeqSerializer::new(self))
    }

    /// Opens a tuple, which is written as a sequence.
    pub fn serialize_tuple<'a>(&'a mut self, len: usize) -> (r: Result<SeqSerializer<'a>, Error>)
        ensures
            r matches Ok(w) && w.first && !w.in_variant && w.ser@ == old(self)@ + seq!['!', '(']
                && *final(w.ser) == *final(self),
    {
        self.serialize_seq(Some(len))
    }

    /// Opens a tuple struct, which is written as a sequence.
    pub fn serialize_tuple_struct<'a>(&'a mut self, _name: &str, len: usize) -> (r: Result<
        SeqSerializer<'a>,
        Error,
    >)
        ensures
            r matches Ok(w) && w.first && !w.in_variant && w.ser@ == old(self)@ + seq!['!', '(']
                && *final(w.ser) == *final(self),
    {
        self.serialize_seq(Some(len))
    }

    /// Opens a tuple variant: writes `(`, the variant's name, `:` and `!(`,
    /// and hands out a writer that closes both.
    pub fn serialize_tuple_variant<'a>(
        &'a mut self,
        _name: &str,
        _variant_index: u32,
        variant: &str,
        len: usize,
    ) -> (r: Result<SeqSerializer<'a>, Error>)
        ensures
            r matches Ok(w) && w.first && w.in_variant && w.ser@ == old(self)@ + variant_open(
                variant@,
            ) + seq!['!', '('] && *final(w.ser) == *final(self),
    {
        self.buf.push('(');
        let _ = self.serialize_str(variant);
        self.buf.push(':');
        self.buf.push('!');
        self.buf.push('(');
        Ok(SeqSerializer { ser: self, first: true, in_variant: true })
    }

    /// Opens a map: hands out the writer for its entries.
    pub fn serialize_map<'a>(&'a mut self, _len: Option<usize>) -> (r: Result<
        MapSerializer<'a>,
        Error,
    >)
        ensures
            r matches Ok(w) && w.map.wf() && w.map@ == Map::<Seq<char>, Seq<char>>::empty()
                && w.key is None && !w.in_variant && w.ser@ == old(self)@ && *final(w.ser)
                == *final(self),
    {
        Ok(MapSerializer::new(self))
    }

    /// Opens a struct, which is written as a map of its fields.
    pub fn serialize_struct<'a>(&'a mut self, _name: &str, len: usize) -> (r: Result<
        MapSerializer<'a>,
        Error,
    >)
        ensures
            r matches Ok(w) && w.map.wf() && w.map@ == Map::<Seq<char>, Seq<char>>::empty()
                && w.key is None && !w.in_variant && w.ser@ == old(self)@ && *final(w.ser)
                == *final(self),
    {
        self.serialize_map(Some(len))
    }

    /// Opens a struct variant: writes `(`, the variant's name and `:`, and
    /// hands out a writer for the fields that closes the variant too.
    pub fn serialize_struct_variant<'a>(
        &'a mut self,
        _name: &str,
        _variant_index: u32,
        variant: &str,
        _len: usize,
    ) -> (r: Result<MapSerializer<'a>, Error>)
        ensures
            r matches Ok(w) && w.map.wf() && w.map@ == Map::<Seq<char>, Seq<char>>::empty()
                && w.key is None && w.in_variant && w.ser@ == old(self)@ + variant_open(
                variant@,
            ) && *final(w.ser) == *final(self),
    {
        self.buf.push('(');
        let _ = self.serialize_str(variant);
        self.buf.push(':');
        Ok(MapSerializer { ser: self, map: OrderedPairs::new(), key: None, in_variant: true })
    }
}

/// The writer for the elements of a sequence that has been opened.
pub struct SeqSerializer<'a> {
    /// The encoder that the sequence is written to.
    pub ser: &'a mut Serializer,
    /// Whether no element has been written yet.
    pub first: bool,
    /// Whether the sequence is the payload of a variant, which it then closes
    /// too.
    pub in_variant: bool,
}

impl<'a> SeqSerializer<'a> {
    /// The writer for a sequence that `ser` has just opened.
    pub fn new(ser: &'a mut Serializer) -> (w: SeqSerializer<'a>)
        ensures
            w.first,
            !w.in_variant,
            w.ser@ == old(ser)@,
            *final(w.ser) == *final(ser),
    {
        SeqSerializer { ser, first: true, in_variant: false }
    }

    /// Writes what stands before the next element: nothing before the first,
    /// a comma before every other.
    pub fn write_sep(&mut self)
        ensures
            !final(self).first,
            final(self).in_variant == old(self).in_variant,
            final(self).ser@ == old(self).ser@ + separator(old(self).first),
            *final(final(self).ser) == *final(old(self).ser),
    {
        if self.first {
            self.first = false;
        } else {
            self.ser.buf.push(',');
        }
    }

    /// Writes the next element, after a comma unless it is the first.
    pub fn serialize_element(&mut self, value: &Value) -> (r: Result<(), Error>)
        ensures
            !final(self).first,
            final(self).in_variant == old(self).in_variant,
            *final(final(self).ser) == *final(old(self).ser),
            match encoded(*value) {
                Some(text) => r is Ok && final(self).ser@ == old(self).ser@ + separator(
                    old(self).first,
                ) + text,
                None => rejected(r) && old(self).ser@.is_prefix_of(final(self).ser@),
            },
        decreases value, 1int,
    {
        self.write_sep();
        value.serialize(self.ser)
    }

    /// Writes the next field of a tuple struct or a tuple variant, as
    /// `serialize_element` writes an element.
    pub fn serialize_field(&mut self, value: &Value) -> (r: Result<(), Error>)
        ensures
            !final(self).first,
            final(self).in_variant == old(self).in_variant,
            *final(final(self).ser) == *final(old(self).ser),
            match encoded(*value) {
                Some(text) => r is Ok && final(self).ser@ == old(self).ser@ + separator(
                    old(self).first,
                ) + text,
                None => rejected(r) && old(self).ser@.is_prefix_of(final(self).ser@),
            },
        decreases value, 2int,
    {
        self.serialize_element(value)
    }

    /// What closes the sequence: `)`, and one more where it is the payload of
    /// a variant.
    pub open spec fn closing(&self) -> Seq<char> {
        if self.in_variant {
            seq![')', ')']
        } else {
            seq![')']
        }
    }

    /// Closes the sequence.
    pub fn end(self) -> (r: Result<(), Error>)
        ensures
            r is Ok,
            final(self.ser)@ == old(self.ser)@ + self.closing(),
    {
        self.ser.buf.push(')');
        if self.in_variant {
            self.ser.buf.push(')');
        }
        Ok(())
    }
}

/// Encodes `value`: the whole text on success, and the key error where
/// `value` holds a map with a key that cannot stand as a key.
pub fn to_string(value: &Value) -> (r: Result<String, Error>)
    ensures
        match encoded(*value) {
            Some(text) => r matches Ok(s) && s@ == text,
            None => r matches Err(e) && e is KeyMustBeAString,
        },
    decreases value, 1int,
{
    let mut ser = Serializer::new();
    match value.serialize(&mut ser) {
        Ok(()) => {
            assert(ser@ =~= encoded(*value)->0);
            Ok(ser.buf)
        },
        Err(e) => Err(e),
    }
}

} // verus!
