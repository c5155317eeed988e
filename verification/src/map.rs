//! The writer for maps and structs, which collects the pairs and writes them
//! by ascending key when the object is closed.

use vstd::prelude::*;
use crate::error::Error;
use crate::grammar::{join, object_text, pair_text, pair_texts};
use crate::pairs::{ascending_pairs, OrderedPairs};
use crate::escape::{escaped, escaped_str};
use crate::key::{rejected, MapKeySerializer};
use crate::ser::{to_string, Serializer};
use crate::value::{encoded, key_text, Value};

verus! {

/// The writer for the pairs of a map or a struct that has been opened.
/// Nothing is written before the object is closed.
pub struct MapSerializer<'a> {
    /// The encoder that the object is written to.
    pub ser: &'a mut Serializer,
    /// The pairs collected so far: key text to encoded value.
    pub map: OrderedPairs,
    /// The text of a key whose value has not come yet.
    pub key: Option<String>,
    /// Whether the object is the payload of a variant, which it then closes
    /// too.
    pub in_variant: bool,
}

impl<'a> MapSerializer<'a> {
    /// The writer for an object on `ser`, with no pair and no key yet.
    pub fn new(ser: &'a mut Serializer) -> (w: MapSerializer<'a>)
        ensures
            w.map.wf(),
            w.map@ == Map::<Seq<char>, Seq<char>>::empty(),
            w.key is None,
            !w.in_variant,
            w.ser@ == old(ser)@,
            *final(w.ser) == *final(ser),
    {
        MapSerializer { ser, map: OrderedPairs::new(), key: None, in_variant: false }
    }

    /// Writes the object: `(`, the collected pairs by ascending key with
    /// commas between them, and `end`.
    pub fn write_object(self, end: &str)
        requires
            self.map.wf(),
        ensures
            final(self.ser)@ == old(self.ser)@ + seq!['('] + join(
                pair_texts(ascending_pairs(self.map@)),
                seq![','],
            ) + end@,
    {
        let ghost start = self.ser@;
        let ghost target = *final(self.ser);
        let ghost texts = pair_texts(ascending_pairs(self.map@));
        self.ser.write_char('(');
        let n = self.map.len();
        let mut i: usize = 0;
        while i < n
            invariant
                i <= n,
                n == ascending_pairs(self.map@).len(),
                self.map.wf(),
                texts == pair_texts(ascending_pairs(self.map@)),
                *final(self.ser) == target,
                self.ser@ == start + seq!['('] + join(texts.take(i as int), seq![',']),
            decreases n - i,
        {
            if i != 0 {
                self.ser.write_char(',');
            }
            self.ser.write_text(self.map.key(i));
            self.ser.write_char(':');
            self.ser.write_text(self.map.value(i));
            proof {
                assert(texts.take(i + 1).drop_last() == texts.take(i as int));
                assert(texts.take(i + 1).last() == pair_text(ascending_pairs(self.map@)[i as int]));
                if i == 0 {
                    assert(texts.take(0) =~= Seq::<Seq<char>>::empty());
                }
            }
            i = i + 1;
        }
        assert(texts.take(n as int) == texts);
        self.ser.write_text(end);
    }

    /// Takes the key of the next entry. The key is held until its value
    /// comes; a key that cannot stand as a key is refused.
    pub fn serialize_key(&mut self, key: &Value) -> (r: Result<(), Error>)
        ensures
            final(self).ser == old(self).ser,
            final(self).map == old(self).map,
            final(self).in_variant == old(self).in_variant,
            match key_text(*key) {
                Some(text) => r is Ok && final(self).key is Some && final(self).key->0@ == text,
                None => rejected(r) && final(self).key == old(self).key,
            },
    {
        let mut ser = MapKeySerializer::new();
        match key.serialize_key(&mut ser) {
            Ok(()) => {
                self.key = Some(ser.into_string());
                Ok(())
            },
            Err(e) => Err(e),
        }
    }

    /// Takes the value of the entry whose key is held, and collects the
    /// pair. The value is encoded on its own, so that one that fails leaves
    /// nothing behind.
    pub fn serialize_value(&mut self, value: &Value) -> (r: Result<(), Error>)
        requires
            old(self).key is Some,
            old(self).map.wf(),
        ensures
            final(self).ser == old(self).ser,
            final(self).in_variant == old(self).in_variant,
            final(self).key is None,
            final(self).map.wf(),
            match encoded(*value) {
                Some(text) => r is Ok && final(self).map@ == old(self).map@.insert(
                    old(self).key->0@,
                    text,
                ),
                None => rejected(r) && final(self).map@ == old(self).map@,
            },
        decreases value, 2int,
    {
        let key = self.key.take().unwrap();
        match to_string(value) {
            Ok(text) => {
                self.map.insert(key, text);
                Ok(())
            },
            Err(e) => Err(e),
        }
    }

    /// Takes a field of a struct: its name, written as any text is, and
    /// its value, and collects the pair.
    pub fn serialize_field(&mut self, key: &str, value: &Value) -> (r: Result<(), Error>)
        requires
            old(self).map.wf(),
        ensures
            final(self).ser == old(self).ser,
            final(self).in_variant == old(self).in_variant,
            final(self).key == old(self).key,
            final(self).map.wf(),
            match encoded(*value) {
                Some(text) => r is Ok && final(self).map@ == old(self).map@.insert(
                    escaped(key@),
                    text,
                ),
                None => rejected(r) && final(self).map@ == old(self).map@,
            },
        decreases value, 2int,
    {
        let mut buf = String::new();
        escaped_str(&mut buf, key);
        assert(buf@ =~= escaped(key@));
        match to_string(value) {
            Ok(text) => {
                self.map.insert(buf, text);
                Ok(())
            },
            Err(e) => Err(e),
        }
    }

    /// What follows the object itself: nothing, or the `)` that closes the
    /// variant whose payload it is.
    pub open spec fn closing(&self) -> Seq<char> {
        if self.in_variant {
            seq![')']
        } else {
            Seq::empty()
        }
    }

    /// Closes the object, which writes it.
    pub fn end(self) -> (r: Result<(), Error>)
        requires
            self.map.wf(),
        ensures
            r is Ok,
            final(self.ser)@ == old(self.ser)@ + object_text(self.map@) + self.closing(),
    {
        if self.in_variant {
            proof {
                reveal_strlit("))");
            }
            self.write_object("))");
        } else {
            proof {
                reveal_strlit(")");
            }
            self.write_object(")");
        }
        Ok(())
    }
}

} // verus!
