//! What holds of every encoding.

use vstd::prelude::*;
use vstd::utf8::*;
use crate::escape::{escape_char, escape_chars, escaped, is_bare, quoted};
use crate::grammar::{bool_text, join, null_text, object_text, sequence_text, variant_open};
use crate::number::{non_finite_f32, non_finite_f64};
use crate::pairs::{
    distinct_keys, lemma_pairs_map_holds, lemma_pairs_map_keys, pairs_map, TextPair,
};
use crate::value::{
    byte_texts, encoded, encoded_entries, encoded_fields, encoded_items, key_text,
    lemma_entries_pointwise, lemma_fields_pointwise, lemma_items_pointwise, Value,
};

verus! {

/// A boolean is encoded as `!t` if it is true and as `!f` if it is false.
pub proof fn law_bool(b: bool)
    ensures
        encoded(Value::Bool(b)) == Some(
            if b {
                seq!['!', 't']
            } else {
                seq!['!', 'f']
            },
        ),
{
}

/// A float that is NaN or infinite is encoded as `!n`, as the absent
/// optional value and the unit value are, whatever decimal form comes with
/// it. The bit patterns of the infinities and of the usual NaN are of this
/// kind.
pub proof fn law_non_finite(bits32: u32, bits64: u64, shortest: String)
    ensures
        non_finite_f32(bits32) ==> encoded(Value::F32 { bits32, shortest }) == Some(
            seq!['!', 'n'],
        ),
        non_finite_f64(bits64) ==> encoded(Value::F64 { bits64, shortest }) == Some(
            seq!['!', 'n'],
        ),
        encoded(Value::OptionNone) == Some(seq!['!', 'n']),
        encoded(Value::Unit) == Some(seq!['!', 'n']),
        non_finite_f64(0x7ff0_0000_0000_0000),
        non_finite_f64(0xfff0_0000_0000_0000),
        non_finite_f64(0x7ff8_0000_0000_0000),
        non_finite_f32(0x7f80_0000),
        non_finite_f32(0xff80_0000),
        non_finite_f32(0x7fc0_0000),
{
    assert((0x7ff0_0000_0000_0000u64 >> 52) & 0x7ff == 0x7ff) by (bit_vector);
    assert((0xfff0_0000_0000_0000u64 >> 52) & 0x7ff == 0x7ff) by (bit_vector);
    assert((0x7ff8_0000_0000_0000u64 >> 52) & 0x7ff == 0x7ff) by (bit_vector);
    assert((0x7f80_0000u32 >> 23) & 0xff == 0xff) by (bit_vector);
    assert((0xff80_0000u32 >> 23) & 0xff == 0xff) by (bit_vector);
    assert((0x7fc0_0000u32 >> 23) & 0xff == 0xff) by (bit_vector);
}

/// Escaping never makes a text shorter.
pub proof fn lemma_escape_chars_len(t: Seq<char>)
    ensures
        escape_chars(t).len() >= t.len(),
    decreases t.len(),
{
    if t.len() > 0 {
        lemma_escape_chars_len(t.drop_last());
    }
}

/// Escaping goes character by character: the escaped form of two texts put
/// together is their escaped forms put together.
pub proof fn lemma_escape_chars_concat(a: Seq<char>, b: Seq<char>)
    ensures
        escape_chars(a + b) == escape_chars(a) + escape_chars(b),
    decreases b.len(),
{
    if b.len() == 0 {
        assert(a + b =~= a);
        assert(escape_chars(a) + escape_chars(b) =~= escape_chars(a));
    } else {
        assert((a + b).drop_last() =~= a + b.drop_last());
        assert((a + b).last() == b.last());
        lemma_escape_chars_concat(a, b.drop_last());
        assert(escape_chars(a + b) =~= escape_chars(a) + escape_chars(b));
    }
}

/// A text is encoded as itself exactly when its bytes allow it to stand
/// bare: it is not empty, its first byte is none of the bytes forbidden at
/// the start, and no later byte is forbidden. Every other text is encoded
/// between single quotes, with `!` before each `!` and `'`; the empty text is
/// `''`.
pub proof fn law_text(s: String)
    ensures
        encoded(Value::Str(s)) == Some(escaped(s@)),
        escaped(s@) == s@ <==> is_bare(encode_utf8(s@)),
        !is_bare(encode_utf8(s@)) ==> escaped(s@) == seq!['\''] + escape_chars(s@) + seq!['\''],
        s@.len() == 0 ==> escaped(s@) == seq!['\'', '\''],
        forall|a: Seq<char>, b: Seq<char>| #[trigger]
            escape_chars(a + b) == escape_chars(a) + escape_chars(b),
        forall|c: char| #[trigger]
            escape_chars(seq![c]) == (if c == '!' || c == '\'' {
                seq!['!', c]
            } else {
                seq![c]
            }),
{
    let t = s@;
    lemma_escape_chars_len(t);
    assert(quoted(t).len() == escape_chars(t).len() + 2);
    if t.len() == 0 {
        assert(encode_utf8(t).len() == 0);
        assert(quoted(t) =~= seq!['\'', '\'']);
    }
    assert forall|a: Seq<char>, b: Seq<char>| #[trigger]
        escape_chars(a + b) == escape_chars(a) + escape_chars(b) by {
        lemma_escape_chars_concat(a, b);
    }
    assert forall|c: char| #[trigger]
        escape_chars(seq![c]) == escape_char(c) by {
        assert(seq![c].drop_last() =~= Seq::<char>::empty());
        assert(escape_chars(Seq::<char>::empty()) + escape_char(c) =~= escape_char(c));
    }
}

/// The lengths of `parts` added up.
pub open spec fn total_len(parts: Seq<Seq<char>>) -> nat
    decreases parts.len(),
{
    if parts.len() == 0 {
        0
    } else {
        total_len(parts.drop_last()) + parts.last().len()
    }
}

/// Joining puts one separator between neighbours and none elsewhere: the
/// joined text has the length of the parts and of one separator fewer than
/// there are parts.
pub proof fn lemma_join_len(parts: Seq<Seq<char>>, sep: Seq<char>)
    ensures
        parts.len() == 0 ==> join(parts, sep).len() == 0,
        parts.len() > 0 ==> join(parts, sep).len() == total_len(parts) + (parts.len() - 1)
            * sep.len(),
    decreases parts.len(),
{
    if parts.len() == 1 {
        assert(parts.drop_last().len() == 0);
        assert(total_len(parts) == parts[0].len()) by {
            reveal_with_fuel(total_len, 2);
        }
    } else if parts.len() > 1 {
        lemma_join_len(parts.drop_last(), sep);
        assert((parts.len() - 2) * sep.len() + sep.len() == (parts.len() - 1) * sep.len())
            by (nonlinear_arith);
    }
}

/// A sequence of `n` items is encoded as `!(`, the encodings of the items
/// with a comma between neighbours, and `)`: with `n - 1` commas between
/// the items, and none for an empty sequence. It has no encoding exactly when
/// one of its items has none.
pub proof fn law_sequence(items: Vec<Value>)
    ensures
        encoded(Value::Sequence(items)) is Some <==> forall|i: int|
            0 <= i < items@.len() ==> encoded(#[trigger] items@[i]) is Some,
        encoded_items(items@) matches Some(elements) ==> {
            &&& elements.len() == items@.len()
            &&& forall|i: int|
                0 <= i < items@.len() ==> encoded(#[trigger] items@[i]) == Some(elements[i])
            &&& encoded(Value::Sequence(items)) == Some(
                seq!['!', '('] + join(elements, seq![',']) + seq![')'],
            )
            &&& join(elements, seq![',']).len() == total_len(elements) + (if items@.len() == 0 {
                0int
            } else {
                items@.len() - 1
            })
        },
{
    lemma_items_pointwise(items@);
    if encoded_items(items@) is Some {
        let elements = encoded_items(items@)->0;
        lemma_join_len(elements, seq![',']);
        if elements.len() > 0 {
            assert((elements.len() - 1) * 1 == elements.len() - 1) by (nonlinear_arith);
        }
    }
}

/// Bytes are encoded as the sequence of the same numbers is.
pub proof fn law_bytes_as_sequence(bytes: Vec<u8>, items: Vec<Value>)
    requires
        items@.len() == bytes@.len(),
        forall|i: int| 0 <= i < bytes@.len() ==> #[trigger] items@[i] == Value::U8(bytes@[i]),
    ensures
        encoded(Value::Bytes(bytes)) == encoded(Value::Sequence(items)),
{
    lemma_items_pointwise(items@);
    let elements = encoded_items(items@)->0;
    assert forall|i: int| 0 <= i < elements.len() implies elements[i] == byte_texts(bytes@)[i] by {
        assert(items@[i] == Value::U8(bytes@[i]));
        assert(encoded(items@[i]) == Some(elements[i]));
    }
    assert(elements =~= byte_texts(bytes@));
}

/// Whether `v` has a shape that can stand as a map key: an integer, a
/// character, a string, the name of a unit variant, or a newtype struct
/// around one of these.
pub open spec fn is_scalar_key(v: Value) -> bool
    decreases v,
{
    match v {
        Value::I8(_) | Value::I16(_) | Value::I32(_) | Value::I64(_) | Value::I128(_) => true,
        Value::U8(_) | Value::U16(_) | Value::U32(_) | Value::U64(_) | Value::U128(_) => true,
        Value::Char(_) | Value::Str(_) | Value::UnitVariant { .. } => true,
        Value::NewtypeStruct { value, .. } => is_scalar_key(*value),
        _ => false,
    }
}

/// A value has a key text exactly when its shape can stand as a key.
pub proof fn law_key_shapes(v: Value)
    ensures
        key_text(v) is Some <==> is_scalar_key(v),
    decreases v,
{
    match v {
        Value::NewtypeStruct { value, .. } => {
            law_key_shapes(*value);
        },
        _ => {},
    }
}

/// A map has an encoding exactly when each of its keys can stand as a key
/// and each of its values has an encoding. So a key that is a boolean, a
/// float, bytes, an optional value, a unit, a sequence, a tuple, a map, a
/// struct or a variant with a payload leaves the map without an encoding,
/// which is when encoding it fails with the key error.
pub proof fn law_map_keys(entries: Vec<(Value, Value)>)
    ensures
        encoded(Value::Mapping(entries)) is Some <==> forall|i: int|
            0 <= i < entries@.len() ==> is_scalar_key((#[trigger] entries@[i]).0) && encoded(
                entries@[i].1,
            ) is Some,
{
    lemma_entries_pointwise(entries@);
    assert forall|i: int| 0 <= i < entries@.len() implies (key_text((#[trigger] entries@[i]).0)
        is Some <==> is_scalar_key(entries@[i].0)) by {
        law_key_shapes(entries@[i].0);
    }
}

/// Whether each entry of the one list is an entry of the other.
pub open spec fn same_entries<T>(a: Seq<T>, b: Seq<T>) -> bool {
    &&& forall|i: int| 0 <= i < a.len() ==> b.contains(#[trigger] a[i])
    &&& forall|j: int| 0 <= j < b.len() ==> a.contains(#[trigger] b[j])
}

/// Two lists of pairs with the same pairs, in which no key comes twice, make
/// the same map.
pub proof fn lemma_pairs_map_order(a: Seq<TextPair>, b: Seq<TextPair>)
    requires
        same_entries(a, b),
        distinct_keys(a),
        distinct_keys(b),
    ensures
        pairs_map(a) == pairs_map(b),
{
    let ma = pairs_map(a);
    let mb = pairs_map(b);
    assert forall|k: Seq<char>| #[trigger] ma.dom().contains(k) implies mb.dom().contains(k)
        && ma[k] == mb[k] by {
        lemma_pairs_map_keys(a, k);
        let i = choose|i: int| 0 <= i < a.len() && (#[trigger] a[i]).0 == k;
        lemma_pairs_map_holds(a, i);
        assert(b.contains(a[i]));
        let j = choose|j: int| 0 <= j < b.len() && b[j] == a[i];
        lemma_pairs_map_holds(b, j);
    }
    assert forall|k: Seq<char>| #[trigger] mb.dom().contains(k) implies ma.dom().contains(k) by {
        lemma_pairs_map_keys(b, k);
        let j = choose|j: int| 0 <= j < b.len() && (#[trigger] b[j]).0 == k;
        assert(a.contains(b[j]));
        let i = choose|i: int| 0 <= i < a.len() && a[i] == b[j];
        lemma_pairs_map_holds(a, i);
    }
    assert(ma =~= mb);
}

/// Whether no two entries of a map have the same key text.
pub open spec fn distinct_entry_keys(entries: Seq<(Value, Value)>) -> bool {
    forall|i: int, j: int|
        0 <= i < j < entries.len() ==> key_text((#[trigger] entries[i]).0) != key_text(
            (#[trigger] entries[j]).0,
        )
}

/// What holds of every entry of a list holds of every entry of a list of
/// the same entries.
pub proof fn lemma_same_entries_alike<T>(a: Seq<T>, b: Seq<T>, good: spec_fn(T) -> bool)
    requires
        same_entries(a, b),
        forall|i: int| 0 <= i < a.len() ==> good(#[trigger] a[i]),
    ensures
        forall|j: int| 0 <= j < b.len() ==> good(#[trigger] b[j]),
{
    assert forall|j: int| 0 <= j < b.len() implies good(#[trigger] b[j]) by {
        assert(a.contains(b[j]));
        let i = choose|i: int| 0 <= i < a.len() && a[i] == b[j];
        assert(good(a[i]));
    }
}

/// Two lists of the same entries, each entry of which gives one pair, give
/// the same map of pairs if in neither list two entries give the same key.
pub proof fn lemma_same_entries_same_map<T>(
    a: Seq<T>,
    b: Seq<T>,
    pairs_a: Seq<TextPair>,
    pairs_b: Seq<TextPair>,
    pair_of: spec_fn(T) -> TextPair,
)
    requires
        same_entries(a, b),
        pairs_a.len() == a.len(),
        pairs_b.len() == b.len(),
        forall|i: int| 0 <= i < a.len() ==> #[trigger] pairs_a[i] == pair_of(a[i]),
        forall|j: int| 0 <= j < b.len() ==> #[trigger] pairs_b[j] == pair_of(b[j]),
        forall|i: int, j: int|
            0 <= i < j < a.len() ==> pair_of(#[trigger] a[i]).0 != pair_of(#[trigger] a[j]).0,
        forall|i: int, j: int|
            0 <= i < j < b.len() ==> pair_of(#[trigger] b[i]).0 != pair_of(#[trigger] b[j]).0,
    ensures
        pairs_map(pairs_a) == pairs_map(pairs_b),
{
    assert forall|i: int, j: int| 0 <= i < j < pairs_a.len() implies (#[trigger] pairs_a[i]).0
        != (#[trigger] pairs_a[j]).0 by {
        assert(pair_of(a[i]).0 != pair_of(a[j]).0);
    }
    assert forall|i: int, j: int| 0 <= i < j < pairs_b.len() implies (#[trigger] pairs_b[i]).0
        != (#[trigger] pairs_b[j]).0 by {
        assert(pair_of(b[i]).0 != pair_of(b[j]).0);
    }
    assert forall|i: int| 0 <= i < pairs_a.len() implies pairs_b.contains(
        #[trigger] pairs_a[i],
    ) by {
        assert(b.contains(a[i]));
        let j = choose|j: int| 0 <= j < b.len() && b[j] == a[i];
        assert(pairs_b[j] == pairs_a[i]);
    }
    assert forall|j: int| 0 <= j < pairs_b.len() implies pairs_a.contains(
        #[trigger] pairs_b[j],
    ) by {
        assert(a.contains(b[j]));
        let i = choose|i: int| 0 <= i < a.len() && a[i] == b[j];
        assert(pairs_a[i] == pairs_b[j]);
    }
    lemma_pairs_map_order(pairs_a, pairs_b);
}

/// The encoding of a map does not depend on the order of its entries: two
/// lists of the same entries, in neither of which a key comes twice, are
/// encoded alike.
pub proof fn law_map_order(first: Vec<(Value, Value)>, second: Vec<(Value, Value)>)
    requires
        same_entries(first@, second@),
        distinct_entry_keys(first@),
        distinct_entry_keys(second@),
    ensures
        encoded(Value::Mapping(first)) == encoded(Value::Mapping(second)),
{
    let a = first@;
    let b = second@;
    let good = |e: (Value, Value)| key_text(e.0) is Some && encoded(e.1) is Some;
    let pair_of = |e: (Value, Value)| (key_text(e.0)->0, encoded(e.1)->0);
    lemma_entries_pointwise(a);
    lemma_entries_pointwise(b);
    if encoded_entries(a) is Some {
        lemma_same_entries_alike(a, b, good);
    }
    if encoded_entries(b) is Some {
        lemma_same_entries_alike(b, a, good);
    }
    if encoded_entries(a) is Some {
        lemma_same_entries_same_map(
            a,
            b,
            encoded_entries(a)->0,
            encoded_entries(b)->0,
            pair_of,
        );
    }
}

/// Whether no two fields of a struct have the same written name.
pub open spec fn distinct_field_names(fields: Seq<(String, Value)>) -> bool {
    forall|i: int, j: int|
        0 <= i < j < fields.len() ==> escaped((#[trigger] fields[i]).0@) != escaped(
            (#[trigger] fields[j]).0@,
        )
}

/// The encoding of a struct does not depend on the order of its fields, nor
/// on its name: two lists of the same fields, in neither of which a name
/// comes twice, are encoded alike.
pub proof fn law_struct_order(
    first_name: String,
    first: Vec<(String, Value)>,
    second_name: String,
    second: Vec<(String, Value)>,
)
    requires
        same_entries(first@, second@),
        distinct_field_names(first@),
        distinct_field_names(second@),
    ensures
        encoded(Value::Struct { name: first_name, fields: first }) == encoded(
            Value::Struct { name: second_name, fields: second },
        ),
{
    let a = first@;
    let b = second@;
    let good = |f: (String, Value)| encoded(f.1) is Some;
    let pair_of = |f: (String, Value)| (escaped(f.0@), encoded(f.1)->0);
    lemma_fields_pointwise(a);
    lemma_fields_pointwise(b);
    if encoded_fields(a) is Some {
        lemma_same_entries_alike(a, b, good);
    }
    if encoded_fields(b) is Some {
        lemma_same_entries_alike(b, a, good);
    }
    if encoded_fields(a) is Some {
        lemma_same_entries_same_map(
            a,
            b,
            encoded_fields(a)->0,
            encoded_fields(b)->0,
            pair_of,
        );
    }
}

/// A tuple variant is encoded as `(`, the variant's name, `:`, the encoding
/// of the tuple of its elements, and `)`. The tuple's own encoding ends with
/// `)`, so the variant's ends with one `)` more. The variant has an
/// encoding exactly when the tuple has.
pub proof fn law_tuple_variant_closing(
    name: String,
    variant_index: u32,
    variant: String,
    elements: Vec<Value>,
)
    ensures
        match encoded(Value::Tuple(elements)) {
            Some(bare) => bare.len() > 0 && bare.last() == ')' && encoded(
                Value::TupleVariant { name, variant_index, variant, elements },
            ) == Some(variant_open(variant@) + bare + seq![')']),
            None => encoded(Value::TupleVariant { name, variant_index, variant, elements })
                is None,
        },
{
}

/// A struct variant is encoded as `(`, the variant's name, `:`, the
/// encoding of the struct of its fields, and `)`. The struct's own encoding
/// ends with `)`, so the variant's ends with one `)` more. The variant has an
/// encoding exactly when the struct has.
pub proof fn law_struct_variant_closing(
    name: String,
    variant_index: u32,
    variant: String,
    fields: Vec<(String, Value)>,
)
    ensures
        match encoded(Value::Struct { name, fields }) {
            Some(bare) => bare.len() > 0 && bare.last() == ')' && encoded(
                Value::StructVariant { name, variant_index, variant, fields },
            ) == Some(variant_open(variant@) + bare + seq![')']),
            None => encoded(Value::StructVariant { name, variant_index, variant, fields })
                is None,
        },
{
}

} // verus!
