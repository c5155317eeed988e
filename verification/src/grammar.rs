//! The written forms of the format, as functions on text.

use vstd::prelude::*;
use crate::escape::escaped;
use crate::pairs::{ascending_pairs, TextPair};

verus! {

/// `!t` for true, `!f` for false.
pub open spec fn bool_text(b: bool) -> Seq<char> {
    if b {
        seq!['!', 't']
    } else {
        seq!['!', 'f']
    }
}

/// `!n`, which stands for no value.
pub open spec fn null_text() -> Seq<char> {
    seq!['!', 'n']
}

/// The written form of a float, given whether it is NaN or infinite and its
/// shortest decimal form: the format has no word for a float that is not
/// finite and writes it as no value.
pub open spec fn float_text(non_finite: bool, shortest: Seq<char>) -> Seq<char> {
    if non_finite {
        null_text()
    } else {
        shortest
    }
}

/// The `parts` one after the other, with `sep` between neighbours.
pub open spec fn join(parts: Seq<Seq<char>>, sep: Seq<char>) -> Seq<char>
    decreases parts.len(),
{
    if parts.len() == 0 {
        Seq::empty()
    } else if parts.len() == 1 {
        parts[0]
    } else {
        join(parts.drop_last(), sep) + sep + parts.last()
    }
}

/// What stands before an element of a list: nothing before the first, a
/// comma before every other.
pub open spec fn separator(first: bool) -> Seq<char> {
    if first {
        Seq::empty()
    } else {
        seq![',']
    }
}

/// A sequence: `!(`, the elements with commas between them, `)`.
pub open spec fn sequence_text(elements: Seq<Seq<char>>) -> Seq<char> {
    seq!['!', '('] + join(elements, seq![',']) + seq![')']
}

/// One pair of an object: key, `:`, value.
pub open spec fn pair_text(pair: TextPair) -> Seq<char> {
    pair.0 + seq![':'] + pair.1
}

/// The pairs of `pairs` in their written form, in the same order.
pub open spec fn pair_texts(pairs: Seq<TextPair>) -> Seq<Seq<char>> {
    pairs.map_values(|p: TextPair| pair_text(p))
}

/// An object: `(`, the pairs of `m` by ascending key with commas between
/// them, `)`.
pub open spec fn object_text(m: Map<Seq<char>, Seq<char>>) -> Seq<char> {
    seq!['('] + join(pair_texts(ascending_pairs(m)), seq![',']) + seq![')']
}

/// What opens a variant with a payload: `(`, the variant's name as text, `:`.
pub open spec fn variant_open(variant: Seq<char>) -> Seq<char> {
    seq!['('] + escaped(variant) + seq![':']
}

/// A variant with a payload: `(`, the variant's name, `:`, the payload, `)`.
pub open spec fn variant_text(variant: Seq<char>, payload: Seq<char>) -> Seq<char> {
    variant_open(variant) + payload + seq![')']
}

} // verus!
