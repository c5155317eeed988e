//! Bare and quoted text.
//!
//! Text is written bare when nothing in it could be mistaken for syntax or for
//! a number; otherwise it is wrapped in single quotes, with `!` put before
//! every `!` and `'` inside.

use vstd::prelude::*;
use vstd::utf8::*;

verus! {

/// `String::push` appends the character to the end of the string.
pub assume_specification[ String::push ](s: &mut String, c: char)
    ensures
        final(s)@ == old(s)@.push(c),
;

/// The whitespace bytes: tab, line feed, vertical tab, form feed, carriage
/// return and space.
pub open spec fn whitespace(b: u8) -> bool {
    (0x09 <= b <= 0x0d) || b == 0x20
}

/// Bytes that bare text may not contain anywhere: whitespace and
/// `! $ ' ( ) * , : @`.
pub open spec fn forbidden_anywhere(b: u8) -> bool {
    whitespace(b) || b == 0x21 || b == 0x24 || b == 0x27 || b == 0x28 || b == 0x29 || b == 0x2a
        || b == 0x2c || b == 0x3a || b == 0x40
}

/// Bytes that bare text may not start with: those of [`forbidden_anywhere`],
/// `-` and the decimal digits, so that bare text never reads as a number.
pub open spec fn forbidden_at_start(b: u8) -> bool {
    forbidden_anywhere(b) || b == 0x2d || (0x30 <= b <= 0x39)
}

/// Whether text with these UTF-8 bytes is written bare: it is not empty, its
/// first byte may start bare text, and no later byte is forbidden.
pub open spec fn is_bare(bytes: Seq<u8>) -> bool {
    &&& bytes.len() > 0
    &&& !forbidden_at_start(bytes[0])
    &&& forall|i: int| 1 <= i < bytes.len() ==> !forbidden_anywhere(#[trigger] bytes[i])
}

/// One character as it stands between quotes: `!` and `'` get a `!` in front.
pub open spec fn escape_char(c: char) -> Seq<char> {
    if c == '!' || c == '\'' {
        seq!['!', c]
    } else {
        seq![c]
    }
}

/// The characters of `t`, each as it stands between quotes.
pub open spec fn escape_chars(t: Seq<char>) -> Seq<char>
    decreases t.len(),
{
    if t.len() == 0 {
        Seq::empty()
    } else {
        escape_chars(t.drop_last()) + escape_char(t.last())
    }
}

/// `t` between single quotes, escaped.
pub open spec fn quoted(t: Seq<char>) -> Seq<char> {
    seq!['\''] + escape_chars(t) + seq!['\'']
}

/// The written form of the text `t`: `t` itself where it can stand bare, else
/// the quoted form. Empty text is `''`.
pub open spec fn escaped(t: Seq<char>) -> Seq<char> {
    if is_bare(encode_utf8(t)) {
        t
    } else {
        quoted(t)
    }
}

/// Whether `b` may not appear in bare text.
pub fn not_id(b: u8) -> (forbidden: bool)
    ensures
        forbidden == forbidden_anywhere(b),
{
    (0x09 <= b && b <= 0x0d) || b == 0x20 || b == 0x21 || b == 0x24 || b == 0x27 || b == 0x28
        || b == 0x29 || b == 0x2a || b == 0x2c || b == 0x3a || b == 0x40
}

/// Whether `b` may not start bare text.
pub fn not_id_start(b: u8) -> (forbidden: bool)
    ensures
        forbidden == forbidden_at_start(b),
{
    not_id(b) || b == 0x2d || (0x30 <= b && b <= 0x39)
}

/// Non-empty text has at least one byte.
pub proof fn lemma_encoding_nonempty(t: Seq<char>)
    ensures
        encode_utf8(t).len() == 0 <==> t.len() == 0,
{
    if t.len() > 0 {
        assert(encode_scalar(t[0] as u32).len() > 0);
    }
}

/// Decides whether text with the bytes `bytes` is written bare.
pub fn can_be_bare(bytes: &[u8]) -> (bare: bool)
    ensures
        bare == is_bare(bytes@),
{
    if bytes.len() == 0 {
        return false;
    }
    if not_id_start(bytes[0]) {
        return false;
    }
    let mut i: usize = 1;
    while i < bytes.len()
        invariant
            1 <= i <= bytes@.len(),
            forall|j: int| 1 <= j < i ==> !forbidden_anywhere(#[trigger] bytes@[j]),
        decreases bytes@.len() - i,
    {
        if not_id(bytes[i]) {
            return false;
        }
        i = i + 1;
    }
    true
}

/// Appends the written form of `value` to `s`.
pub fn escaped_str(s: &mut String, value: &str)
    ensures
        final(s)@ == old(s)@ + escaped(value@),
{
    proof {
        lemma_encoding_nonempty(value@);
    }
    if value.is_empty() {
        s.push('\'');
        s.push('\'');
        assert(escape_chars(value@) == Seq::<char>::empty());
        return ;
    }
    if can_be_bare(value.as_bytes()) {
        s.append(value);
        return ;
    }
    s.push('\'');
    for c in it: value.chars()
        invariant
            it.seq() == value@,
            s@ == old(s)@ + seq!['\''] + escape_chars(value@.take(it.index() as int)),
    {
        assert(value@.take(it.index() + 1).drop_last() == value@.take(it.index() as int));
        if c == '!' || c == '\'' {
            s.push('!');
        }
        s.push(c);
    }
    assert(value@.take(value@.len() as int) == value@);
    s.push('\'');
}

} // verus!
