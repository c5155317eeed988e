//! A compact, human-readable text encoding of structured values.
//!
//! The encoder turns a [`Value`] (booleans, integers, floats, text, optional
//! values, sequences, maps, structs and enum variants) into one line of text:
//! `!t`, `-7`, `'a b'`, `!(1,2,3)`, `(a:1,b:2)`. Maps and structs are written
//! with their keys in ascending byte order, so equal contents always give
//! equal text.
//!
//! Every function is verified against a mathematical description of the
//! format; [`encoded`] is that description for a whole value, and [`laws`]
//! holds what follows from it for every value.
//!
//! - [`value`]: the values and their encodings.
//! - [`ser`], [`map`], [`key`]: the encoder, its writer for objects and its
//!   encoder for map keys; [`encode`]: how a value drives them.
//! - [`escape`], [`number`], [`grammar`]: text, numbers and the written forms.
//! - [`order`], [`pairs`]: the order of keys and the pairs kept in it.

pub mod encode;
pub mod error;
pub mod escape;
pub mod grammar;
pub mod key;
pub mod laws;
pub mod map;
pub mod number;
pub mod order;
pub mod pairs;
pub mod ser;
pub mod value;

pub use error::Error;
pub use escape::escaped_str;
pub use map::MapSerializer;
pub use ser::{to_string, SeqSerializer, Serializer};
pub use value::{encoded, Value};
