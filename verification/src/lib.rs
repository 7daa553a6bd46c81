//! A PackStream implementation: a compact, self-describing binary
//! serialization format built from tagged marker bytes.
//!
//! The trait [`Pack`](crate::packable::Pack) is for encoding, the trait
//! [`Unpack`](crate::packable::Unpack) is for decoding. Both work on plain
//! byte buffers: encoding appends to a `Vec<u8>`, decoding consumes bytes
//! from a [`ByteReader`](crate::stream::ByteReader).
//!
//! Encoding picks the most compact wire form the specification allows, while
//! decoding accepts every valid wire form; the two are inverses on canonical
//! bytes.

pub mod error;
pub mod ll;
pub mod packable;
pub mod value;
pub mod std_structs;
pub mod stream;
pub mod structure;
pub mod utils;

pub use error::{DecodeError, EncodeError};
pub use packable::{Pack, Unpack};
pub use ll::marker::Marker;
pub use stream::ByteReader;
pub use value::bytes::Bytes;
pub use value::dictionary::Dictionary;
pub use structure::{GenericStruct, NoStruct, PackableStruct, PackableStructSum};
pub use structure::{decode_struct, decode_struct_body, encode_struct, Tags};
pub use utils::{decode_property, encode_property};
pub use value::{extract_list, extract_list_ref, Extract, ExtractMut, ExtractRef, Value, ValueModel};
