//! The serialization boundary: typed values go to and from an opaque,
//! self-describing binary encoding. The store never inspects the bytes.
use vstd::prelude::*;

use crate::Error;

verus! {

/// Encodes a value into the compact binary format, with structs written as
/// maps of their field names so that fields can be added or removed across
/// versions.
///
/// Relies on serde's Serialize together with rmp_serde's Serializer (in its
/// struct-map configuration): encoding fails only when the value's type
/// cannot be represented in the format.
#[verifier::external_body]
pub fn serialize<T: serde::Serialize>(value: &T) -> (r: Result<Vec<u8>, Error>)
    ensures
        r matches Err(e) ==> e is Codec,
{
    let mut serializer = rmp_serde::Serializer::new(vec![]).with_struct_map();
    match value.serialize(&mut serializer) {
        Ok(()) => Ok(serializer.into_inner()),
        Err(e) => Err(Error::Codec(e.to_string())),
    }
}

/// Decodes bytes back into a typed value; fails with a codec error when the
/// byte layout does not match the requested type's shape.
///
/// Relies on rmp_serde::from_slice together with serde's DeserializeOwned.
#[verifier::external_body]
pub fn deserialize<T: serde::de::DeserializeOwned>(value: &[u8]) -> (r: Result<T, Error>)
    ensures
        r matches Err(e) ==> e is Codec,
{
    match rmp_serde::from_slice(value) {
        Ok(v) => Ok(v),
        Err(e) => Err(Error::Codec(e.to_string())),
    }
}

} // verus!
