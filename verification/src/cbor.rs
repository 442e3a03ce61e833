//! CBOR data as this library reads and writes it.
//!
//! Decoding and encoding are done by `ciborium`; this module holds the library's own
//! model of a decoded item ([`CborValue`]) and the small checks that turn a decoded
//! item into the map, text or bytes that a caller expects.

use vstd::prelude::*;
use crate::error::ProvisioningError;
use ciborium::value::Value;

verus! {

/// A CBOR data item, as `ciborium` decodes it into a `ciborium::value::Value`.
#[derive(Debug)]
pub enum CborValue {
    /// An integer (major types 0 and 1, or a big number tag).
    Integer(i128),
    /// A byte string.
    Bytes(Vec<u8>),
    /// A floating-point number, by the bits of its IEEE 754 double-precision form.
    Float(u64),
    /// A text string.
    Text(String),
    /// A boolean.
    Bool(bool),
    /// Null (or undefined).
    Null,
    /// A tagged item.
    Tag(u64, Box<CborValue>),
    /// An array.
    Array(Vec<CborValue>),
    /// A map: its entries in the order in which they were encoded.
    Pairs(Vec<(CborValue, CborValue)>),
    /// A kind of item that the decoder may add in a later version.
    Other,
}

/// `ciborium::value::Value`, the item that `ciborium` decodes; opaque here, and turned
/// into a [`CborValue`] as soon as it is decoded.
#[verifier::external_type_specification]
#[verifier::external_body]
pub struct ExCiboriumValue(Value);

/// Builds this library's model of a `ciborium::value::Value`, variant for variant
/// (an integer by its `i128` value, a float by its bits); [`read_cbor_item`] applies it
/// to what it decodes, and no contract is claimed for it on its own.
#[verifier::external_body]
fn cbor_model(v: Value) -> CborValue {
    match v {
        Value::Integer(i) => CborValue::Integer(i128::from(i)),
        Value::Bytes(b) => CborValue::Bytes(b),
        Value::Float(f) => CborValue::Float(f.to_bits()),
        Value::Text(t) => CborValue::Text(t),
        Value::Bool(b) => CborValue::Bool(b),
        Value::Null => CborValue::Null,
        Value::Tag(t, b) => CborValue::Tag(t, Box::new(cbor_model(*b))),
        Value::Array(a) => CborValue::Array(a.into_iter().map(cbor_model).collect()),
        Value::Map(m) => CborValue::Pairs(m.into_iter().map(|(k, v)| (cbor_model(k), cbor_model(v))).collect()),
        _ => CborValue::Other,
    }
}

/// What `ciborium::de::from_reader` makes of `data` when it reads one
/// `ciborium::value::Value` from the front of it: the item, and the number of bytes of
/// `data` left unread after it; or the text of the decoder's error.
pub uninterp spec fn cbor_read(data: Seq<u8>) -> Result<(CborValue, usize), String>;

/// The `k` low-order bytes of `n`, most significant first.
pub open spec fn be_bytes(n: nat, k: nat) -> Seq<u8>
    decreases k,
{
    if k == 0 {
        Seq::empty()
    } else {
        be_bytes(n / 256, (k - 1) as nat).push((n % 256) as u8)
    }
}

/// The head of a CBOR data item of major type `major` whose argument is `arg`, in its
/// shortest form (RFC 8949, section 3).
pub open spec fn cbor_head(major: nat, arg: nat) -> Seq<u8> {
    if arg < 24 {
        seq![(major * 32 + arg) as u8]
    } else if arg < 0x100 {
        seq![(major * 32 + 24) as u8] + be_bytes(arg, 1)
    } else if arg < 0x1_0000 {
        seq![(major * 32 + 25) as u8] + be_bytes(arg, 2)
    } else if arg < 0x1_0000_0000 {
        seq![(major * 32 + 26) as u8] + be_bytes(arg, 4)
    } else {
        seq![(major * 32 + 27) as u8] + be_bytes(arg, 8)
    }
}

/// The encoding of a text string: its head, then its UTF-8 bytes.
pub open spec fn cbor_text(s: Seq<char>) -> Seq<u8> {
    cbor_head(3, vstd::utf8::encode_utf8(s).len()) + vstd::utf8::encode_utf8(s)
}

/// The encoding of a byte string: its head, then its bytes.
pub open spec fn cbor_bytes(b: Seq<u8>) -> Seq<u8> {
    cbor_head(2, b.len()) + b
}

/// The encodings of the entries of a map of text strings to byte strings, in order.
pub open spec fn cbor_text_bytes_entries(entries: Seq<(Seq<char>, Seq<u8>)>) -> Seq<u8>
    decreases entries.len(),
{
    if entries.len() == 0 {
        Seq::empty()
    } else {
        cbor_text_bytes_entries(entries.drop_last()) + cbor_text(entries.last().0) + cbor_bytes(
            entries.last().1,
        )
    }
}

/// The encoding of a map of definite length from text strings to byte strings: its head,
/// then each entry's key and value, in order.
pub open spec fn cbor_text_bytes_map(entries: Seq<(Seq<char>, Seq<u8>)>) -> Seq<u8> {
    cbor_head(5, entries.len()) + cbor_text_bytes_entries(entries)
}

/// The texts and bytes of `entries`.
pub open spec fn entry_views(entries: Seq<(String, Vec<u8>)>) -> Seq<(Seq<char>, Seq<u8>)> {
    entries.map_values(|e: (String, Vec<u8>)| (e.0@, e.1@))
}

/// Reads one CBOR item from the front of `data` with `ciborium::de::from_reader`.
///
/// Trusted: the result is `cbor_read(data)`, and what is left unread is part of `data`
/// less at least the one head byte that every CBOR item has.
#[verifier::external_body]
fn read_cbor_item(data: &[u8]) -> (r: Result<(CborValue, usize), String>)
    ensures
        r == cbor_read(data@),
        r matches Ok((_, left)) ==> left < data.len(),
{
    let mut rest = data;
    match ciborium::de::from_reader::<Value, _>(&mut rest) {
        Ok(v) => Ok((cbor_model(v), rest.len())),
        Err(e) => Err(e.to_string()),
    }
}

/// Whether `v` is a CBOR map whose entries are, in order, the text and byte strings of
/// the pairs of `entries`.
pub open spec fn is_text_bytes_map(v: CborValue, entries: Seq<(String, Vec<u8>)>) -> bool {
    match v {
        CborValue::Pairs(m) => {
            &&& m@.len() == entries.len()
            &&& forall|i: int|
                0 <= i < entries.len() ==> #[trigger] m@[i] == (
                CborValue::Text(entries[i].0),
                CborValue::Bytes(entries[i].1),
            )
        },
        _ => false,
    }
}

/// Encodes a CBOR map of text strings to byte strings with `ciborium::ser::into_writer`,
/// into a `Vec<u8>`.
///
/// Trusted: writing into a `Vec<u8>` cannot fail and a map of text and byte strings
/// always serializes, so the result is `Ok`; its bytes are the shortest-form encoding
/// `cbor_text_bytes_map` of the entries (ciborium-ll writes each head in its shortest
/// form, a text string by its UTF-8 bytes), and `ciborium::de::from_reader` reads them
/// back as that same map, with nothing left over.
#[verifier::external_body]
fn write_cbor_text_bytes_map(entries: Vec<(String, Vec<u8>)>) -> (r: Result<Vec<u8>, String>)
    ensures
        r is Ok,
        r matches Ok(bytes) ==> {
            &&& bytes@ == cbor_text_bytes_map(entry_views(entries@))
            &&& cbor_read(bytes@) matches Ok((v, left)) && left == 0 && is_text_bytes_map(v, entries@)
        },
{
    let map = Value::Map(entries.into_iter().map(|(k, b)| (Value::Text(k), Value::Bytes(b))).collect());
    let mut out: Vec<u8> = Vec::new();
    match ciborium::ser::into_writer(&map, &mut out) {
        Ok(()) => Ok(out),
        Err(e) => Err(e.to_string()),
    }
}

/// The name of the type of a CBOR item, as error reports give it.
pub open spec fn value_type_name(v: CborValue) -> &'static str {
    match v {
        CborValue::Integer(_) => "int",
        CborValue::Bytes(_) => "bstr",
        CborValue::Float(_) => "float",
        CborValue::Text(_) => "tstr",
        CborValue::Bool(_) => "bool",
        CborValue::Null => "nul",
        CborValue::Tag(_, _) => "tag",
        CborValue::Array(_) => "array",
        CborValue::Pairs(_) => "map",
        CborValue::Other => "other",
    }
}

/// Returns the name of the type of `v`.
pub fn cbor_value_type(v: &CborValue) -> (r: &'static str)
    ensures
        r == value_type_name(*v),
{
    match v {
        CborValue::Integer(_) => "int",
        CborValue::Bytes(_) => "bstr",
        CborValue::Float(_) => "float",
        CborValue::Text(_) => "tstr",
        CborValue::Bool(_) => "bool",
        CborValue::Null => "nul",
        CborValue::Tag(_, _) => "tag",
        CborValue::Array(_) => "array",
        CborValue::Pairs(_) => "map",
        CborValue::Other => "other",
    }
}

/// The error for an item `v` that is not of the type `expected`.
pub open spec fn unexpected(v: CborValue, expected: &'static str, context: &'static str) -> ProvisioningError {
    ProvisioningError::UnexpectedItem { found: value_type_name(v), expected, context }
}

/// What [`deserialize`] returns for `data`.
pub open spec fn deserialized(data: Seq<u8>) -> Result<CborValue, ProvisioningError> {
    match cbor_read(data) {
        Err(m) => Err(ProvisioningError::CborDecode(m)),
        Ok((v, left)) => if left == 0 {
            Ok(v)
        } else {
            Err(ProvisioningError::ExtraneousData)
        },
    }
}

/// Decodes `data` as exactly one CBOR item: fails if the decoder refuses it, or if any
/// bytes follow the item.
pub fn deserialize(data: &[u8]) -> (r: Result<CborValue, ProvisioningError>)
    ensures
        r == deserialized(data@),
        data.len() == 0 ==> r is Err,
{
    match read_cbor_item(data) {
        Err(m) => Err(ProvisioningError::CborDecode(m)),
        Ok((v, left)) => if left == 0 {
            Ok(v)
        } else {
            Err(ProvisioningError::ExtraneousData)
        },
    }
}

/// Converts `v` to the entries of a map; fails, naming `context`, if `v` is not a map.
pub fn value_to_map(v: CborValue, context: &'static str) -> (r: Result<Vec<(CborValue, CborValue)>, ProvisioningError>)
    ensures
        match v {
            CborValue::Pairs(m) => r == Ok::<Vec<(CborValue, CborValue)>, ProvisioningError>(m),
            _ => r == Err::<Vec<(CborValue, CborValue)>, ProvisioningError>(unexpected(v, "map", context)),
        },
{
    match v {
        CborValue::Pairs(m) => Ok(m),
        other => {
            let found = cbor_value_type(&other);
            Err(ProvisioningError::UnexpectedItem { found, expected: "map", context })
        },
    }
}

/// Converts `v` to the elements of an array; fails, naming `context`, if `v` is not an
/// array.
pub fn value_to_array(v: CborValue, context: &'static str) -> (r: Result<Vec<CborValue>, ProvisioningError>)
    ensures
        match v {
            CborValue::Array(a) => r == Ok::<Vec<CborValue>, ProvisioningError>(a),
            _ => r == Err::<Vec<CborValue>, ProvisioningError>(unexpected(v, "array", context)),
        },
{
    match v {
        CborValue::Array(a) => Ok(a),
        other => {
            let found = cbor_value_type(&other);
            Err(ProvisioningError::UnexpectedItem { found, expected: "array", context })
        },
    }
}

/// Converts `v` to a text string; fails, naming `context`, if `v` is not one.
pub fn value_to_text(v: CborValue, context: &'static str) -> (r: Result<String, ProvisioningError>)
    ensures
        match v {
            CborValue::Text(s) => r == Ok::<String, ProvisioningError>(s),
            _ => r == Err::<String, ProvisioningError>(unexpected(v, "tstr", context)),
        },
{
    match v {
        CborValue::Text(s) => Ok(s),
        other => {
            let found = cbor_value_type(&other);
            Err(ProvisioningError::UnexpectedItem { found, expected: "tstr", context })
        },
    }
}

/// Converts `v` to a byte string; fails, naming `context`, if `v` is not one.
pub fn value_to_bytes(v: CborValue, context: &'static str) -> (r: Result<Vec<u8>, ProvisioningError>)
    ensures
        match v {
            CborValue::Bytes(b) => r == Ok::<Vec<u8>, ProvisioningError>(b),
            _ => r == Err::<Vec<u8>, ProvisioningError>(unexpected(v, "bstr", context)),
        },
{
    match v {
        CborValue::Bytes(b) => Ok(b),
        other => {
            let found = cbor_value_type(&other);
            Err(ProvisioningError::UnexpectedItem { found, expected: "bstr", context })
        },
    }
}

/// Encodes a CBOR map of text strings to byte strings, the entries in the given order.
pub fn serialize_text_bytes_map(entries: Vec<(String, Vec<u8>)>) -> (r: Result<Vec<u8>, ProvisioningError>)
    ensures
        r is Ok,
        r matches Ok(bytes) ==> {
            &&& bytes@ == cbor_text_bytes_map(entry_views(entries@))
            &&& deserialized(bytes@) matches Ok(v) && is_text_bytes_map(v, entries@)
        },
{
    match write_cbor_text_bytes_map(entries) {
        Ok(bytes) => Ok(bytes),
        Err(m) => Err(ProvisioningError::CborEncode(m)),
    }
}

} // verus!
