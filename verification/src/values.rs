use vstd::prelude::*;
use crate::Error;

verus! {

/// The characters that `String::from_utf8_lossy` yields for a byte sequence:
/// the decoded text, with every ill-formed UTF-8 sequence replaced by the
/// replacement character.  The result depends on the bytes alone.
pub uninterp spec fn utf8_lossy_of(bytes: Seq<u8>) -> Seq<char>;

/// Relies on `String::from_utf8_lossy` for lossy text decoding: well-formed
/// UTF-8 decodes as such, ill-formed sequences come out as replacement
/// characters, and an empty input gives an empty string.
#[verifier::external_body]
pub(crate) fn utf8_lossy(bytes: &[u8]) -> (r: String)
    ensures
        r@ == utf8_lossy_of(bytes@),
        bytes@.len() == 0 ==> r@.len() == 0,
{
    String::from_utf8_lossy(bytes).to_string()
}

/// The declared type of one tag value.
#[derive(Clone, Copy, Debug, PartialEq, Eq, Structural)]
pub enum ValueType {
    Text,
    Int,
    Double,
}

/// The wire codes of the three value types; any other code is unrecognized.
pub open spec fn spec_type_of_code(code: u64) -> Option<ValueType> {
    if code == 0 {
        Some(ValueType::Text)
    } else if code == 1 {
        Some(ValueType::Int)
    } else if code == 2 {
        Some(ValueType::Double)
    } else {
        None
    }
}

impl ValueType {
    /// Map a wire code to the value type it names, if any.
    pub fn from_code(code: u64) -> (r: Option<ValueType>)
        ensures
            r == spec_type_of_code(code),
    {
        if code == 0 {
            Some(ValueType::Text)
        } else if code == 1 {
            Some(ValueType::Int)
        } else if code == 2 {
            Some(ValueType::Double)
        } else {
            None
        }
    }
}

/// One decoded tag value.  A `Double` is carried as the raw bit pattern of
/// the little-endian IEEE-754 value, so that the verified core stays free of
/// floating-point arithmetic; a consumer reconstitutes the number from the
/// bits.
pub enum Value {
    Text(String),
    Integer(i64),
    Double(u64),
}

/// The mathematical shape of a `Value`: its text as a character sequence.
pub enum ValueModel {
    Text(Seq<char>),
    Integer(i64),
    Double(u64),
}

impl View for Value {
    type V = ValueModel;

    open spec fn view(&self) -> ValueModel {
        match self {
            Value::Text(s) => ValueModel::Text(s@),
            Value::Integer(v) => ValueModel::Integer(*v),
            Value::Double(bits) => ValueModel::Double(*bits),
        }
    }
}

/// A 64-bit word reinterpreted as a two's-complement signed integer.
pub open spec fn spec_u64_as_i64(u: u64) -> i64 {
    if u < 0x8000000000000000 {
        u as i64
    } else {
        ((u as int) - 0x10000000000000000) as i64
    }
}

/// A signed 64-bit integer reinterpreted as a two's-complement word.
pub open spec fn spec_i64_as_u64(v: i64) -> u64 {
    if v >= 0 {
        v as u64
    } else {
        ((v as int) + 0x10000000000000000) as u64
    }
}

/// What decoding a raw value buffer under a declared type yields: text is
/// decoded lossily and never fails; a signed integer or a double requires
/// exactly 8 little-endian bytes, anything else is rejected.
pub open spec fn spec_decode_value(raw: Seq<u8>, t: ValueType) -> Option<ValueModel> {
    match t {
        ValueType::Text => Some(ValueModel::Text(utf8_lossy_of(raw))),
        ValueType::Int => if raw.len() == 8 {
            Some(ValueModel::Integer(spec_u64_as_i64(vstd::bytes::spec_u64_from_le_bytes(raw))))
        } else {
            None
        },
        ValueType::Double => if raw.len() == 8 {
            Some(ValueModel::Double(vstd::bytes::spec_u64_from_le_bytes(raw)))
        } else {
            None
        },
    }
}

fn u64_to_i64(u: u64) -> (r: i64)
    ensures
        r == spec_u64_as_i64(u),
{
    if u < 0x8000000000000000 {
        u as i64
    } else {
        let flipped: u64 = !u;
        proof {
            assert(!u == 18446744073709551615u64 - u) by (bit_vector);
        }
        -(flipped as i64) - 1
    }
}

impl Value {
    /// Decode one raw value buffer under its declared type.  Text never
    /// fails; `Int` and `Double` demand exactly 8 bytes and otherwise report
    /// a format error.
    pub fn from_bytes(src: Vec<u8>, field_type: ValueType) -> (r: Result<Value, Error>)
        ensures
            match spec_decode_value(src@, field_type) {
                Some(m) => r matches Ok(v) && v@ == m,
                None => r == Err::<Value, Error>(Error::Format),
            },
    {
        match field_type {
            ValueType::Text => Ok(Value::Text(utf8_lossy(src.as_slice()))),
            ValueType::Int => {
                if src.len() == 8 {
                    let word = vstd::bytes::u64_from_le_bytes(src.as_slice());
                    Ok(Value::Integer(u64_to_i64(word)))
                } else {
                    Err(Error::Format)
                }
            },
            ValueType::Double => {
                if src.len() == 8 {
                    let word = vstd::bytes::u64_from_le_bytes(src.as_slice());
                    Ok(Value::Double(word))
                } else {
                    Err(Error::Format)
                }
            },
        }
    }
}

/// Writing a signed 64-bit integer as 8 little-endian bytes and decoding
/// those bytes under type `Int` gives back the same integer.
pub proof fn lemma_int_round_trip(v: i64)
    ensures
        spec_decode_value(
            vstd::bytes::spec_u64_to_le_bytes(spec_i64_as_u64(v)),
            ValueType::Int,
        ) == Some(ValueModel::Integer(v)),
{
    vstd::bytes::lemma_auto_spec_u64_to_from_le_bytes();
    assert(spec_u64_as_i64(spec_i64_as_u64(v)) == v);
}

/// Writing a double's bit pattern as 8 little-endian bytes and decoding
/// those bytes under type `Double` gives back the same bit pattern.
pub proof fn lemma_double_round_trip(bits: u64)
    ensures
        spec_decode_value(
            vstd::bytes::spec_u64_to_le_bytes(bits),
            ValueType::Double,
        ) == Some(ValueModel::Double(bits)),
{
    vstd::bytes::lemma_auto_spec_u64_to_from_le_bytes();
}

} // verus!
