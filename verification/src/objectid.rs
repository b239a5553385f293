//! Object identifiers: twelve bytes, written as twenty-four hexadecimal digits.
use vstd::prelude::*;
use crate::json::JsonValue;

verus! {

#[verifier::external_type_specification]
#[verifier::external_body]
pub struct ExOidError(bson::oid::Error);

/// The hexadecimal digit, in lower case, for `n < 16`.
pub open spec fn hex_digit(n: int) -> char {
    if n < 10 {
        (n + 48) as char
    } else {
        (n + 87) as char
    }
}

/// Two lower-case hexadecimal digits per byte, the high half first.
pub open spec fn hex_encode(bytes: Seq<u8>) -> Seq<char> {
    Seq::new(
        2 * bytes.len(),
        |i: int|
            if i % 2 == 0 {
                hex_digit(bytes[i / 2] as int / 16)
            } else {
                hex_digit(bytes[i / 2] as int % 16)
            },
    )
}

/// A digit `0`-`9`, `a`-`f` or `A`-`F`.
pub open spec fn is_hex_char(c: char) -> bool {
    ||| 48 <= (c as u32) <= 57
    ||| 97 <= (c as u32) <= 102
    ||| 65 <= (c as u32) <= 70
}

/// The value of a hexadecimal digit.
pub open spec fn hex_value(c: char) -> int {
    if 48 <= (c as u32) <= 57 {
        c as u32 - 48
    } else if 97 <= (c as u32) <= 102 {
        c as u32 - 87
    } else {
        c as u32 - 55
    }
}

/// The bytes that pairs of hexadecimal digits stand for.
pub open spec fn hex_decode(s: Seq<char>) -> Seq<u8> {
    Seq::new(s.len() / 2, |i: int| (hex_value(s[2 * i]) * 16 + hex_value(s[2 * i + 1])) as u8)
}

/// Text that names an object identifier: twenty-four hexadecimal digits, of either case.
pub open spec fn is_object_id_text(s: Seq<char>) -> bool {
    &&& s.len() == 24
    &&& forall|i: int| 0 <= i < s.len() ==> is_hex_char(#[trigger] s[i])
}

/// A digit reads back as the number it was written for.
pub proof fn lemma_hex_digit(n: int)
    requires
        0 <= n < 16,
    ensures
        is_hex_char(hex_digit(n)),
        hex_value(hex_digit(n)) == n,
{
    if n < 10 {
        assert(((n + 48) as char) as u32 == n + 48);
    } else {
        assert(((n + 87) as char) as u32 == n + 87);
    }
}

/// Decoding the hexadecimal text of some bytes gives the bytes back.
pub proof fn lemma_hex_round_trip(bytes: Seq<u8>)
    ensures
        hex_encode(bytes).len() == 2 * bytes.len(),
        forall|i: int| 0 <= i < hex_encode(bytes).len() ==> is_hex_char(#[trigger] hex_encode(bytes)[i]),
        hex_decode(hex_encode(bytes)) =~= bytes,
{
    let t = hex_encode(bytes);
    assert forall|i: int| 0 <= i < t.len() implies is_hex_char(#[trigger] t[i]) by {
        if i % 2 == 0 {
            lemma_hex_digit(bytes[i / 2] as int / 16);
        } else {
            lemma_hex_digit(bytes[i / 2] as int % 16);
        }
    }
    assert forall|i: int| 0 <= i < bytes.len() implies #[trigger] hex_decode(t)[i] == bytes[i] by {
        let b = bytes[i] as int;
        assert((2 * i) % 2 == 0 && (2 * i) / 2 == i);
        assert((2 * i + 1) % 2 == 1 && (2 * i + 1) / 2 == i);
        lemma_hex_digit(b / 16);
        lemma_hex_digit(b % 16);
        assert(b / 16 * 16 + b % 16 == b);
    }
}

/// A twelve-byte object identifier.
#[derive(Clone, Copy, PartialEq, Eq, Hash, Debug)]
pub struct ObjectId {
    pub bytes: [u8; 12],
}

/// `bson::oid::ObjectId::new`: a fresh identifier made of the time, a random number
/// and a counter. Its source never returns an error (each part it draws on is made
/// without one); the bytes themselves are left unsaid, as they rest on the clock
/// and on chance.
#[verifier::external_body]
fn generate_object_id() -> (r: Result<ObjectId, bson::oid::Error>)
    ensures
        r is Ok,
{
    bson::oid::ObjectId::new().map(|oid| ObjectId { bytes: oid.bytes() })
}

/// `bson::oid::ObjectId::with_string`: decodes the text with `hex::decode`, which takes
/// digits of either case two by two and fails on an odd length or a byte that is no
/// digit; then fails unless there are twelve bytes. So it succeeds exactly on
/// twenty-four hexadecimal digits, and the bytes are those the digits stand for.
#[verifier::external_body]
fn object_id_from_text(s: &str) -> (r: Result<ObjectId, bson::oid::Error>)
    ensures
        r is Ok <==> is_object_id_text(s@),
        r matches Ok(id) ==> id.bytes@ == hex_decode(s@),
{
    bson::oid::ObjectId::with_string(s).map(|oid| ObjectId { bytes: oid.bytes() })
}

/// `bson::oid::ObjectId::to_hex`: `hex::encode` of the twelve bytes, two lower-case
/// digits per byte, the high half first.
#[verifier::external_body]
fn object_id_text(id: &ObjectId) -> (r: String)
    ensures
        r@ == hex_encode(id.bytes@),
{
    bson::oid::ObjectId::with_bytes(id.bytes).to_hex()
}

impl ObjectId {
    /// The twelve bytes.
    pub open spec fn id_bytes(&self) -> Seq<u8> {
        self.bytes@
    }

    /// The identifier's text: twenty-four lower-case hexadecimal digits.
    pub open spec fn hex(&self) -> Seq<char> {
        hex_encode(self.bytes@)
    }

    /// A fresh identifier, from the time, a random number and a counter.
    pub fn new() -> (r: Result<ObjectId, ()>)
        ensures
            r is Ok,
    {
        match generate_object_id() {
            Ok(id) => Ok(id),
            Err(_) => Err(()),
        }
    }

    /// The identifier with the given bytes.
    pub fn with_bytes(bytes: [u8; 12]) -> (r: ObjectId)
        ensures
            r.bytes == bytes,
    {
        ObjectId { bytes }
    }

    /// The identifier's bytes.
    pub fn bytes(&self) -> (r: [u8; 12])
        ensures
            r == self.bytes,
    {
        self.bytes
    }

    /// Reads an identifier from twenty-four hexadecimal digits of either case;
    /// `Err` on any other text.
    pub fn with_string(s: &str) -> (r: Result<ObjectId, ()>)
        ensures
            r is Ok <==> is_object_id_text(s@),
            r matches Ok(id) ==> id.bytes@ == hex_decode(s@),
    {
        match object_id_from_text(s) {
            Ok(id) => Ok(id),
            Err(_) => Err(()),
        }
    }

    /// The identifier as twenty-four lower-case hexadecimal digits.
    pub fn to_hex(&self) -> (r: String)
        ensures
            r@ == self.hex(),
    {
        object_id_text(self)
    }

    /// Whether two identifiers hold the same bytes.
    pub fn same_as(&self, other: &ObjectId) -> (r: bool)
        ensures
            r == (*self == *other),
            r == (self.id_bytes() == other.id_bytes()),
    {
        broadcast use vstd::array::group_array_axioms;
        let mut i: usize = 0;
        while i < 12
            invariant
                i <= 12,
                forall|j: int| 0 <= j < i ==> self.bytes[j] == other.bytes[j],
            decreases 12 - i,
        {
            if self.bytes[i] != other.bytes[i] {
                assert(self.bytes@[i as int] != other.bytes@[i as int]);
                return false;
            }
            i = i + 1;
        }
        assert(self.bytes =~= other.bytes);
        assert(self.bytes@ =~= other.bytes@);
        true
    }

    /// The identifier's text, as `to_hex` gives it.
    pub fn to_string(&self) -> (r: String)
        ensures
            r@ == self.hex(),
    {
        self.to_hex()
    }

    /// The identifier as a JSON string of its hexadecimal digits.
    pub fn to_json(&self) -> (r: JsonValue)
        ensures
            r@ == crate::json::JsonView::Str(self.hex()),
    {
        JsonValue::Str(self.to_hex())
    }
}

/// An identifier's own text reads back as that identifier.
pub proof fn lemma_object_id_text_round_trip(id: ObjectId)
    ensures
        is_object_id_text(id.hex()),
        hex_decode(id.hex()) == id.id_bytes(),
{
    lemma_hex_round_trip(id.bytes@);
}

} // verus!
