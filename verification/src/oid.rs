//! The identity that the store gives a persisted entity: twelve raw bytes,
//! written out as twenty-four lower-case hexadecimal digits.

use vstd::prelude::*;

verus! {

/// The sixteen hexadecimal digits, in order of their value.
pub open spec fn hex_digits() -> Seq<char> {
    seq!['0', '1', '2', '3', '4', '5', '6', '7', '8', '9', 'a', 'b', 'c', 'd', 'e', 'f']
}

/// The hexadecimal form of `bytes`: two digits for each byte, the high half
/// first, letters in lower case.
pub open spec fn hex_string(bytes: Seq<u8>) -> Seq<char> {
    Seq::new(
        2 * bytes.len(),
        |i: int|
            if i % 2 == 0 {
                hex_digits()[bytes[i / 2] as int / 16]
            } else {
                hex_digits()[bytes[i / 2] as int % 16]
            },
    )
}

/// No two hexadecimal digits are the same character.
pub proof fn lemma_hex_digits_differ(a: int, b: int)
    requires
        0 <= a < 16,
        0 <= b < 16,
        hex_digits()[a] == hex_digits()[b],
    ensures
        a == b,
{
}

/// Two byte strings with the same hexadecimal form are the same.
pub proof fn lemma_hex_string_injective(a: Seq<u8>, b: Seq<u8>)
    requires
        hex_string(a) == hex_string(b),
    ensures
        a == b,
{
    assert(hex_string(a).len() == 2 * a.len());
    assert(hex_string(b).len() == 2 * b.len());
    assert forall|k: int| 0 <= k < a.len() implies a[k] == b[k] by {
        let x = a[k] as int;
        let y = b[k] as int;
        assert(hex_string(a)[2 * k] == hex_digits()[x / 16]);
        assert(hex_string(b)[2 * k] == hex_digits()[y / 16]);
        assert(hex_string(a)[2 * k + 1] == hex_digits()[x % 16]);
        assert(hex_string(b)[2 * k + 1] == hex_digits()[y % 16]);
        lemma_hex_digits_differ(x / 16, y / 16);
        lemma_hex_digits_differ(x % 16, y % 16);
    }
    assert(a =~= b);
}

/// A stable identity, as the store hands it out.
#[derive(Clone, Copy, Debug)]
pub struct ObjectId {
    pub bytes: [u8; 12],
}

impl View for ObjectId {
    type V = Seq<u8>;

    open spec fn view(&self) -> Seq<u8> {
        self.bytes@
    }
}

/// Calls `bson::oid::ObjectId::to_string` on the identity with these bytes.
/// `bson` prints an identity as the lower-case hexadecimal form of its twelve
/// bytes, which is what the contract claims.
#[verifier::external_body]
fn bson_to_string(id: &ObjectId) -> (text: String)
    ensures
        text@ == hex_string(id@),
{
    bson::oid::ObjectId::from_bytes(id.bytes).to_string()
}

/// Calls `bson::oid::ObjectId::default`, which makes up a new identity from the
/// clock, a value drawn at random once per process, and a running counter.
/// Nothing is claimed of the bytes that come back.
#[verifier::external_body]
pub(crate) fn bson_default() -> (id: ObjectId) {
    ObjectId { bytes: bson::oid::ObjectId::default().bytes() }
}

impl PartialEq for ObjectId {
    fn eq(&self, other: &ObjectId) -> (same: bool) {
        let mut i: usize = 0;
        while i < 12
            invariant
                i <= 12,
                forall|j: int| 0 <= j < i ==> self.bytes[j] == other.bytes[j],
            decreases 12 - i,
        {
            if self.bytes[i] != other.bytes[i] {
                return false;
            }
            i += 1;
        }
        assert(self.bytes@ =~= other.bytes@);
        true
    }
}

impl vstd::std_specs::cmp::PartialEqSpecImpl for ObjectId {
    open spec fn obeys_eq_spec() -> bool {
        true
    }

    open spec fn eq_spec(&self, other: &ObjectId) -> bool {
        self@ == other@
    }
}

impl Eq for ObjectId {}

impl ObjectId {
    /// The identity made of the given bytes.
    pub fn from_bytes(bytes: [u8; 12]) -> (id: ObjectId)
        ensures
            id@ == bytes@,
    {
        ObjectId { bytes }
    }

    /// The string under which this identity is known outside the store.
    pub fn to_hex(&self) -> (text: String)
        ensures
            text@ == hex_string(self@),
            text@.len() == 24,
    {
        bson_to_string(self)
    }
}

} // verus!
