use vstd::prelude::*;

verus! {

#[verifier::external_type_specification]
#[verifier::external_body]
pub struct ExUuid(uuid::Uuid);

pub open spec fn hex_char(d: nat) -> char {
    if d < 10 {
        crate::counter::digit_char(d)
    } else if d == 10 {
        'a'
    } else if d == 11 {
        'b'
    } else if d == 12 {
        'c'
    } else if d == 13 {
        'd'
    } else if d == 14 {
        'e'
    } else {
        'f'
    }
}

/// Two lowercase hexadecimal digits per byte, high digit first.
pub open spec fn hex_of(b: Seq<u8>) -> Seq<char>
    decreases b.len(),
{
    if b.len() == 0 {
        Seq::empty()
    } else {
        hex_of(b.drop_last()) + seq![hex_char((b.last() / 16) as nat), hex_char((b.last() % 16) as nat)]
    }
}

/// The hyphenated form of a UUID's sixteen bytes: groups of 4, 2, 2, 2 and 6
/// bytes in lowercase hexadecimal, joined by `-`.
pub open spec fn hyphenated(b: Seq<u8>) -> Seq<char> {
    hex_of(b.subrange(0, 4)) + seq!['-'] + hex_of(b.subrange(4, 6)) + seq!['-'] + hex_of(
        b.subrange(6, 8),
    ) + seq!['-'] + hex_of(b.subrange(8, 10)) + seq!['-'] + hex_of(b.subrange(10, 16))
}

/// The bytes of a random (version 4, RFC 4122 variant) UUID.
pub open spec fn is_v4(b: Seq<u8>) -> bool {
    b.len() == 16 && b[6] / 16 == 4 && b[8] / 64 == 2
}

/// Relies on `uuid::Uuid::new_v4` and `Uuid::into_bytes`: random bytes, with
/// the version nibble set to 4 and the variant bits to `10`.
#[verifier::external_body]
fn random_v4_bytes() -> (r: [u8; 16])
    ensures
        is_v4(r@),
{
    uuid::Uuid::new_v4().into_bytes()
}

/// Relies on `uuid::Uuid::from_bytes` and `Uuid`'s `Display`, which writes the
/// hyphenated lowercase form.
#[verifier::external_body]
fn uuid_text(b: [u8; 16]) -> (r: String)
    ensures
        r@ == hyphenated(b@),
{
    uuid::Uuid::from_bytes(b).to_string()
}

/// Relies on `uuid::Uuid::from_bytes`: the UUID made of these sixteen bytes.
#[verifier::external_body]
fn uuid_of_bytes(b: [u8; 16]) -> uuid::Uuid {
    uuid::Uuid::from_bytes(b)
}

/// A fresh random UUID.
pub fn uuid() -> uuid::Uuid {
    uuid_of_bytes(random_v4_bytes())
}

proof fn lemma_hex_len(b: Seq<u8>)
    ensures
        hex_of(b).len() == 2 * b.len(),
    decreases b.len(),
{
    if b.len() > 0 {
        lemma_hex_len(b.drop_last());
    }
}

/// A fresh key: the hyphenated text of a random UUID, 36 characters long.
pub fn get_next_key() -> (r: String)
    ensures
        r@.len() == 36,
        exists|b: Seq<u8>| is_v4(b) && r@ == hyphenated(b),
{
    let b = random_v4_bytes();
    let r = uuid_text(b);
    proof {
        lemma_hex_len(b@.subrange(0, 4));
        lemma_hex_len(b@.subrange(4, 6));
        lemma_hex_len(b@.subrange(6, 8));
        lemma_hex_len(b@.subrange(8, 10));
        lemma_hex_len(b@.subrange(10, 16));
    }
    r
}

} // verus!
