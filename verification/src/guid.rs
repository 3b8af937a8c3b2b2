//! Interface identities: sixteen opaque bytes, compared for equality only.

use vstd::prelude::*;

verus! {

/// The identity of an interface.
pub type Guid = [u8; 16];

/// An identity as the foreign headers spell it: sixteen C `char`s.
pub type TUID = [i8; 16];

/// Tells whether two identities are the same.
pub fn guid_eq(a: &Guid, b: &Guid) -> (same: bool)
    ensures
        same == (*a == *b),
{
    let mut i: usize = 0;
    while i < 16
        invariant
            i <= 16,
            forall|j: int| 0 <= j < i ==> a[j] == b[j],
        decreases 16 - i,
    {
        if a[i] != b[i] {
            return false;
        }
        i += 1;
    }
    assert(*a =~= *b);
    true
}

/// The byte that a C `char` stands for.
pub open spec fn unsigned(b: i8) -> u8 {
    if b < 0 {
        (b + 256) as u8
    } else {
        b as u8
    }
}

/// Byte `k` of a 32-bit word, counted from the least significant one.
pub open spec fn byte_of(x: u32, k: int) -> u8 {
    if k == 0 {
        (x % 256) as u8
    } else if k == 1 {
        (x / 0x100 % 256) as u8
    } else if k == 2 {
        (x / 0x1_0000 % 256) as u8
    } else {
        (x / 0x100_0000 % 256) as u8
    }
}

/// The four bytes of a word, most significant first.
pub open spec fn be_bytes(x: u32) -> Seq<u8> {
    seq![byte_of(x, 3), byte_of(x, 2), byte_of(x, 1), byte_of(x, 0)]
}

/// The four bytes of a word, least significant first.
pub open spec fn le_bytes(x: u32) -> Seq<u8> {
    seq![byte_of(x, 0), byte_of(x, 1), byte_of(x, 2), byte_of(x, 3)]
}

/// The bytes that a sequence of C `char`s stands for.
pub open spec fn unsigned_bytes(t: Seq<i8>) -> Seq<u8> {
    Seq::new(t.len(), |i: int| unsigned(t[i]))
}

fn to_unsigned(b: i8) -> (r: u8)
    ensures
        r == unsigned(b),
{
    assert(b as u8 == if b < 0 { (b + 256) as u8 } else { b as u8 }) by (bit_vector);
    b as u8
}

/// Reads an identity out of its C spelling, byte for byte.
pub fn tuid_as_guid(tuid: TUID) -> (guid: Guid)
    ensures
        guid@ == unsigned_bytes(tuid@),
{
    let guid: Guid = [
        to_unsigned(tuid[0]),
        to_unsigned(tuid[1]),
        to_unsigned(tuid[2]),
        to_unsigned(tuid[3]),
        to_unsigned(tuid[4]),
        to_unsigned(tuid[5]),
        to_unsigned(tuid[6]),
        to_unsigned(tuid[7]),
        to_unsigned(tuid[8]),
        to_unsigned(tuid[9]),
        to_unsigned(tuid[10]),
        to_unsigned(tuid[11]),
        to_unsigned(tuid[12]),
        to_unsigned(tuid[13]),
        to_unsigned(tuid[14]),
        to_unsigned(tuid[15]),
    ];
    assert(guid@ =~= unsigned_bytes(tuid@));
    guid
}

fn char_of(x: u32, k: u32) -> (r: i8)
    requires
        k < 4,
    ensures
        unsigned(r) == byte_of(x, k as int),
{
    let shifted: u32 = (x >> (8 * k)) & 0xFF;
    assert(k == 0 ==> (x >> (8 * k) as u32) & 0xFF == x % 256) by (bit_vector);
    assert(k == 1 ==> (x >> (8 * k) as u32) & 0xFF == x / 0x100 % 256) by (bit_vector);
    assert(k == 2 ==> (x >> (8 * k) as u32) & 0xFF == x / 0x1_0000 % 256) by (bit_vector);
    assert(k == 3 ==> (x >> (8 * k) as u32) & 0xFF == x / 0x100_0000 % 256) by (bit_vector);
    let byte: u8 = shifted as u8;
    let r: i8 = byte as i8;
    assert(unsigned(byte as i8) == byte) by (bit_vector);
    r
}

/// The identity that four 32-bit words spell, each word most significant
/// byte first.
pub fn uid(a: u32, b: u32, c: u32, d: u32) -> (tuid: TUID)
    ensures
        unsigned_bytes(tuid@) == be_bytes(a) + be_bytes(b) + be_bytes(c) + be_bytes(d),
{
    let tuid: TUID = [
        char_of(a, 3), char_of(a, 2), char_of(a, 1), char_of(a, 0),
        char_of(b, 3), char_of(b, 2), char_of(b, 1), char_of(b, 0),
        char_of(c, 3), char_of(c, 2), char_of(c, 1), char_of(c, 0),
        char_of(d, 3), char_of(d, 2), char_of(d, 1), char_of(d, 0),
    ];
    assert(unsigned_bytes(tuid@) =~= be_bytes(a) + be_bytes(b) + be_bytes(c) + be_bytes(d));
    tuid
}

/// The identity that four 32-bit words spell where identities follow the
/// COM field order: the first word least significant byte first, the two
/// halves of the second word each least significant byte first with the
/// upper half in front, the last two words most significant byte first.
pub fn uid_com(a: u32, b: u32, c: u32, d: u32) -> (tuid: TUID)
    ensures
        unsigned_bytes(tuid@) == le_bytes(a) + seq![
            byte_of(b, 2),
            byte_of(b, 3),
            byte_of(b, 0),
            byte_of(b, 1),
        ] + be_bytes(c) + be_bytes(d),
{
    let tuid: TUID = [
        char_of(a, 0), char_of(a, 1), char_of(a, 2), char_of(a, 3),
        char_of(b, 2), char_of(b, 3), char_of(b, 0), char_of(b, 1),
        char_of(c, 3), char_of(c, 2), char_of(c, 1), char_of(c, 0),
        char_of(d, 3), char_of(d, 2), char_of(d, 1), char_of(d, 0),
    ];
    assert(unsigned_bytes(tuid@) =~= le_bytes(a) + seq![
        byte_of(b, 2),
        byte_of(b, 3),
        byte_of(b, 0),
        byte_of(b, 1),
    ] + be_bytes(c) + be_bytes(d));
    tuid
}

} // verus!
