use vstd::prelude::*;

use crate::errors::ValueError;

verus! {

/// A Bluetooth device address: exactly six bytes.
///
/// A value of this type can only come out of [`BDAddr::from_bytes`], which
/// rejects any input that is not exactly six bytes long, so no partially
/// valid address ever exists.
#[derive(Clone, Copy, Debug, PartialEq, Eq)]
pub struct BDAddr {
    pub address: [u8; 6],
}

impl BDAddr {
    /// Build an address from a byte sequence, failing unless it holds
    /// exactly six bytes. A successful construction keeps the bytes as
    /// given, in order.
    pub fn from_bytes(bytes: &Vec<u8>) -> (r: Result<BDAddr, ValueError>)
        ensures
            bytes@.len() == 6 <==> r is Ok,
            r matches Ok(a) ==> a.address@ == bytes@,
            r matches Err(e) ==> e == ValueError::WrongAddressLength(bytes@.len() as usize),
    {
        if bytes.len() == 6 {
            let address: [u8; 6] = [bytes[0], bytes[1], bytes[2], bytes[3], bytes[4], bytes[5]];
            let a = BDAddr { address };
            proof {
                assert(a.address@ =~= bytes@);
            }
            Ok(a)
        } else {
            Err(ValueError::WrongAddressLength(bytes.len()))
        }
    }

    /// The six bytes of the address, in the order they were supplied.
    pub fn to_bytes(&self) -> (r: Vec<u8>)
        ensures
            r@ == self.address@,
    {
        let mut r: Vec<u8> = Vec::new();
        r.push(self.address[0]);
        r.push(self.address[1]);
        r.push(self.address[2]);
        r.push(self.address[3]);
        r.push(self.address[4]);
        r.push(self.address[5]);
        proof {
            assert(r@ =~= self.address@);
        }
        r
    }
}

/// A 128-bit identifier, as used for GATT services and characteristics.
#[derive(Clone, Copy, Debug, PartialEq, Eq, Structural)]
pub struct Uuid {
    pub value: u128,
}

impl Uuid {
    /// Build an identifier from a 128-bit unsigned value. Every value of
    /// `u128` lies in range, so construction cannot fail.
    pub fn from_u128(value: u128) -> (r: Uuid)
        ensures
            r.value == value,
    {
        Uuid { value }
    }
}

/// The named access properties a GATT characteristic can advertise.
#[derive(Clone, Copy, Debug, PartialEq, Eq, Structural)]
pub enum CharProp {
    Broadcast,
    Read,
    WriteWithoutResponse,
    Write,
    Notify,
    Indicate,
    AuthenticatedSignedWrites,
    ExtendedProperties,
}

impl CharProp {
    /// The bit this property occupies in a flag set.
    pub open spec fn spec_bit(self) -> u8 {
        match self {
            CharProp::Broadcast => 0x01,
            CharProp::Read => 0x02,
            CharProp::WriteWithoutResponse => 0x04,
            CharProp::Write => 0x08,
            CharProp::Notify => 0x10,
            CharProp::Indicate => 0x20,
            CharProp::AuthenticatedSignedWrites => 0x40,
            CharProp::ExtendedProperties => 0x80,
        }
    }

    pub fn bit(self) -> (r: u8)
        ensures
            r == self.spec_bit(),
    {
        match self {
            CharProp::Broadcast => 0x01,
            CharProp::Read => 0x02,
            CharProp::WriteWithoutResponse => 0x04,
            CharProp::Write => 0x08,
            CharProp::Notify => 0x10,
            CharProp::Indicate => 0x20,
            CharProp::AuthenticatedSignedWrites => 0x40,
            CharProp::ExtendedProperties => 0x80,
        }
    }
}

/// Distinct properties occupy distinct bits, so testing one property's bit
/// against another's yields a hit exactly when they are the same property.
proof fn lemma_bits_discriminate(p: CharProp, q: CharProp)
    ensures
        (p.spec_bit() & q.spec_bit() != 0) <==> p == q,
{
    let x = p.spec_bit();
    let y = q.spec_bit();
    assert(((x == 0x01 || x == 0x02 || x == 0x04 || x == 0x08 || x == 0x10 || x == 0x20 || x
        == 0x40 || x == 0x80) && (y == 0x01 || y == 0x02 || y == 0x04 || y == 0x08 || y == 0x10
        || y == 0x20 || y == 0x40 || y == 0x80)) ==> ((x & y != 0) <==> x == y))
        by (bit_vector);
}

/// A set of characteristic access properties, kept as the bitwise union of
/// the named flags it was built from.
#[derive(Clone, Copy, Debug, PartialEq, Eq, Structural)]
pub struct CharPropFlags {
    pub bits: u8,
}

impl CharPropFlags {
    /// Membership: the property's bit is set.
    pub open spec fn spec_contains(self, p: CharProp) -> bool {
        self.bits & p.spec_bit() != 0
    }

    /// The set with no properties.
    pub fn empty() -> (r: CharPropFlags)
        ensures
            r.bits == 0,
            forall|p: CharProp| !r.spec_contains(p),
    {
        let r = CharPropFlags { bits: 0 };
        proof {
            assert forall|p: CharProp| !r.spec_contains(p) by {
                let y = p.spec_bit();
                assert(0u8 & y == 0) by (bit_vector);
            }
        }
        r
    }

    /// Build a set as the union of exactly the supplied flags: membership
    /// holds for a property just when it occurs in `flags`.
    pub fn from_flags(flags: &Vec<CharProp>) -> (r: CharPropFlags)
        ensures
            forall|p: CharProp| r.spec_contains(p) <==> flags@.contains(p),
    {
        let mut bits: u8 = 0;
        proof {
            assert forall|p: CharProp| !((CharPropFlags { bits: 0u8 }).spec_contains(p)) by {
                let y = p.spec_bit();
                assert(0u8 & y == 0) by (bit_vector);
            }
        }
        let mut i: usize = 0;
        while i < flags.len()
            invariant
                i <= flags@.len(),
                forall|p: CharProp|
                    ((CharPropFlags { bits }).spec_contains(p) <==> flags@.take(i as int).contains(
                        p,
                    )),
            decreases flags@.len() - i,
        {
            let f = flags[i];
            let b = f.bit();
            let old_bits: Ghost<u8> = Ghost(bits);
            bits = bits | b;
            proof {
                assert forall|p: CharProp|
                    ((CharPropFlags { bits }).spec_contains(p) <==> flags@.take(
                        i + 1,
                    ).contains(p)) by {
                    let y = p.spec_bit();
                    let a = old_bits@;
                    assert(((a | b) & y != 0) <==> (a & y != 0 || b & y != 0)) by (bit_vector);
                    lemma_bits_discriminate(f, p);
                    if a & y != 0 {
                        assert((CharPropFlags { bits: a }).spec_contains(p));
                        assert(flags@.take(i as int).contains(p));
                        let j = choose|j: int|
                            0 <= j < i && #[trigger] flags@.take(i as int)[j] == p;
                        assert(flags@.take(i + 1)[j] == p);
                        assert(flags@.take(i + 1).contains(p));
                    } else if b & y != 0 {
                        assert(p == f);
                        assert(flags@.take(i + 1)[i as int] == p);
                        assert(flags@.take(i + 1).contains(p));
                    } else {
                        if flags@.take(i + 1).contains(p) {
                            let j = choose|j: int|
                                0 <= j < i + 1 && #[trigger] flags@.take(i + 1)[j] == p;
                            if j < i {
                                assert(flags@.take(i as int)[j] == p);
                                assert(flags@.take(i as int).contains(p));
                                assert((CharPropFlags { bits: a }).spec_contains(p));
                            } else {
                                assert(flags@.take(i + 1)[i as int] == f);
                                assert(p == f);
                            }
                            assert(false);
                        }
                        assert(!(CharPropFlags { bits }).spec_contains(p));
                    }
                }
            }
            i = i + 1;
        }
        proof {
            assert(flags@.take(flags@.len() as int) =~= flags@);
        }
        CharPropFlags { bits }
    }

    /// Whether the set holds the given property.
    pub fn contains(&self, p: CharProp) -> (r: bool)
        ensures
            r == self.spec_contains(p),
    {
        self.bits & p.bit() != 0
    }

    /// The union of two sets: membership in either.
    pub fn union(self, other: CharPropFlags) -> (r: CharPropFlags)
        ensures
            forall|p: CharProp|
                r.spec_contains(p) <==> (self.spec_contains(p) || other.spec_contains(p)),
    {
        let r = CharPropFlags { bits: self.bits | other.bits };
        proof {
            assert forall|p: CharProp|
                (r.spec_contains(p) <==> (self.spec_contains(p) || other.spec_contains(
                    p,
                ))) by {
                let y = p.spec_bit();
                let a = self.bits;
                let b = other.bits;
                assert(((a | b) & y != 0) <==> (a & y != 0 || b & y != 0)) by (bit_vector);
            }
        }
        r
    }
}

/// A GATT characteristic descriptor: the characteristic's identifier, the
/// identifier of its owning service, and its access properties.
#[derive(Clone, Copy, Debug, PartialEq, Eq, Structural)]
pub struct Characteristic {
    pub uuid: Uuid,
    pub service_uuid: Uuid,
    pub properties: CharPropFlags,
}

impl Characteristic {
    /// Group the two identifiers and the property set into a descriptor.
    pub fn new(uuid: u128, service_uuid: u128, properties: CharPropFlags) -> (r: Characteristic)
        ensures
            r.uuid.value == uuid,
            r.service_uuid.value == service_uuid,
            r.properties == properties,
    {
        Characteristic { uuid: Uuid::from_u128(uuid), service_uuid: Uuid::from_u128(service_uuid), properties }
    }
}

} // verus!
