use ble_find::errors::ValueError;
use ble_find::values::{BDAddr, CharProp, CharPropFlags, Characteristic, Uuid};

const ALL_PROPS: [CharProp; 8] = [
    CharProp::Broadcast,
    CharProp::Read,
    CharProp::WriteWithoutResponse,
    CharProp::Write,
    CharProp::Notify,
    CharProp::Indicate,
    CharProp::AuthenticatedSignedWrites,
    CharProp::ExtendedProperties,
];

#[test]
fn six_byte_address_round_trips() {
    let bytes = vec![0x12u8, 0x34, 0x56, 0x78, 0x9a, 0xbc];
    let addr = BDAddr::from_bytes(&bytes).unwrap();
    assert_eq!(addr.address, [0x12, 0x34, 0x56, 0x78, 0x9a, 0xbc]);
    assert_eq!(addr.to_bytes(), bytes);
}

#[test]
fn five_byte_address_fails_construction() {
    let bytes = vec![1u8, 2, 3, 4, 5];
    let err = BDAddr::from_bytes(&bytes).unwrap_err();
    assert_eq!(err, ValueError::WrongAddressLength(5));
}

#[test]
fn seven_byte_address_fails_construction() {
    let bytes = vec![1u8, 2, 3, 4, 5, 6, 7];
    let err = BDAddr::from_bytes(&bytes).unwrap_err();
    assert_eq!(err, ValueError::WrongAddressLength(7));
}

#[test]
fn all_zero_address_is_valid() {
    let addr = BDAddr::from_bytes(&vec![0u8; 6]).unwrap();
    assert_eq!(addr.to_bytes(), vec![0u8; 6]);
}

#[test]
fn uuid_keeps_its_value() {
    let id = Uuid::from_u128(0x12345678_9012_3456_7890_123456789012u128);
    assert_eq!(id.value, 0x12345678_9012_3456_7890_123456789012u128);
    assert_eq!(Uuid::from_u128(u128::MAX).value, u128::MAX);
}

#[test]
fn read_notify_set_contains_exactly_read_and_notify() {
    let flags = CharPropFlags::from_flags(&vec![CharProp::Read, CharProp::Notify]);
    for p in ALL_PROPS {
        let expected = p == CharProp::Read || p == CharProp::Notify;
        assert_eq!(flags.contains(p), expected);
    }
}

#[test]
fn no_flags_yield_the_empty_set() {
    let flags = CharPropFlags::from_flags(&Vec::new());
    assert_eq!(flags, CharPropFlags::empty());
    for p in ALL_PROPS {
        assert!(!flags.contains(p));
    }
}

#[test]
fn duplicate_flags_change_nothing() {
    let once = CharPropFlags::from_flags(&vec![CharProp::Write]);
    let twice = CharPropFlags::from_flags(&vec![CharProp::Write, CharProp::Write]);
    assert_eq!(once, twice);
}

#[test]
fn union_holds_members_of_either_set() {
    let a = CharPropFlags::from_flags(&vec![CharProp::Broadcast]);
    let b = CharPropFlags::from_flags(&vec![CharProp::Indicate]);
    let u = a.union(b);
    assert!(u.contains(CharProp::Broadcast));
    assert!(u.contains(CharProp::Indicate));
    assert!(!u.contains(CharProp::Read));
}

#[test]
fn characteristic_groups_its_parts() {
    let props = CharPropFlags::from_flags(&vec![CharProp::Read, CharProp::Notify]);
    let ch = Characteristic::new(0x1111u128, 0x2222u128, props);
    assert_eq!(ch.uuid, Uuid::from_u128(0x1111u128));
    assert_eq!(ch.service_uuid, Uuid::from_u128(0x2222u128));
    assert_eq!(ch.properties, props);
}
