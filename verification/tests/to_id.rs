use test_engine::identifier::{IdError, IdKind, Identifier};
use test_engine::to_id::{BytesId, IntegerId, RuidId, StringId, ToId};

#[test]
fn test_nf_ids_int() {
    assert_eq!((12 as u8).to_id(), Ok(Identifier::integer(12 as u64)));
    assert_eq!((12 as u16).to_id(), Ok(Identifier::integer(12 as u64)));
    assert_eq!((12 as u32).to_id(), Ok(Identifier::integer(12 as u64)));
    assert_eq!((12 as u64).to_id(), Ok(Identifier::integer(12 as u64)));
    assert_eq!((12 as u128).to_id(), Ok(Identifier::integer(12 as u64)));
    assert_eq!((12 as i8).to_id(), Ok(Identifier::integer(12 as u64)));
    assert_eq!((12 as i16).to_id(), Ok(Identifier::integer(12 as u64)));
    assert_eq!((12 as i32).to_id(), Ok(Identifier::integer(12 as u64)));
    assert_eq!((12 as i64).to_id(), Ok(Identifier::integer(12 as u64)));
    assert_eq!((12 as i128).to_id(), Ok(Identifier::integer(12 as u64)));
}

#[test]
fn test_nf_ids_from_string() {
    let str_1 = "#1#";
    let str_2 = "<SomeId>";
    let str_3 = "blabla";

    assert_eq!(str_1.to_id(), Ok(Identifier::integer(1u64)));
    assert_eq!(str_2.to_id(), Ok(Identifier::string("SomeId").unwrap()));
    assert_eq!(str_3.to_id(), Ok(Identifier::string("blabla").unwrap()))
}

#[test]
fn narrowing_rejects_negative() {
    assert_eq!((-1i64).to_id(), Err(IdError::OutOfRange));
    assert_eq!((-1i8).to_id(), Err(IdError::OutOfRange));
    assert_eq!((-1i128).to_id(), Err(IdError::OutOfRange));
}

#[test]
fn narrowing_accepts_full_range() {
    assert_eq!((255u8).to_id(), Ok(Identifier::integer(255)));
    assert_eq!(u64::MAX.to_id(), Ok(Identifier::integer(u64::MAX)));
    assert_eq!((u64::MAX as u128).to_id(), Ok(Identifier::integer(u64::MAX)));
    assert_eq!((u64::MAX as i128).to_id(), Ok(Identifier::integer(u64::MAX)));
}

#[test]
fn narrowing_rejects_overflow() {
    assert_eq!(u128::MAX.to_id(), Err(IdError::OutOfRange));
    assert_eq!((u64::MAX as u128 + 1).to_id(), Err(IdError::OutOfRange));
    assert_eq!((u64::MAX as i128 + 1).to_id(), Err(IdError::OutOfRange));
}

#[test]
fn identity_conversion() {
    let id = Identifier::integer(7);
    assert_eq!(id.clone().to_id(), Ok(id));
}

#[test]
fn byte_vec_conversion() {
    assert_eq!(
        vec![0xDEu8, 0xAD].to_id(),
        Ok(Identifier::bytes(vec![0xDEu8, 0xAD]).unwrap())
    );
    let empty: Vec<u8> = Vec::new();
    assert_eq!(
        empty.to_id(),
        Err(IdError::ConstraintViolation { kind: IdKind::Bytes })
    );
    let long: Vec<u8> = vec![0u8; 65];
    assert_eq!(
        long.to_id(),
        Err(IdError::ConstraintViolation { kind: IdKind::Bytes })
    );
    let at_bound: Vec<u8> = vec![0u8; 64];
    assert_eq!(
        at_bound.clone().to_id(),
        Ok(Identifier::bytes(at_bound).unwrap())
    );
}

#[test]
fn ruid_array_conversion() {
    assert_eq!([0u8; 32].to_id(), Ok(Identifier::ruid([0u8; 32])));
}

#[test]
fn kind_tagged_wrappers() {
    assert_eq!(IntegerId(9).to_id(), Ok(Identifier::integer(9)));
    assert_eq!(
        StringId(String::from("SomeId")).to_id(),
        Ok(Identifier::string("SomeId").unwrap())
    );
    // A wrapper maps directly to its variant: delimiters are not parsed.
    assert_eq!(
        StringId(String::from("#1#")).to_id(),
        Ok(Identifier::string("#1#").unwrap())
    );
    assert_eq!(
        BytesId(vec![1u8, 2, 3]).to_id(),
        Ok(Identifier::bytes(vec![1u8, 2, 3]).unwrap())
    );
    assert_eq!(RuidId([7u8; 32]).to_id(), Ok(Identifier::ruid([7u8; 32])));
}

#[test]
fn empty_string_is_rejected() {
    assert_eq!(
        String::new().to_id(),
        Err(IdError::ConstraintViolation { kind: IdKind::Text })
    );
    assert_eq!(
        StringId(String::new()).to_id(),
        Err(IdError::ConstraintViolation { kind: IdKind::Text })
    );
}

#[test]
fn identifier_equality_is_structural() {
    assert_eq!(Identifier::integer(1), Identifier::integer(1));
    assert_ne!(Identifier::integer(1), Identifier::integer(2));
    assert_ne!(
        Identifier::integer(1),
        Identifier::string("1").unwrap()
    );
    assert_eq!(
        Identifier::bytes(vec![1u8, 2]).unwrap(),
        Identifier::bytes(vec![1u8, 2]).unwrap()
    );
    assert_ne!(
        Identifier::bytes(vec![1u8, 2]).unwrap(),
        Identifier::bytes(vec![1u8, 3]).unwrap()
    );
    assert_eq!(Identifier::ruid([5u8; 32]), Identifier::ruid([5u8; 32]));
    assert_ne!(Identifier::ruid([5u8; 32]), Identifier::ruid([6u8; 32]));
}
