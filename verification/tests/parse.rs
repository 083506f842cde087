use test_engine::identifier::{IdError, IdKind, Identifier};
use test_engine::text::parse_text;

fn hex_of(bytes: &[u8]) -> String {
    let mut out = String::new();
    for b in bytes {
        out.push_str(&format!("{:02x}", b));
    }
    out
}

#[test]
fn parse_integer_simple() {
    assert_eq!(parse_text("#1#"), Ok(Identifier::integer(1)));
    assert_eq!(parse_text("#0#"), Ok(Identifier::integer(0)));
    assert_eq!(parse_text("#42#"), Ok(Identifier::integer(42)));
}

#[test]
fn parse_integer_round_trip_at_bounds() {
    let text = format!("#{}#", u64::MAX);
    assert_eq!(parse_text(&text), Ok(Identifier::integer(u64::MAX)));
}

#[test]
fn parse_integer_accepts_leading_plus() {
    // The inner content is parsed as the standard unsigned integer parser
    // would parse it, which allows one leading plus sign.
    assert_eq!(parse_text("#+5#"), Ok(Identifier::integer(5)));
}

#[test]
fn parse_integer_overflow_is_format_error() {
    assert_eq!(
        parse_text("#18446744073709551616#"),
        Err(IdError::InvalidFormat {
            kind: IdKind::Integer,
            text: String::from("#18446744073709551616#"),
        })
    );
}

#[test]
fn parse_integer_non_numeric_is_format_error() {
    assert_eq!(
        parse_text("#abc#"),
        Err(IdError::InvalidFormat {
            kind: IdKind::Integer,
            text: String::from("#abc#"),
        })
    );
}

#[test]
fn parse_lone_hash_falls_back_to_text() {
    assert_eq!(parse_text("#"), Ok(Identifier::string("#").unwrap()));
    assert_eq!(parse_text("##"), Ok(Identifier::string("##").unwrap()));
    assert_eq!(parse_text("#12"), Ok(Identifier::string("#12").unwrap()));
}

#[test]
fn parse_angle_brackets_strip_to_text() {
    assert_eq!(parse_text("<SomeId>"), Ok(Identifier::string("SomeId").unwrap()));
    assert_eq!(parse_text("<a>"), Ok(Identifier::string("a").unwrap()));
}

#[test]
fn parse_angle_bracket_equivalence() {
    let bare = parse_text("SomeId");
    let wrapped = parse_text("<SomeId>");
    assert_eq!(bare, wrapped);
    assert_eq!(bare, Ok(Identifier::string("SomeId").unwrap()));
}

#[test]
fn parse_unclosed_angle_kept_verbatim() {
    assert_eq!(parse_text("<>"), Ok(Identifier::string("<>").unwrap()));
    assert_eq!(parse_text("<abc"), Ok(Identifier::string("<abc").unwrap()));
}

#[test]
fn parse_plain_text() {
    assert_eq!(parse_text("blabla"), Ok(Identifier::string("blabla").unwrap()));
}

#[test]
fn parse_empty_text_is_constraint_violation() {
    assert_eq!(
        parse_text(""),
        Err(IdError::ConstraintViolation { kind: IdKind::Text })
    );
}

#[test]
fn parse_bytes_round_trip() {
    assert_eq!(
        parse_text("[dead]"),
        Ok(Identifier::bytes(vec![0xDEu8, 0xAD]).unwrap())
    );
    let payload: Vec<u8> = (0u8..64).collect();
    let text = format!("[{}]", hex_of(&payload));
    assert_eq!(parse_text(&text), Ok(Identifier::bytes(payload).unwrap()));
}

#[test]
fn parse_bytes_hex_is_case_insensitive() {
    assert_eq!(
        parse_text("[DeAd]"),
        Ok(Identifier::bytes(vec![0xDEu8, 0xAD]).unwrap())
    );
}

#[test]
fn parse_bytes_odd_length_is_format_error() {
    assert_eq!(
        parse_text("[abc]"),
        Err(IdError::InvalidFormat {
            kind: IdKind::Bytes,
            text: String::from("[abc]"),
        })
    );
}

#[test]
fn parse_bytes_bad_digit_is_format_error() {
    assert_eq!(
        parse_text("[zz]"),
        Err(IdError::InvalidFormat {
            kind: IdKind::Bytes,
            text: String::from("[zz]"),
        })
    );
}

#[test]
fn parse_bytes_over_bound_is_constraint_violation() {
    let payload: Vec<u8> = vec![0xABu8; 65];
    let text = format!("[{}]", hex_of(&payload));
    assert_eq!(
        parse_text(&text),
        Err(IdError::ConstraintViolation { kind: IdKind::Bytes })
    );
}

#[test]
fn parse_unclosed_bracket_falls_back_to_text() {
    assert_eq!(parse_text("[]"), Ok(Identifier::string("[]").unwrap()));
    assert_eq!(parse_text("[dead"), Ok(Identifier::string("[dead").unwrap()));
}

#[test]
fn parse_ruid_round_trip_with_dashes() {
    let payload: [u8; 32] = [
        0x1Fu8, 0x52, 0xCB, 0x1E, 0x86, 0xDE, 0x82, 0xD8, 0x40, 0x08, 0x33, 0x4E, 0x4B, 0x9A,
        0x54, 0x63, 0x55, 0x00, 0xFF, 0x11, 0x22, 0x33, 0x44, 0x55, 0x66, 0x77, 0x88, 0x99,
        0xAA, 0xBB, 0xCC, 0xDD,
    ];
    let hex = hex_of(&payload);
    let text = format!(
        "{{{}-{}-{}-{}}}",
        &hex[0..16],
        &hex[16..32],
        &hex[32..48],
        &hex[48..64]
    );
    assert_eq!(parse_text(&text), Ok(Identifier::ruid(payload)));
}

#[test]
fn parse_ruid_without_dashes() {
    let payload = [0x5Au8; 32];
    let text = format!("{{{}}}", hex_of(&payload));
    assert_eq!(parse_text(&text), Ok(Identifier::ruid(payload)));
}

#[test]
fn parse_ruid_wrong_length_is_format_error() {
    assert_eq!(
        parse_text("{abcd}"),
        Err(IdError::InvalidFormat {
            kind: IdKind::Ruid,
            text: String::from("{abcd}"),
        })
    );
}

#[test]
fn parse_ruid_bad_digit_is_format_error() {
    let text = format!("{{{}}}", "g".repeat(64));
    assert_eq!(
        parse_text(&text),
        Err(IdError::InvalidFormat {
            kind: IdKind::Ruid,
            text: text.clone(),
        })
    );
}

#[test]
fn parse_unclosed_brace_falls_back_to_text() {
    assert_eq!(parse_text("{}"), Ok(Identifier::string("{}").unwrap()));
    assert_eq!(parse_text("{abc"), Ok(Identifier::string("{abc").unwrap()));
}
