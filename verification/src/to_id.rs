//! Conversion of native values into identifiers.
//!
//! [`ToId`] is the single polymorphic entry point of the codec: every
//! supported source kind converts through `to_id`, and each implementation
//! carries the exact statement ([`ToId::id_model`]) of what it yields.
//! Integer widths share one narrowing routine; textual values are routed
//! through the canonical-text parser; the four kind-tagged wrappers map
//! directly to their variants.

use vstd::prelude::*;

use crate::identifier::{bytes_case, res_model, text_case, ErrModel, IdError, IdModel, Identifier};
use crate::text::{parse_model, parse_text};

verus! {

/// Conversion of a native value into a tagged identifier.
///
/// `id_model` states, per source kind, the exact outcome of `to_id`; the
/// executable conversion is proved to match it.
pub trait ToId: Sized {
    /// What converting this value yields, as a mathematical model.
    spec fn id_model(&self) -> Result<IdModel, ErrModel>;

    /// Converts this value into an identifier, or reports why it cannot be
    /// one.
    fn to_id(self) -> (r: Result<Identifier, IdError>)
        ensures
            res_model(r) == self.id_model(),
    ;
}

/// What narrowing a possibly-signed 128-bit value to the unsigned 64-bit
/// integer payload yields: the value itself when it is in range, and an
/// out-of-range error when it is negative or too large.
pub open spec fn narrow_model(v: int) -> Result<IdModel, ErrModel> {
    if 0 <= v <= u64::MAX {
        Ok(IdModel::Integer(v as u64))
    } else {
        Err(ErrModel::OutOfRange)
    }
}

/// The shared narrowing routine for the signed integer widths.
fn narrow_signed(v: i128) -> (r: Result<Identifier, IdError>)
    ensures
        res_model(r) == narrow_model(v as int),
{
    if v < 0 {
        Err(IdError::OutOfRange)
    } else if v > u64::MAX as i128 {
        Err(IdError::OutOfRange)
    } else {
        Ok(Identifier::integer(v as u64))
    }
}

/// The shared narrowing routine for the unsigned integer widths.
fn narrow_unsigned(v: u128) -> (r: Result<Identifier, IdError>)
    ensures
        res_model(r) == narrow_model(v as int),
{
    if v > u64::MAX as u128 {
        Err(IdError::OutOfRange)
    } else {
        Ok(Identifier::integer(v as u64))
    }
}

impl ToId for Identifier {
    /// An already-tagged identifier converts to itself.
    open spec fn id_model(&self) -> Result<IdModel, ErrModel> {
        Ok(self@)
    }

    fn to_id(self) -> (r: Result<Identifier, IdError>) {
        Ok(self)
    }
}

impl ToId for Vec<u8> {
    /// A byte sequence becomes a bytes-kind identifier under its structural
    /// constraint.
    open spec fn id_model(&self) -> Result<IdModel, ErrModel> {
        bytes_case(self@)
    }

    fn to_id(self) -> (r: Result<Identifier, IdError>) {
        Identifier::bytes(self)
    }
}

impl ToId for [u8; 32] {
    /// A fixed 32-byte sequence becomes a RUID-kind identifier.
    open spec fn id_model(&self) -> Result<IdModel, ErrModel> {
        Ok(IdModel::Ruid(self@))
    }

    fn to_id(self) -> (r: Result<Identifier, IdError>) {
        Ok(Identifier::ruid(self))
    }
}

impl ToId for String {
    /// An owned text routes through the canonical-text parser.
    open spec fn id_model(&self) -> Result<IdModel, ErrModel> {
        parse_model(self@)
    }

    fn to_id(self) -> (r: Result<Identifier, IdError>) {
        parse_text(self.as_str())
    }
}

impl ToId for &str {
    /// A text reference routes through the canonical-text parser.
    open spec fn id_model(&self) -> Result<IdModel, ErrModel> {
        parse_model(self@)
    }

    fn to_id(self) -> (r: Result<Identifier, IdError>) {
        parse_text(self)
    }
}

impl ToId for u8 {
    open spec fn id_model(&self) -> Result<IdModel, ErrModel> {
        narrow_model(*self as int)
    }

    fn to_id(self) -> (r: Result<Identifier, IdError>) {
        narrow_unsigned(self as u128)
    }
}

impl ToId for u16 {
    open spec fn id_model(&self) -> Result<IdModel, ErrModel> {
        narrow_model(*self as int)
    }

    fn to_id(self) -> (r: Result<Identifier, IdError>) {
        narrow_unsigned(self as u128)
    }
}

impl ToId for u32 {
    open spec fn id_model(&self) -> Result<IdModel, ErrModel> {
        narrow_model(*self as int)
    }

    fn to_id(self) -> (r: Result<Identifier, IdError>) {
        narrow_unsigned(self as u128)
    }
}

impl ToId for u64 {
    open spec fn id_model(&self) -> Result<IdModel, ErrModel> {
        narrow_model(*self as int)
    }

    fn to_id(self) -> (r: Result<Identifier, IdError>) {
        narrow_unsigned(self as u128)
    }
}

impl ToId for u128 {
    open spec fn id_model(&self) -> Result<IdModel, ErrModel> {
        narrow_model(*self as int)
    }

    fn to_id(self) -> (r: Result<Identifier, IdError>) {
        narrow_unsigned(self)
    }
}

impl ToId for i8 {
    open spec fn id_model(&self) -> Result<IdModel, ErrModel> {
        narrow_model(*self as int)
    }

    fn to_id(self) -> (r: Result<Identifier, IdError>) {
        narrow_signed(self as i128)
    }
}

impl ToId for i16 {
    open spec fn id_model(&self) -> Result<IdModel, ErrModel> {
        narrow_model(*self as int)
    }

    fn to_id(self) -> (r: Result<Identifier, IdError>) {
        narrow_signed(self as i128)
    }
}

impl ToId for i32 {
    open spec fn id_model(&self) -> Result<IdModel, ErrModel> {
        narrow_model(*self as int)
    }

    fn to_id(self) -> (r: Result<Identifier, IdError>) {
        narrow_signed(self as i128)
    }
}

impl ToId for i64 {
    open spec fn id_model(&self) -> Result<IdModel, ErrModel> {
        narrow_model(*self as int)
    }

    fn to_id(self) -> (r: Result<Identifier, IdError>) {
        narrow_signed(self as i128)
    }
}

impl ToId for i128 {
    open spec fn id_model(&self) -> Result<IdModel, ErrModel> {
        narrow_model(*self as int)
    }

    fn to_id(self) -> (r: Result<Identifier, IdError>) {
        narrow_signed(self)
    }
}

/// A value already known to be an integer-kind identifier payload.
#[derive(Clone, Copy, Debug)]
pub struct IntegerId(pub u64);

/// A value already known to be a text-kind identifier payload; `to_id`
/// holds it to the text constraint but never parses it for delimiters.
#[derive(Clone, Debug)]
pub struct StringId(pub String);

/// A value already known to be a bytes-kind identifier payload.
#[derive(Clone, Debug)]
pub struct BytesId(pub Vec<u8>);

/// A value already known to be a RUID-kind identifier payload.
#[derive(Clone, Copy, Debug)]
pub struct RuidId(pub [u8; 32]);

impl ToId for IntegerId {
    open spec fn id_model(&self) -> Result<IdModel, ErrModel> {
        Ok(IdModel::Integer(self.0))
    }

    fn to_id(self) -> (r: Result<Identifier, IdError>) {
        Ok(Identifier::integer(self.0))
    }
}

impl ToId for StringId {
    open spec fn id_model(&self) -> Result<IdModel, ErrModel> {
        text_case(self.0@)
    }

    fn to_id(self) -> (r: Result<Identifier, IdError>) {
        Identifier::string(self.0.as_str())
    }
}

impl ToId for BytesId {
    open spec fn id_model(&self) -> Result<IdModel, ErrModel> {
        bytes_case(self.0@)
    }

    fn to_id(self) -> (r: Result<Identifier, IdError>) {
        Identifier::bytes(self.0)
    }
}

impl ToId for RuidId {
    open spec fn id_model(&self) -> Result<IdModel, ErrModel> {
        Ok(IdModel::Ruid(self.0@))
    }

    fn to_id(self) -> (r: Result<Identifier, IdError>) {
        Ok(Identifier::ruid(self.0))
    }
}

} // verus!
