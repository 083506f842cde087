//! The tagged identifier type and its structural constraints.
//!
//! An [`Identifier`] addresses one unit within a non-fungible resource. It
//! carries exactly one payload matching its variant tag and is immutable once
//! constructed. The constructors enforce the per-variant constraints: a text
//! payload is non-empty, a byte payload holds 1 to 64 bytes, a RUID payload
//! holds exactly 32 bytes, and an integer payload is any unsigned 64-bit
//! value.

use vstd::prelude::*;

verus! {

/// The four kinds of identifier payload.
#[derive(Clone, Copy, Debug, PartialEq, Eq, Structural)]
pub enum IdKind {
    Integer,
    Text,
    Bytes,
    Ruid,
}

/// Mathematical model of an identifier: the variant tag with its payload.
pub enum IdModel {
    Integer(u64),
    Text(Seq<char>),
    Bytes(Seq<u8>),
    Ruid(Seq<u8>),
}

/// Mathematical model of a codec error.
pub enum ErrModel {
    OutOfRange,
    InvalidFormat(IdKind, Seq<char>),
    ConstraintViolation(IdKind),
}

/// A tagged identifier for one unit of a non-fungible resource.
#[derive(Debug, Clone)]
pub enum Identifier {
    /// Any unsigned 64-bit value.
    Integer(u64),
    /// Non-empty text.
    Text(String),
    /// Between 1 and 64 bytes.
    Bytes(Vec<u8>),
    /// Exactly 32 bytes.
    Ruid([u8; 32]),
}

/// An error of the identifier codec.
///
/// All conversions return their error to the immediate caller; the codec
/// never substitutes a default identifier and never panics.
#[derive(Debug, Clone)]
pub enum IdError {
    /// Integer narrowing to 64 bits failed: the value was negative or above
    /// the unsigned 64-bit range.
    OutOfRange,
    /// The text was recognized as a delimited variant but its inner content
    /// failed that variant's decoding. Carries the offending text and the
    /// variant that was being attempted.
    InvalidFormat { kind: IdKind, text: String },
    /// A successfully decoded payload violates the variant's structural
    /// constraint (empty or over-long text, byte length 0 or above 64).
    ConstraintViolation { kind: IdKind },
}

impl View for Identifier {
    type V = IdModel;

    open spec fn view(&self) -> IdModel {
        match self {
            Identifier::Integer(n) => IdModel::Integer(*n),
            Identifier::Text(s) => IdModel::Text(s@),
            Identifier::Bytes(b) => IdModel::Bytes(b@),
            Identifier::Ruid(r) => IdModel::Ruid(r@),
        }
    }
}

impl View for IdError {
    type V = ErrModel;

    open spec fn view(&self) -> ErrModel {
        match self {
            IdError::OutOfRange => ErrModel::OutOfRange,
            IdError::InvalidFormat { kind, text } => ErrModel::InvalidFormat(*kind, text@),
            IdError::ConstraintViolation { kind } => ErrModel::ConstraintViolation(*kind),
        }
    }
}

/// Maps a codec result to its mathematical model.
pub open spec fn res_model(r: Result<Identifier, IdError>) -> Result<IdModel, ErrModel> {
    match r {
        Ok(id) => Ok(id@),
        Err(e) => Err(e@),
    }
}

/// The text-kind constraint: the payload must be non-empty. Any character
/// content is accepted, so that text which fails to close a delimiter pair
/// can always be kept verbatim as ordinary text content.
pub open spec fn valid_text(s: Seq<char>) -> bool {
    s.len() >= 1
}

/// The structural constraint of each identifier variant.
pub open spec fn model_wf(v: IdModel) -> bool {
    match v {
        IdModel::Integer(_) => true,
        IdModel::Text(s) => valid_text(s),
        IdModel::Bytes(b) => 1 <= b.len() && b.len() <= 64,
        IdModel::Ruid(r) => r.len() == 32,
    }
}

/// What constructing a text-kind identifier from `t` yields.
pub open spec fn text_case(t: Seq<char>) -> Result<IdModel, ErrModel> {
    if valid_text(t) {
        Ok(IdModel::Text(t))
    } else {
        Err(ErrModel::ConstraintViolation(IdKind::Text))
    }
}

/// What constructing a bytes-kind identifier from `b` yields.
pub open spec fn bytes_case(b: Seq<u8>) -> Result<IdModel, ErrModel> {
    if 1 <= b.len() && b.len() <= 64 {
        Ok(IdModel::Bytes(b))
    } else {
        Err(ErrModel::ConstraintViolation(IdKind::Bytes))
    }
}

impl Identifier {
    /// Builds an integer-kind identifier; every 64-bit value is accepted.
    pub fn integer(value: u64) -> (r: Identifier)
        ensures
            r@ == IdModel::Integer(value),
    {
        Identifier::Integer(value)
    }

    /// Builds a RUID-kind identifier; every 32-byte value is accepted.
    pub fn ruid(value: [u8; 32]) -> (r: Identifier)
        ensures
            r@ == IdModel::Ruid(value@),
    {
        Identifier::Ruid(value)
    }

    /// Builds a text-kind identifier, rejecting an empty payload.
    pub fn string(value: &str) -> (r: Result<Identifier, IdError>)
        ensures
            res_model(r) == text_case(value@),
    {
        let n = value.unicode_len();
        if n == 0 {
            return Err(IdError::ConstraintViolation { kind: IdKind::Text });
        }
        Ok(Identifier::Text(value.to_owned()))
    }

    /// Builds a bytes-kind identifier, rejecting an empty payload and one of
    /// more than 64 bytes.
    pub fn bytes(value: Vec<u8>) -> (r: Result<Identifier, IdError>)
        ensures
            res_model(r) == bytes_case(value@),
    {
        let n = value.len();
        if n == 0 || n > 64 {
            return Err(IdError::ConstraintViolation { kind: IdKind::Bytes });
        }
        Ok(Identifier::Bytes(value))
    }

    /// Whether this identifier satisfies its variant's structural constraint.
    /// Every constructor establishes it.
    pub open spec fn wf(&self) -> bool {
        model_wf(self@)
    }
}

fn byte_vecs_eq(a: &Vec<u8>, b: &Vec<u8>) -> (r: bool)
    ensures
        r == (a@ == b@),
{
    if a.len() != b.len() {
        return false;
    }
    let mut i: usize = 0;
    while i < a.len()
        invariant
            a@.len() == b@.len(),
            i <= a@.len(),
            forall|j: int| 0 <= j < i ==> a@[j] == b@[j],
        decreases a@.len() - i,
    {
        if a[i] != b[i] {
            return false;
        }
        i = i + 1;
    }
    proof {
        assert(a@ =~= b@);
    }
    true
}

fn byte_arrays_eq(a: &[u8; 32], b: &[u8; 32]) -> (r: bool)
    ensures
        r == (a@ == b@),
{
    let mut i: usize = 0;
    while i < 32
        invariant
            i <= 32,
            forall|j: int| 0 <= j < i ==> a@[j] == b@[j],
        decreases 32 - i,
    {
        if a[i] != b[i] {
            return false;
        }
        i = i + 1;
    }
    proof {
        assert(a@ =~= b@);
    }
    true
}

fn id_eq(x: &Identifier, y: &Identifier) -> (r: bool)
    ensures
        r == (x@ == y@),
{
    match (x, y) {
        (Identifier::Integer(a), Identifier::Integer(b)) => *a == *b,
        (Identifier::Text(a), Identifier::Text(b)) => *a == *b,
        (Identifier::Bytes(a), Identifier::Bytes(b)) => byte_vecs_eq(a, b),
        (Identifier::Ruid(a), Identifier::Ruid(b)) => byte_arrays_eq(a, b),
        _ => false,
    }
}

impl PartialEq for Identifier {
    fn eq(&self, other: &Identifier) -> bool {
        id_eq(self, other)
    }
}

impl vstd::std_specs::cmp::PartialEqSpecImpl for Identifier {
    open spec fn obeys_eq_spec() -> bool {
        true
    }

    open spec fn eq_spec(&self, other: &Identifier) -> bool {
        self@ == other@
    }
}

impl Eq for Identifier {}

impl PartialEq for IdError {
    fn eq(&self, other: &IdError) -> bool {
        match (self, other) {
            (IdError::OutOfRange, IdError::OutOfRange) => true,
            (
                IdError::InvalidFormat { kind: k1, text: t1 },
                IdError::InvalidFormat { kind: k2, text: t2 },
            ) => *k1 == *k2 && *t1 == *t2,
            (
                IdError::ConstraintViolation { kind: k1 },
                IdError::ConstraintViolation { kind: k2 },
            ) => *k1 == *k2,
            _ => false,
        }
    }
}

impl vstd::std_specs::cmp::PartialEqSpecImpl for IdError {
    open spec fn obeys_eq_spec() -> bool {
        true
    }

    open spec fn eq_spec(&self, other: &IdError) -> bool {
        self@ == other@
    }
}

impl Eq for IdError {}

} // verus!
