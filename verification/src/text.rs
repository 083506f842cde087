//! The canonical-text parser of the identifier codec.
//!
//! The grammar recognizes four delimiter pairs, each signaling one variant:
//! `<...>` for text, `#...#` for integers, `[...]` for bytes and `{...}` for
//! RUIDs. Text that merely starts with a trigger character but does not close
//! correctly is not an error: it falls back to ordinary text content. The
//! whole grammar is written down as spec functions ([`parse_model`]) and the
//! executable parser is proved to follow them exactly.

use vstd::prelude::*;

use crate::identifier::{
    bytes_case, model_wf, res_model, text_case, ErrModel, IdError, IdKind, IdModel, Identifier,
};

verus! {

// ===== Decimal integers =====

/// Whether `c` is a decimal digit `0-9`.
pub open spec fn is_dec_digit(c: char) -> bool {
    48 <= c as u32 && c as u32 <= 57
}

/// The value of a decimal digit.
pub open spec fn dec_digit_val(c: char) -> int {
    c as u32 - 48
}

pub open spec fn all_dec_digits(s: Seq<char>) -> bool {
    forall|i: int| 0 <= i < s.len() ==> is_dec_digit(s[i])
}

/// The number denoted by a big-endian sequence of decimal digits.
pub open spec fn dec_val(s: Seq<char>) -> int
    decreases s.len(),
{
    if s.len() == 0 {
        0
    } else {
        dec_val(s.drop_last()) * 10 + dec_digit_val(s.last())
    }
}

/// The digit run of a decimal literal: an optional leading `+` is allowed,
/// as in the unsigned integer parser of the standard library.
pub open spec fn dec_digits_of(s: Seq<char>) -> Seq<char> {
    if s.len() > 0 && s[0] == '+' {
        s.subrange(1, s.len() as int)
    } else {
        s
    }
}

/// Whether `s` denotes an unsigned 64-bit decimal integer.
pub open spec fn dec_parse_ok(s: Seq<char>) -> bool {
    let d = dec_digits_of(s);
    d.len() > 0 && all_dec_digits(d) && dec_val(d) <= u64::MAX
}

// ===== Hexadecimal =====

/// Whether `c` is a hexadecimal digit, either case.
pub open spec fn is_hex_digit(c: char) -> bool {
    is_dec_digit(c) || (97 <= c as u32 && c as u32 <= 102) || (65 <= c as u32 && c as u32 <= 70)
}

/// The value of a hexadecimal digit (0 for a character that is none).
pub open spec fn hex_digit_val(c: char) -> int {
    let u = c as u32;
    if 48 <= u && u <= 57 {
        u - 48
    } else if 97 <= u && u <= 102 {
        u - 87
    } else if 65 <= u && u <= 70 {
        u - 55
    } else {
        0
    }
}

pub open spec fn all_hex_digits(s: Seq<char>) -> bool {
    forall|i: int| 0 <= i < s.len() ==> is_hex_digit(s[i])
}

/// The bytes denoted by a sequence of hexadecimal digits, two digits per
/// byte, high digit first.
pub open spec fn hex_decode(s: Seq<char>) -> Seq<u8>
    decreases s.len(),
{
    if s.len() < 2 {
        Seq::empty()
    } else {
        seq![((hex_digit_val(s[0]) * 16 + hex_digit_val(s[1])) as u8)]
            + hex_decode(s.subrange(2, s.len() as int))
    }
}

/// `s` with every hyphen removed.
pub open spec fn strip_dashes(s: Seq<char>) -> Seq<char>
    decreases s.len(),
{
    if s.len() == 0 {
        Seq::empty()
    } else if s.last() == '-' {
        strip_dashes(s.drop_last())
    } else {
        strip_dashes(s.drop_last()).push(s.last())
    }
}

// ===== The grammar =====

/// Whether `s` is wrapped in the given delimiter pair with at least one
/// character between the delimiters.
pub open spec fn delimited(s: Seq<char>, open_c: char, close_c: char) -> bool {
    s.len() >= 3 && s[0] == open_c && s[s.len() - 1] == close_c
}

/// The content between the first and the last character.
pub open spec fn inner(s: Seq<char>) -> Seq<char> {
    s.subrange(1, s.len() - 1)
}

/// The `#...#` rule: the inner content must denote an unsigned 64-bit
/// decimal integer; anything else is a format error naming the whole text.
pub open spec fn integer_case(s: Seq<char>) -> Result<IdModel, ErrModel> {
    if dec_parse_ok(inner(s)) {
        Ok(IdModel::Integer(dec_val(dec_digits_of(inner(s))) as u64))
    } else {
        Err(ErrModel::InvalidFormat(IdKind::Integer, s))
    }
}

/// The `[...]` rule: the inner content must be well-formed hex; the decoded
/// bytes are then held to the bytes-kind structural constraint.
pub open spec fn bytes_delim_case(s: Seq<char>) -> Result<IdModel, ErrModel> {
    let h = inner(s);
    if h.len() % 2 == 0 && all_hex_digits(h) {
        bytes_case(hex_decode(h))
    } else {
        Err(ErrModel::InvalidFormat(IdKind::Bytes, s))
    }
}

/// The `{...}` rule: after removing hyphens the inner content must be
/// exactly 64 hex digits, which decode to the 32 RUID bytes.
pub open spec fn ruid_case(s: Seq<char>) -> Result<IdModel, ErrModel> {
    let h = strip_dashes(inner(s));
    if h.len() == 64 && all_hex_digits(h) {
        Ok(IdModel::Ruid(hex_decode(h)))
    } else {
        Err(ErrModel::InvalidFormat(IdKind::Ruid, s))
    }
}

/// What parsing a canonical text yields: the four delimited forms, with
/// plain text as the fallback whenever no delimiter pair closes correctly.
pub open spec fn parse_model(s: Seq<char>) -> Result<IdModel, ErrModel> {
    if delimited(s, '<', '>') {
        text_case(inner(s))
    } else if delimited(s, '#', '#') {
        integer_case(s)
    } else if delimited(s, '[', ']') {
        bytes_delim_case(s)
    } else if delimited(s, '{', '}') {
        ruid_case(s)
    } else {
        text_case(s)
    }
}

// ===== Lemmas on the spec functions =====

pub proof fn lemma_dec_val_nonneg(s: Seq<char>)
    requires
        all_dec_digits(s),
    ensures
        dec_val(s) >= 0,
    decreases s.len(),
{
    if s.len() > 0 {
        assert(all_dec_digits(s.drop_last()));
        lemma_dec_val_nonneg(s.drop_last());
    }
}

/// Extending a digit run can only increase its value.
pub proof fn lemma_dec_val_prefix(s: Seq<char>, i: int)
    requires
        all_dec_digits(s),
        0 <= i <= s.len(),
    ensures
        dec_val(s.subrange(0, i)) <= dec_val(s),
    decreases s.len() - i,
{
    if i == s.len() {
        assert(s.subrange(0, i) =~= s);
    } else {
        let p = s.subrange(0, i);
        let q = s.subrange(0, i + 1);
        assert(q.drop_last() =~= p);
        assert(all_dec_digits(p));
        lemma_dec_val_nonneg(p);
        assert(dec_val(q) == dec_val(p) * 10 + dec_digit_val(s[i]));
        lemma_dec_val_prefix(s, i + 1);
    }
}

/// Decoding consumes two digits per byte.
pub proof fn lemma_hex_decode_len(s: Seq<char>)
    requires
        s.len() % 2 == 0,
    ensures
        hex_decode(s).len() == s.len() / 2,
    decreases s.len(),
{
    if s.len() >= 2 {
        lemma_hex_decode_len(s.subrange(2, s.len() as int));
    }
}

/// Appending one digit pair appends one decoded byte.
pub proof fn lemma_hex_decode_snoc(s: Seq<char>, a: char, b: char)
    requires
        s.len() % 2 == 0,
    ensures
        hex_decode(s.push(a).push(b)) == hex_decode(s).push(
            ((hex_digit_val(a) * 16 + hex_digit_val(b)) as u8),
        ),
    decreases s.len(),
{
    let u = s.push(a).push(b);
    let v = ((hex_digit_val(a) * 16 + hex_digit_val(b)) as u8);
    if s.len() == 0 {
        assert(u.subrange(2, u.len() as int) =~= Seq::<char>::empty());
        assert(hex_decode(u.subrange(2, u.len() as int)) == Seq::<u8>::empty());
        assert(u[0] == a && u[1] == b);
        assert(hex_decode(u) =~= seq![v]);
        assert(hex_decode(s) == Seq::<u8>::empty());
        assert(hex_decode(s).push(v) =~= seq![v]);
    } else {
        let t = s.subrange(2, s.len() as int);
        assert(u.subrange(2, u.len() as int) =~= t.push(a).push(b));
        lemma_hex_decode_snoc(t, a, b);
        assert(u[0] == s[0] && u[1] == s[1]);
        let v0 = ((hex_digit_val(s[0]) * 16 + hex_digit_val(s[1])) as u8);
        assert(hex_decode(u) == seq![v0] + hex_decode(u.subrange(2, u.len() as int)));
        assert(hex_decode(u.subrange(2, u.len() as int)) == hex_decode(t).push(v));
        assert(hex_decode(s) == seq![v0] + hex_decode(t));
        assert(seq![v0] + hex_decode(t).push(v) =~= (seq![v0] + hex_decode(t)).push(v));
    }
}

// ===== Executable helpers =====

/// The characters of `s`, as a vector.
fn chars_of(s: &str) -> (r: Vec<char>)
    ensures
        r@ == s@,
{
    let n = s.unicode_len();
    let mut out: Vec<char> = Vec::new();
    let mut i: usize = 0;
    while i < n
        invariant
            n == s@.len(),
            i <= n,
            out@ == s@.subrange(0, i as int),
        decreases n - i,
    {
        out.push(s.get_char(i));
        proof {
            assert(out@ =~= s@.subrange(0, i + 1 as int));
        }
        i = i + 1;
    }
    proof {
        assert(out@ =~= s@);
    }
    out
}

/// The value of a hexadecimal digit, or `None` for any other character.
fn hex_val_exec(c: char) -> (r: Option<u8>)
    ensures
        match r {
            Some(v) => is_hex_digit(c) && v == hex_digit_val(c),
            None => !is_hex_digit(c),
        },
{
    let u: u32 = c as u32;
    if 48 <= u && u <= 57 {
        Some((u - 48) as u8)
    } else if 97 <= u && u <= 102 {
        Some((u - 87) as u8)
    } else if 65 <= u && u <= 70 {
        Some((u - 55) as u8)
    } else {
        None
    }
}

/// Decodes a hex character sequence, two digits per byte; `None` when the
/// length is odd or any character is not a hex digit.
fn hex_decode_chars(h: &Vec<char>) -> (r: Option<Vec<u8>>)
    ensures
        match r {
            Some(b) => h@.len() % 2 == 0 && all_hex_digits(h@) && b@ == hex_decode(h@),
            None => !(h@.len() % 2 == 0 && all_hex_digits(h@)),
        },
{
    let n = h.len();
    if n % 2 != 0 {
        return None;
    }
    let mut out: Vec<u8> = Vec::new();
    let mut i: usize = 0;
    while i < n
        invariant
            n == h@.len(),
            n % 2 == 0,
            i % 2 == 0,
            i <= n,
            forall|j: int| 0 <= j < i ==> is_hex_digit(h@[j]),
            out@ == hex_decode(h@.subrange(0, i as int)),
        decreases n - i,
    {
        let a = h[i];
        let b = h[i + 1];
        let va = match hex_val_exec(a) {
            Some(v) => v,
            None => {
                return None;
            },
        };
        let vb = match hex_val_exec(b) {
            Some(v) => v,
            None => {
                return None;
            },
        };
        out.push(va * 16 + vb);
        proof {
            let p = h@.subrange(0, i as int);
            lemma_hex_decode_snoc(p, a, b);
            assert(h@.subrange(0, (i + 2) as int) =~= p.push(a).push(b));
        }
        i = i + 2;
    }
    proof {
        assert(h@.subrange(0, n as int) =~= h@);
    }
    Some(out)
}

/// Removes every hyphen.
fn strip_dashes_chars(h: &Vec<char>) -> (r: Vec<char>)
    ensures
        r@ == strip_dashes(h@),
{
    let n = h.len();
    let mut out: Vec<char> = Vec::new();
    let mut i: usize = 0;
    while i < n
        invariant
            n == h@.len(),
            i <= n,
            out@ == strip_dashes(h@.subrange(0, i as int)),
        decreases n - i,
    {
        let c = h[i];
        proof {
            assert(h@.subrange(0, (i + 1) as int).drop_last() =~= h@.subrange(0, i as int));
        }
        if c != '-' {
            out.push(c);
        }
        i = i + 1;
    }
    proof {
        assert(h@.subrange(0, n as int) =~= h@);
    }
    out
}

/// Parses an unsigned 64-bit decimal integer, allowing one leading `+`;
/// `None` when the text is empty, holds a non-digit, or overflows 64 bits.
fn parse_u64_digits(t: &str) -> (r: Option<u64>)
    ensures
        match r {
            Some(v) => dec_parse_ok(t@) && v == dec_val(dec_digits_of(t@)),
            None => !dec_parse_ok(t@),
        },
{
    let n = t.unicode_len();
    let mut start: usize = 0;
    if n > 0 && t.get_char(0) == '+' {
        start = 1;
    }
    proof {
        assert(dec_digits_of(t@) =~= t@.subrange(start as int, n as int));
    }
    if start == n {
        return None;
    }
    let ghost d = t@.subrange(start as int, n as int);
    let mut i: usize = start;
    let mut val: u64 = 0;
    while i < n
        invariant
            n == t@.len(),
            start <= i <= n,
            start < n,
            d == t@.subrange(start as int, n as int),
            d == dec_digits_of(t@),
            forall|j: int| start <= j < i ==> is_dec_digit(t@[j]),
            val == dec_val(t@.subrange(start as int, i as int)),
        decreases n - i,
    {
        let c = t.get_char(i);
        let u: u32 = c as u32;
        proof {
            assert(d[(i - start) as int] == t@[i as int]);
        }
        if !(48 <= u && u <= 57) {
            proof {
                assert(!is_dec_digit(d[(i - start) as int]));
            }
            return None;
        }
        let dig: u64 = (u - 48) as u64;
        proof {
            let p = t@.subrange(start as int, i as int);
            let q = t@.subrange(start as int, (i + 1) as int);
            assert(q.drop_last() =~= p);
            assert(q.last() == t@[i as int]);
            assert(dec_val(q) == dec_val(p) * 10 + dec_digit_val(t@[i as int]));
        }
        if val > (u64::MAX - dig) / 10 {
            proof {
                let q = t@.subrange(start as int, (i + 1) as int);
                let m = (u64::MAX - dig) as int;
                vstd::arithmetic::div_mod::lemma_fundamental_div_mod(m, 10);
                assert(dec_val(q) == val * 10 + dig > u64::MAX);
                if all_dec_digits(d) {
                    assert(q =~= d.subrange(0, (i + 1 - start) as int));
                    lemma_dec_val_prefix(d, i + 1 - start);
                    assert(dec_val(d) > u64::MAX);
                }
            }
            return None;
        }
        val = val * 10 + dig;
        i = i + 1;
    }
    proof {
        assert(t@.subrange(start as int, n as int) =~= d);
        assert(forall|j: int| 0 <= j < d.len() ==> is_dec_digit(d[j]));
    }
    Some(val)
}

// ===== The parser =====

fn parse_integer_delimited(s: &str, n: usize) -> (r: Result<Identifier, IdError>)
    requires
        n == s@.len(),
        3 <= n,
        s@[0] == '#',
        s@[n - 1] == '#',
    ensures
        res_model(r) == integer_case(s@),
{
    let inner_str = s.substring_char(1, n - 1);
    proof {
        assert(inner_str@ =~= inner(s@));
    }
    match parse_u64_digits(inner_str) {
        Some(v) => Ok(Identifier::integer(v)),
        None => Err(IdError::InvalidFormat { kind: IdKind::Integer, text: s.to_owned() }),
    }
}

fn parse_bytes_delimited(s: &str, n: usize) -> (r: Result<Identifier, IdError>)
    requires
        n == s@.len(),
        3 <= n,
        s@[0] == '[',
        s@[n - 1] == ']',
    ensures
        res_model(r) == bytes_delim_case(s@),
{
    let inner_str = s.substring_char(1, n - 1);
    proof {
        assert(inner_str@ =~= inner(s@));
    }
    let inner_chars = chars_of(inner_str);
    match hex_decode_chars(&inner_chars) {
        Some(b) => Identifier::bytes(b),
        None => Err(IdError::InvalidFormat { kind: IdKind::Bytes, text: s.to_owned() }),
    }
}

fn parse_ruid_delimited(s: &str, n: usize) -> (r: Result<Identifier, IdError>)
    requires
        n == s@.len(),
        3 <= n,
        s@[0] == '{',
        s@[n - 1] == '}',
    ensures
        res_model(r) == ruid_case(s@),
{
    let inner_str = s.substring_char(1, n - 1);
    proof {
        assert(inner_str@ =~= inner(s@));
    }
    let inner_chars = chars_of(inner_str);
    let stripped = strip_dashes_chars(&inner_chars);
    if stripped.len() != 64 {
        return Err(IdError::InvalidFormat { kind: IdKind::Ruid, text: s.to_owned() });
    }
    match hex_decode_chars(&stripped) {
        Some(b) => {
            proof {
                lemma_hex_decode_len(stripped@);
            }
            let mut arr = [0u8; 32];
            let mut i: usize = 0;
            while i < 32
                invariant
                    b@.len() == 32,
                    i <= 32,
                    forall|j: int| 0 <= j < i ==> arr@[j] == b@[j],
                decreases 32 - i,
            {
                arr[i] = b[i];
                i = i + 1;
            }
            proof {
                assert(arr@ =~= b@);
            }
            Ok(Identifier::Ruid(arr))
        },
        None => Err(IdError::InvalidFormat { kind: IdKind::Ruid, text: s.to_owned() }),
    }
}

/// Parses the canonical textual form of an identifier.
///
/// The first character selects a tentative variant (`<`, `#`, `[` or `{`);
/// if the matching closing delimiter is present with non-empty content
/// between, the inner content is decoded under that variant's rule, else
/// the whole text falls back to being ordinary text-kind content.
pub fn parse_text(s: &str) -> (r: Result<Identifier, IdError>)
    ensures
        res_model(r) == parse_model(s@),
        r matches Ok(id) ==> id.wf(),
{
    let n = s.unicode_len();
    let r = parse_text_choose(s, n);
    proof {
        lemma_parse_model_wf(s@);
    }
    r
}

fn parse_text_choose(s: &str, n: usize) -> (r: Result<Identifier, IdError>)
    requires
        n == s@.len(),
    ensures
        res_model(r) == parse_model(s@),
{
    if n >= 3 {
        let first = s.get_char(0);
        let last = s.get_char(n - 1);
        if first == '<' && last == '>' {
            let inner_str = s.substring_char(1, n - 1);
            proof {
                assert(inner_str@ =~= inner(s@));
            }
            return Identifier::string(inner_str);
        }
        if first == '#' && last == '#' {
            return parse_integer_delimited(s, n);
        }
        if first == '[' && last == ']' {
            return parse_bytes_delimited(s, n);
        }
        if first == '{' && last == '}' {
            return parse_ruid_delimited(s, n);
        }
    }
    Identifier::string(s)
}

/// Every identifier the parser yields satisfies its variant's structural
/// constraint.
pub proof fn lemma_parse_model_wf(s: Seq<char>)
    ensures
        parse_model(s) matches Ok(v) ==> model_wf(v),
{
    if delimited(s, '{', '}') && !delimited(s, '<', '>') && !delimited(s, '#', '#')
        && !delimited(s, '[', ']') {
        let h = strip_dashes(inner(s));
        if h.len() == 64 && all_hex_digits(h) {
            lemma_hex_decode_len(h);
        }
    }
}

} // verus!
