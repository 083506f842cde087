//! The codec's laws: the parser inverts the canonical rendering.
//!
//! The canonical human-readable rendering of an identifier uses one
//! delimiter pair per variant (`#...#` for integers, `[hex]` for bytes,
//! `{hex-hex-hex-hex}` for RUIDs, `<...>` for text). Each law states, over
//! the grammar's spec functions, that parsing the rendering of a payload
//! yields exactly that payload back.

use vstd::arithmetic::div_mod::lemma_fundamental_div_mod;
use vstd::prelude::*;

use crate::identifier::{text_case, valid_text, ErrModel, IdModel};
use crate::text::{
    all_dec_digits, all_hex_digits, dec_digit_val, dec_digits_of, dec_parse_ok, dec_val, delimited,
    hex_decode, hex_digit_val, inner, integer_case, is_dec_digit, is_hex_digit, parse_model,
    strip_dashes,
};

verus! {

// ===== Canonical renderings, as spec functions =====

/// The character of one decimal digit.
pub open spec fn dec_digit_char(d: int) -> char {
    if d == 0 {
        '0'
    } else if d == 1 {
        '1'
    } else if d == 2 {
        '2'
    } else if d == 3 {
        '3'
    } else if d == 4 {
        '4'
    } else if d == 5 {
        '5'
    } else if d == 6 {
        '6'
    } else if d == 7 {
        '7'
    } else if d == 8 {
        '8'
    } else {
        '9'
    }
}

/// The canonical decimal rendering of an unsigned number, no sign and no
/// leading zeros.
pub open spec fn dec_string(n: nat) -> Seq<char>
    decreases n,
{
    if n < 10 {
        seq![dec_digit_char(n as int)]
    } else {
        dec_string(n / 10) + seq![dec_digit_char((n % 10) as int)]
    }
}

/// The character of one hexadecimal digit, lower case.
pub open spec fn hex_digit_char(d: int) -> char {
    if d == 0 {
        '0'
    } else if d == 1 {
        '1'
    } else if d == 2 {
        '2'
    } else if d == 3 {
        '3'
    } else if d == 4 {
        '4'
    } else if d == 5 {
        '5'
    } else if d == 6 {
        '6'
    } else if d == 7 {
        '7'
    } else if d == 8 {
        '8'
    } else if d == 9 {
        '9'
    } else if d == 10 {
        'a'
    } else if d == 11 {
        'b'
    } else if d == 12 {
        'c'
    } else if d == 13 {
        'd'
    } else if d == 14 {
        'e'
    } else {
        'f'
    }
}

/// The canonical hexadecimal rendering of a byte sequence, two lower-case
/// digits per byte, high digit first.
pub open spec fn hex_encode(b: Seq<u8>) -> Seq<char>
    decreases b.len(),
{
    if b.len() == 0 {
        Seq::empty()
    } else {
        seq![hex_digit_char(b[0] as int / 16), hex_digit_char(b[0] as int % 16)]
            + hex_encode(b.subrange(1, b.len() as int))
    }
}

/// The canonical rendering of a 32-byte RUID payload: 64 hex digits in four
/// groups of sixteen, separated by hyphens.
pub open spec fn hex_with_dashes(b: Seq<u8>) -> Seq<char> {
    let h = hex_encode(b);
    h.subrange(0, 16) + seq!['-'] + h.subrange(16, 32) + seq!['-'] + h.subrange(32, 48)
        + seq!['-'] + h.subrange(48, 64)
}

// ===== Facts about the renderings =====

proof fn lemma_dec_digit_char(d: int)
    requires
        0 <= d <= 9,
    ensures
        is_dec_digit(dec_digit_char(d)),
        dec_digit_val(dec_digit_char(d)) == d,
{
}

/// The decimal rendering is a non-empty digit run denoting the number
/// itself.
pub proof fn lemma_dec_string(n: nat)
    ensures
        dec_string(n).len() >= 1,
        all_dec_digits(dec_string(n)),
        dec_val(dec_string(n)) == n,
    decreases n,
{
    if n < 10 {
        lemma_dec_digit_char(n as int);
        let s = dec_string(n);
        assert(s.drop_last() =~= Seq::<char>::empty());
        assert(dec_val(Seq::<char>::empty()) == 0);
        assert(s.last() == dec_digit_char(n as int));
        assert(dec_val(s) == dec_val(s.drop_last()) * 10 + dec_digit_val(s.last()));
    } else {
        lemma_dec_string(n / 10);
        lemma_dec_digit_char((n % 10) as int);
        let p = dec_string(n / 10);
        let s = dec_string(n);
        assert(s.drop_last() =~= p);
        assert(s.last() == dec_digit_char((n % 10) as int));
        assert(forall|i: int| 0 <= i < s.len() ==> #[trigger] is_dec_digit(s[i])) by {
            assert(forall|i: int| 0 <= i < p.len() ==> #[trigger] is_dec_digit(p[i]));
            assert(forall|i: int| 0 <= i < s.len() ==> s[i] == if i < p.len() {
                p[i]
            } else {
                s.last()
            });
        }
        lemma_fundamental_div_mod(n as int, 10);
        assert(dec_val(s) == dec_val(p) * 10 + dec_digit_val(s.last()));
    }
}

proof fn lemma_hex_digit_char(d: int)
    requires
        0 <= d <= 15,
    ensures
        is_hex_digit(hex_digit_char(d)),
        hex_digit_val(hex_digit_char(d)) == d,
        hex_digit_char(d) != '-',
{
}

/// The hexadecimal rendering has two hex digits per byte and decodes to
/// the bytes themselves.
pub proof fn lemma_hex_encode(b: Seq<u8>)
    ensures
        hex_encode(b).len() == 2 * b.len(),
        all_hex_digits(hex_encode(b)),
        hex_decode(hex_encode(b)) == b,
    decreases b.len(),
{
    if b.len() == 0 {
        assert(hex_decode(hex_encode(b)) =~= b);
    } else {
        let rest = b.subrange(1, b.len() as int);
        lemma_hex_encode(rest);
        let e = hex_encode(b);
        let re = hex_encode(rest);
        lemma_hex_digit_char(b[0] as int / 16);
        lemma_hex_digit_char(b[0] as int % 16);
        assert(forall|i: int| 0 <= i < e.len() ==> #[trigger] is_hex_digit(e[i])) by {
            assert(forall|i: int| 0 <= i < re.len() ==> #[trigger] is_hex_digit(re[i]));
            assert(forall|i: int| 2 <= i < e.len() ==> e[i] == re[i - 2]);
        }
        assert(e.subrange(2, e.len() as int) =~= re);
        lemma_fundamental_div_mod(b[0] as int, 16);
        assert((hex_digit_val(e[0]) * 16 + hex_digit_val(e[1])) as u8 == b[0]);
        assert(hex_decode(e) =~= b);
    }
}

/// Splitting a strip over a concatenation.
proof fn lemma_strip_dashes_add(a: Seq<char>, b: Seq<char>)
    ensures
        strip_dashes(a + b) == strip_dashes(a) + strip_dashes(b),
    decreases b.len(),
{
    if b.len() == 0 {
        assert(a + b =~= a);
        assert(strip_dashes(a) + strip_dashes(b) =~= strip_dashes(a));
    } else {
        lemma_strip_dashes_add(a, b.drop_last());
        assert((a + b).drop_last() =~= a + b.drop_last());
        if b.last() == '-' {
        } else {
            let lhs = strip_dashes(a) + strip_dashes(b);
            let rhs = (strip_dashes(a) + strip_dashes(b.drop_last())).push(b.last());
            assert(lhs =~= rhs);
        }
    }
}

/// Stripping leaves a hyphen-free sequence unchanged.
proof fn lemma_strip_dashes_id(s: Seq<char>)
    requires
        forall|i: int| 0 <= i < s.len() ==> s[i] != '-',
    ensures
        strip_dashes(s) == s,
    decreases s.len(),
{
    if s.len() > 0 {
        lemma_strip_dashes_id(s.drop_last());
        assert(strip_dashes(s) =~= s);
    }
}

// ===== The laws =====

/// Round trip for Integer: parsing `#` + decimal(n) + `#` yields the
/// integer-kind identifier carrying `n`, for every unsigned 64-bit `n`.
pub proof fn lemma_round_trip_integer(n: u64)
    ensures
        parse_model(seq!['#'] + dec_string(n as nat) + seq!['#'])
            == Ok::<IdModel, ErrModel>(IdModel::Integer(n)),
{
    let d = dec_string(n as nat);
    lemma_dec_string(n as nat);
    let s = seq!['#'] + d + seq!['#'];
    assert(s.len() == d.len() + 2);
    assert(s[0] == '#');
    assert(s[s.len() - 1] == '#');
    assert(inner(s) =~= d);
    assert(!delimited(s, '<', '>'));
    assert(is_dec_digit(d[0]));
    assert(d[0] != '+');
    assert(dec_digits_of(d) == d);
    assert(dec_parse_ok(d));
    assert(integer_case(s) == Ok::<IdModel, ErrModel>(IdModel::Integer(n)));
}

/// Round trip for Bytes: parsing `[` + hex(b) + `]` yields the bytes-kind
/// identifier carrying `b`, for every byte sequence of length 1 to 64.
pub proof fn lemma_round_trip_bytes(b: Seq<u8>)
    requires
        1 <= b.len() <= 64,
    ensures
        parse_model(seq!['['] + hex_encode(b) + seq![']'])
            == Ok::<IdModel, ErrModel>(IdModel::Bytes(b)),
{
    let h = hex_encode(b);
    lemma_hex_encode(b);
    let s = seq!['['] + h + seq![']'];
    assert(s.len() == h.len() + 2);
    assert(s[0] == '[');
    assert(s[s.len() - 1] == ']');
    assert(inner(s) =~= h);
    assert(!delimited(s, '<', '>'));
    assert(!delimited(s, '#', '#'));
    assert(delimited(s, '[', ']'));
}

/// Round trip for RUID: parsing `{` + the dashed hex rendering of `b` + `}`
/// yields the RUID-kind identifier carrying `b`, for every 32-byte `b`.
pub proof fn lemma_round_trip_ruid(b: Seq<u8>)
    requires
        b.len() == 32,
    ensures
        parse_model(seq!['{'] + hex_with_dashes(b) + seq!['}'])
            == Ok::<IdModel, ErrModel>(IdModel::Ruid(b)),
{
    let h = hex_encode(b);
    lemma_hex_encode(b);
    let dash = seq!['-'];
    let g1 = h.subrange(0, 16);
    let g2 = h.subrange(16, 32);
    let g3 = h.subrange(32, 48);
    let g4 = h.subrange(48, 64);
    let t = hex_with_dashes(b);
    let s = seq!['{'] + t + seq!['}'];
    assert(t.len() == 67);
    assert(s.len() == 69);
    assert(s[0] == '{');
    assert(s[s.len() - 1] == '}');
    assert(inner(s) =~= t);
    assert(!delimited(s, '<', '>'));
    assert(!delimited(s, '#', '#'));
    assert(!delimited(s, '[', ']'));
    assert(delimited(s, '{', '}'));
    assert(strip_dashes(t) == h) by {
        assert(strip_dashes(dash) =~= Seq::<char>::empty()) by {
            assert(dash.len() == 1 && dash.last() == '-');
            assert(dash.drop_last() =~= Seq::<char>::empty());
            assert(strip_dashes(Seq::<char>::empty()) == Seq::<char>::empty());
        }
        assert(forall|i: int| 0 <= i < h.len() ==> #[trigger] h[i] != '-') by {
            assert(all_hex_digits(h));
            assert(forall|i: int| 0 <= i < h.len() ==> is_hex_digit(#[trigger] h[i]));
        }
        assert(forall|i: int| 0 <= i < g1.len() ==> #[trigger] g1[i] != '-');
        assert(forall|i: int| 0 <= i < g2.len() ==> #[trigger] g2[i] != '-');
        assert(forall|i: int| 0 <= i < g3.len() ==> #[trigger] g3[i] != '-');
        assert(forall|i: int| 0 <= i < g4.len() ==> #[trigger] g4[i] != '-');
        lemma_strip_dashes_id(g1);
        lemma_strip_dashes_id(g2);
        lemma_strip_dashes_id(g3);
        lemma_strip_dashes_id(g4);
        lemma_strip_dashes_add(g1 + dash + g2 + dash + g3 + dash, g4);
        lemma_strip_dashes_add(g1 + dash + g2 + dash + g3, dash);
        lemma_strip_dashes_add(g1 + dash + g2 + dash, g3);
        lemma_strip_dashes_add(g1 + dash + g2, dash);
        lemma_strip_dashes_add(g1 + dash, g2);
        lemma_strip_dashes_add(g1, dash);
        assert(g1 + g2 + g3 + g4 =~= h);
    }
}

/// Angle-bracket equivalence: for text whose first character triggers no
/// delimited variant, wrapping it in `<` and `>` parses to the very same
/// result as the bare text, and both are the plain text-kind outcome.
pub proof fn lemma_angle_equivalence(t: Seq<char>)
    requires
        t.len() > 0,
        t[0] != '<',
        t[0] != '#',
        t[0] != '[',
        t[0] != '{',
    ensures
        parse_model(seq!['<'] + t + seq!['>']) == parse_model(t),
        parse_model(t) == text_case(t),
        valid_text(t) ==> parse_model(t) == Ok::<IdModel, ErrModel>(IdModel::Text(t)),
{
    let s = seq!['<'] + t + seq!['>'];
    assert(s.len() == t.len() + 2);
    assert(s[0] == '<');
    assert(s[s.len() - 1] == '>');
    assert(delimited(s, '<', '>'));
    assert(inner(s) =~= t);
}

} // verus!
