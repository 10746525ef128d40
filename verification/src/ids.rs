//! The identifier format: the canonical 8-4-4-4-12 hexadecimal rendering
//! of a 128-bit value, emitted lowercase and parsed case-insensitively.

use vstd::prelude::*;

verus! {

/// Relies on std's `String::push`: appends the given character to the end
/// of the string.
pub assume_specification[ String::push ](s: &mut String, c: char)
    ensures
        final(s)@ == old(s)@.push(c),
;

/// Whether the position carries a hyphen in the canonical rendering.
pub open spec fn is_hyphen_pos(p: int) -> bool {
    p == 8 || p == 13 || p == 18 || p == 23
}

/// How many hexadecimal digits stand before position `p`.
pub open spec fn digits_before(p: int) -> int {
    p - (
    if p > 23 {
        4int
    } else if p > 18 {
        3
    } else if p > 13 {
        2
    } else if p > 8 {
        1
    } else {
        0
    })
}

/// The lowercase hexadecimal digit of a value below sixteen.
pub open spec fn nibble_char(n: u128) -> char {
    if n == 0 {
        '0'
    } else if n == 1 {
        '1'
    } else if n == 2 {
        '2'
    } else if n == 3 {
        '3'
    } else if n == 4 {
        '4'
    } else if n == 5 {
        '5'
    } else if n == 6 {
        '6'
    } else if n == 7 {
        '7'
    } else if n == 8 {
        '8'
    } else if n == 9 {
        '9'
    } else if n == 10 {
        'a'
    } else if n == 11 {
        'b'
    } else if n == 12 {
        'c'
    } else if n == 13 {
        'd'
    } else if n == 14 {
        'e'
    } else {
        'f'
    }
}

/// The value of a hexadecimal digit, in either case; -1 for any other
/// character.
pub open spec fn hex_val(c: char) -> int {
    if c == '0' {
        0
    } else if c == '1' {
        1
    } else if c == '2' {
        2
    } else if c == '3' {
        3
    } else if c == '4' {
        4
    } else if c == '5' {
        5
    } else if c == '6' {
        6
    } else if c == '7' {
        7
    } else if c == '8' {
        8
    } else if c == '9' {
        9
    } else if c == 'a' || c == 'A' {
        10
    } else if c == 'b' || c == 'B' {
        11
    } else if c == 'c' || c == 'C' {
        12
    } else if c == 'd' || c == 'D' {
        13
    } else if c == 'e' || c == 'E' {
        14
    } else if c == 'f' || c == 'F' {
        15
    } else {
        -1
    }
}

/// The nibble of `v` at digit position `d`, most significant first.
pub open spec fn nibble_of(v: u128, d: int) -> u128 {
    (v >> ((124 - 4 * d) as u128)) & 0xf
}

/// The canonical lowercase rendering of `v`.
pub open spec fn uuid_text(v: u128) -> Seq<char> {
    Seq::new(
        36,
        |p: int|
            if is_hyphen_pos(p) {
                '-'
            } else {
                nibble_char(nibble_of(v, digits_before(p)))
            },
    )
}

/// Whether `s` is a canonical hyphenated rendering, in either case.
pub open spec fn is_uuid_text(s: Seq<char>) -> bool {
    &&& s.len() == 36
    &&& forall|p: int|
        0 <= p < 36 ==> (
        if is_hyphen_pos(p) {
            s[p] == '-'
        } else {
            hex_val(#[trigger] s[p]) >= 0
        })
}

/// The value the digits of `s` denote from position `p` on, accumulated
/// onto `acc`.
pub open spec fn uuid_value_from(s: Seq<char>, p: int, acc: u128) -> u128
    decreases 36 - p,
{
    if p < 0 || p >= 36 {
        acc
    } else if is_hyphen_pos(p) {
        uuid_value_from(s, p + 1, acc)
    } else {
        uuid_value_from(s, p + 1, (acc << 4) | (hex_val(s[p]) as u128))
    }
}

/// The 128-bit value a canonical rendering denotes.
pub open spec fn uuid_value(s: Seq<char>) -> u128 {
    uuid_value_from(s, 0, 0)
}

pub(crate) fn nibble_to_char(n: u128) -> (c: char)
    requires
        n < 16,
    ensures
        c == nibble_char(n),
{
    if n == 0 {
        '0'
    } else if n == 1 {
        '1'
    } else if n == 2 {
        '2'
    } else if n == 3 {
        '3'
    } else if n == 4 {
        '4'
    } else if n == 5 {
        '5'
    } else if n == 6 {
        '6'
    } else if n == 7 {
        '7'
    } else if n == 8 {
        '8'
    } else if n == 9 {
        '9'
    } else if n == 10 {
        'a'
    } else if n == 11 {
        'b'
    } else if n == 12 {
        'c'
    } else if n == 13 {
        'd'
    } else if n == 14 {
        'e'
    } else {
        'f'
    }
}

fn hex_digit(c: char) -> (r: Option<u8>)
    ensures
        match r {
            Some(d) => hex_val(c) == d as int && d < 16,
            None => hex_val(c) < 0,
        },
{
    if c == '0' {
        Some(0)
    } else if c == '1' {
        Some(1)
    } else if c == '2' {
        Some(2)
    } else if c == '3' {
        Some(3)
    } else if c == '4' {
        Some(4)
    } else if c == '5' {
        Some(5)
    } else if c == '6' {
        Some(6)
    } else if c == '7' {
        Some(7)
    } else if c == '8' {
        Some(8)
    } else if c == '9' {
        Some(9)
    } else if c == 'a' || c == 'A' {
        Some(10)
    } else if c == 'b' || c == 'B' {
        Some(11)
    } else if c == 'c' || c == 'C' {
        Some(12)
    } else if c == 'd' || c == 'D' {
        Some(13)
    } else if c == 'e' || c == 'E' {
        Some(14)
    } else if c == 'f' || c == 'F' {
        Some(15)
    } else {
        None
    }
}

/// Renders `v` in the canonical lowercase hyphenated form.
pub fn format_uuid(v: u128) -> (r: String)
    ensures
        r@ == uuid_text(v),
{
    let mut r = String::new();
    let mut p: usize = 0;
    while p < 36
        invariant
            p <= 36,
            r@.len() == p,
            forall|q: int| 0 <= q < p ==> r@[q] == uuid_text(v)[q],
        decreases 36 - p,
    {
        if p == 8 || p == 13 || p == 18 || p == 23 {
            r.push('-');
        } else {
            let d: u128 = (p as u128) - (
            if p > 23 {
                4
            } else if p > 18 {
                3
            } else if p > 13 {
                2
            } else if p > 8 {
                1
            } else {
                0
            });
            let sh: u128 = 124 - 4 * d;
            let nib: u128 = (v >> sh) & 0xf;
            proof {
                assert((v >> sh) & 0xf < 16) by (bit_vector);
            }
            r.push(nibble_to_char(nib));
        }
        p += 1;
    }
    proof {
        assert(r@ =~= uuid_text(v));
    }
    r
}

/// Parses a canonical hyphenated rendering, accepting digits in either
/// case; any other shape is rejected.
pub fn parse_uuid(s: &str) -> (r: Option<u128>)
    ensures
        match r {
            Some(v) => is_uuid_text(s@) && v == uuid_value(s@),
            None => !is_uuid_text(s@),
        },
{
    if s.unicode_len() != 36 {
        return None;
    }
    let mut acc: u128 = 0;
    let mut p: usize = 0;
    while p < 36
        invariant
            s@.len() == 36,
            p <= 36,
            forall|q: int|
                0 <= q < p ==> (
                if is_hyphen_pos(q) {
                    s@[q] == '-'
                } else {
                    hex_val(#[trigger] s@[q]) >= 0
                }),
            uuid_value_from(s@, p as int, acc) == uuid_value(s@),
        decreases 36 - p,
    {
        let c = s.get_char(p);
        if p == 8 || p == 13 || p == 18 || p == 23 {
            if c != '-' {
                return None;
            }
        } else {
            match hex_digit(c) {
                Some(d) => {
                    acc = (acc << 4) | (d as u128);
                },
                None => {
                    return None;
                },
            }
        }
        p += 1;
    }
    Some(acc)
}

/// The high `k` nibbles of `v`, right-aligned.
spec fn high_nibbles(v: u128, k: int) -> u128 {
    if k <= 0 {
        0
    } else {
        v >> ((128 - 4 * k) as u128)
    }
}

proof fn lemma_uuid_value_prefix(v: u128, p: int)
    requires
        0 <= p <= 36,
    ensures
        uuid_value_from(uuid_text(v), p, high_nibbles(v, digits_before(p))) == v,
    decreases 36 - p,
{
    let t = uuid_text(v);
    if p == 36 {
        assert(digits_before(36) == 32);
        assert(v >> ((128 - 4 * 32) as u128) == v) by (bit_vector);
    } else if is_hyphen_pos(p) {
        lemma_uuid_value_prefix(v, p + 1);
        assert(digits_before(p + 1) == digits_before(p));
    } else {
        let k = digits_before(p);
        let n = nibble_of(v, k);
        assert(0 <= k <= 31);
        let shk: u128 = (124 - 4 * k) as u128;
        assert((v >> shk) & 0xf < 16) by (bit_vector);
        assert(t[p] == nibble_char(n));
        assert(hex_val(nibble_char(n)) == n as int);
        let acc = high_nibbles(v, k);
        let stepped = (acc << 4) | (hex_val(t[p]) as u128);
        assert(stepped == (acc << 4) | n);
        if k == 0 {
            assert(((0 as u128) << 4) | ((v >> 124u128) & 0xf) == v >> 124u128)
                by (bit_vector);
            assert(stepped == high_nibbles(v, 1));
        } else {
            let sh: u128 = (128 - 4 * k) as u128;
            assert(sh == shk + 4 && shk <= 120);
            assert(sh == shk + 4 && shk <= 120 ==> (((v >> sh) << 4) | ((v >> shk) & 0xf) == v
                >> shk)) by (bit_vector);
            assert(stepped == high_nibbles(v, k + 1));
        }
        lemma_uuid_value_prefix(v, p + 1);
        assert(digits_before(p + 1) == k + 1);
    }
}

/// Law: rendering a value and parsing it back is the identity — the
/// rendering is a canonical text and it denotes the value it was made
/// from; with the contract of `parse_uuid`, a parse of the rendering
/// returns exactly the original value.
pub proof fn lemma_uuid_round_trip(v: u128)
    ensures
        is_uuid_text(uuid_text(v)),
        uuid_value(uuid_text(v)) == v,
{
    let t = uuid_text(v);
    assert forall|p: int| 0 <= p < 36 implies (
    if is_hyphen_pos(p) {
        t[p] == '-'
    } else {
        hex_val(#[trigger] t[p]) >= 0
    }) by {
        if !is_hyphen_pos(p) {
            let k = digits_before(p);
            let shk: u128 = (124 - 4 * k) as u128;
            assert((v >> shk) & 0xf < 16) by (bit_vector);
            assert(hex_val(nibble_char(nibble_of(v, k))) >= 0);
        }
    }
    lemma_uuid_value_prefix(v, 0);
    assert(digits_before(0) == 0);
}

} // verus!
