//! Fixed-width hexadecimal text: the spec-level model of hex digits and
//! digit strings, and the lemmas that make parsing and rendering inverses.

use vstd::prelude::*;
use vstd::string::StrSliceExecFns;
use vstd::string::StringExecFns;

verus! {

/// A lowercase hexadecimal digit: the only digits the canonical wire format carries.
pub open spec fn is_hex_lower(c: char) -> bool {
    c == '0' || c == '1' || c == '2' || c == '3' || c == '4' || c == '5' || c == '6' || c == '7'
        || c == '8' || c == '9' || c == 'a' || c == 'b' || c == 'c' || c == 'd' || c == 'e'
        || c == 'f'
}

/// A hexadecimal digit the parser accepts: lowercase or uppercase.
pub open spec fn is_hex_digit(c: char) -> bool {
    is_hex_lower(c) || c == 'A' || c == 'B' || c == 'C' || c == 'D' || c == 'E' || c == 'F'
}

/// The numeric value of a hexadecimal digit; 16 for any other character.
pub open spec fn hex_val(c: char) -> nat {
    if c == '0' {
        0
    } else if c == '1' {
        1
    } else if c == '2' {
        2
    } else if c == '3' {
        3
    } else if c == '4' {
        4
    } else if c == '5' {
        5
    } else if c == '6' {
        6
    } else if c == '7' {
        7
    } else if c == '8' {
        8
    } else if c == '9' {
        9
    } else if c == 'a' || c == 'A' {
        10
    } else if c == 'b' || c == 'B' {
        11
    } else if c == 'c' || c == 'C' {
        12
    } else if c == 'd' || c == 'D' {
        13
    } else if c == 'e' || c == 'E' {
        14
    } else if c == 'f' || c == 'F' {
        15
    } else {
        16
    }
}

/// The lowercase digit for a value below 16; '0' for anything larger.
pub open spec fn hex_char(v: nat) -> char {
    if v == 1 {
        '1'
    } else if v == 2 {
        '2'
    } else if v == 3 {
        '3'
    } else if v == 4 {
        '4'
    } else if v == 5 {
        '5'
    } else if v == 6 {
        '6'
    } else if v == 7 {
        '7'
    } else if v == 8 {
        '8'
    } else if v == 9 {
        '9'
    } else if v == 10 {
        'a'
    } else if v == 11 {
        'b'
    } else if v == 12 {
        'c'
    } else if v == 13 {
        'd'
    } else if v == 14 {
        'e'
    } else if v == 15 {
        'f'
    } else {
        '0'
    }
}

/// Every character of `s` is an acceptable hexadecimal digit.
pub open spec fn all_hex_digits(s: Seq<char>) -> bool {
    forall|i: int| 0 <= i < s.len() ==> is_hex_digit(#[trigger] s[i])
}

/// Every character of `s` is a lowercase hexadecimal digit.
pub open spec fn all_hex_lower(s: Seq<char>) -> bool {
    forall|i: int| 0 <= i < s.len() ==> is_hex_lower(#[trigger] s[i])
}

/// The value of a big-endian string of hexadecimal digits.
pub open spec fn seq_hex_val(s: Seq<char>) -> nat
    decreases s.len(),
{
    if s.len() == 0 {
        0
    } else {
        16 * seq_hex_val(s.drop_last()) + hex_val(s.last())
    }
}

/// `v` written as exactly `width` lowercase hexadecimal digits, zero-padded,
/// keeping only the `width` least significant digits.
pub open spec fn hex_render(v: nat, width: nat) -> Seq<char>
    decreases width,
{
    if width == 0 {
        Seq::empty()
    } else {
        hex_render(v / 16, (width - 1) as nat).push(hex_char(v % 16))
    }
}

/// 16 raised to the power `n`.
pub open spec fn pow16(n: nat) -> nat
    decreases n,
{
    if n == 0 {
        1
    } else {
        16 * pow16((n - 1) as nat)
    }
}

pub proof fn lemma_pow16_pos(n: nat)
    ensures
        pow16(n) >= 1,
    decreases n,
{
    if n > 0 {
        lemma_pow16_pos((n - 1) as nat);
    }
}

pub proof fn lemma_pow16_mono(a: nat, b: nat)
    requires
        a <= b,
    ensures
        pow16(a) <= pow16(b),
    decreases b,
{
    if a < b {
        lemma_pow16_mono(a, (b - 1) as nat);
        lemma_pow16_pos((b - 1) as nat);
    }
}

/// The widest field of the wire format has 32 digits, which fill a `u128` exactly.
pub proof fn lemma_pow16_32()
    ensures
        pow16(2) == 0x100,
        pow16(16) == 0x10000000000000000,
        pow16(32) == 0x100000000000000000000000000000000,
{
    reveal_with_fuel(pow16, 33);
}

pub proof fn lemma_hex_render_len(v: nat, width: nat)
    ensures
        hex_render(v, width).len() == width,
    decreases width,
{
    if width > 0 {
        lemma_hex_render_len(v / 16, (width - 1) as nat);
    }
}

pub proof fn lemma_hex_render_lower(v: nat, width: nat)
    ensures
        all_hex_lower(hex_render(v, width)),
    decreases width,
{
    if width > 0 {
        lemma_hex_render_lower(v / 16, (width - 1) as nat);
        lemma_hex_render_len(v / 16, (width - 1) as nat);
        let prefix = hex_render(v / 16, (width - 1) as nat);
        assert forall|i: int| 0 <= i < hex_render(v, width).len() implies is_hex_lower(
            #[trigger] hex_render(v, width)[i],
        ) by {
            if i < width - 1 {
                assert(hex_render(v, width)[i] == prefix[i]);
            } else {
                assert(hex_render(v, width)[i] == hex_char(v % 16));
            }
        }
    }
}

/// A string of acceptable digits denotes a value below 16^length.
pub proof fn lemma_seq_hex_val_bound(s: Seq<char>)
    requires
        all_hex_digits(s),
    ensures
        seq_hex_val(s) < pow16(s.len()),
    decreases s.len(),
{
    if s.len() > 0 {
        assert(all_hex_digits(s.drop_last())) by {
            assert forall|i: int| 0 <= i < s.drop_last().len() implies is_hex_digit(
                #[trigger] s.drop_last()[i],
            ) by {
                assert(s.drop_last()[i] == s[i]);
            }
        }
        lemma_seq_hex_val_bound(s.drop_last());
        assert(is_hex_digit(s.last()));
        assert(hex_val(s.last()) <= 15);
    }
}

/// Rendering is a left inverse of valuation: a string of lowercase digits is
/// recovered exactly from its value and its length.
pub proof fn lemma_render_of_val(s: Seq<char>)
    requires
        all_hex_lower(s),
    ensures
        hex_render(seq_hex_val(s), s.len()) == s,
    decreases s.len(),
{
    if s.len() == 0 {
        assert(hex_render(seq_hex_val(s), s.len()) =~= s);
    } else {
        let prefix = s.drop_last();
        let c = s.last();
        assert(all_hex_lower(prefix)) by {
            assert forall|i: int| 0 <= i < prefix.len() implies is_hex_lower(
                #[trigger] prefix[i],
            ) by {
                assert(prefix[i] == s[i]);
            }
        }
        lemma_render_of_val(prefix);
        let v = seq_hex_val(s);
        let v0 = seq_hex_val(prefix);
        let d = hex_val(c);
        assert(is_hex_lower(c));
        assert(d < 16);
        assert(v == 16 * v0 + d);
        assert(v % 16 == d && v / 16 == v0) by (nonlinear_arith)
            requires
                v == 16 * v0 + d,
                d < 16,
        ;
        assert(hex_char(d) == c);
        assert(hex_render(v, s.len()) == hex_render(v0, prefix.len()).push(c));
        assert(prefix.push(c) =~= s);
    }
}

/// Valuation is a left inverse of rendering: a value below 16^width survives
/// a round trip through its fixed-width rendering.
pub proof fn lemma_val_of_render(v: nat, width: nat)
    requires
        v < pow16(width),
    ensures
        seq_hex_val(hex_render(v, width)) == v,
    decreases width,
{
    if width == 0 {
        assert(v == 0);
    } else {
        let q = v / 16;
        let m = v % 16;
        assert(q < pow16((width - 1) as nat) && m < 16 && v == 16 * q + m) by (nonlinear_arith)
            requires
                v < 16 * pow16((width - 1) as nat),
                q == v / 16,
                m == v % 16,
        ;
        lemma_val_of_render(q, (width - 1) as nat);
        let s = hex_render(v, width);
        assert(s == hex_render(q, (width - 1) as nat).push(hex_char(m)));
        assert(s.drop_last() == hex_render(q, (width - 1) as nat));
        assert(s.last() == hex_char(m));
        assert(hex_val(hex_char(m)) == m);
    }
}

/// The value of one hexadecimal digit, or `None` for any other character.
pub fn hex_digit_value(c: char) -> (r: Option<u8>)
    ensures
        r is Some <==> is_hex_digit(c),
        r is Some ==> r->0 as nat == hex_val(c) && r->0 < 16,
{
    match c {
        '0' => Some(0),
        '1' => Some(1),
        '2' => Some(2),
        '3' => Some(3),
        '4' => Some(4),
        '5' => Some(5),
        '6' => Some(6),
        '7' => Some(7),
        '8' => Some(8),
        '9' => Some(9),
        'a' => Some(10),
        'b' => Some(11),
        'c' => Some(12),
        'd' => Some(13),
        'e' => Some(14),
        'f' => Some(15),
        'A' => Some(10),
        'B' => Some(11),
        'C' => Some(12),
        'D' => Some(13),
        'E' => Some(14),
        'F' => Some(15),
        _ => None,
    }
}

/// The one-character string for a digit value, used to build renderings.
fn hex_char_str(d: u8) -> (r: &'static str)
    requires
        d < 16,
    ensures
        r@ =~= seq![hex_char(d as nat)],
{
    if d == 0 {
        proof {
            reveal_strlit("0");
            assert("0"@ =~= seq!['0']);
        }
        "0"
    } else if d == 1 {
        proof {
            reveal_strlit("1");
            assert("1"@ =~= seq!['1']);
        }
        "1"
    } else if d == 2 {
        proof {
            reveal_strlit("2");
            assert("2"@ =~= seq!['2']);
        }
        "2"
    } else if d == 3 {
        proof {
            reveal_strlit("3");
            assert("3"@ =~= seq!['3']);
        }
        "3"
    } else if d == 4 {
        proof {
            reveal_strlit("4");
            assert("4"@ =~= seq!['4']);
        }
        "4"
    } else if d == 5 {
        proof {
            reveal_strlit("5");
            assert("5"@ =~= seq!['5']);
        }
        "5"
    } else if d == 6 {
        proof {
            reveal_strlit("6");
            assert("6"@ =~= seq!['6']);
        }
        "6"
    } else if d == 7 {
        proof {
            reveal_strlit("7");
            assert("7"@ =~= seq!['7']);
        }
        "7"
    } else if d == 8 {
        proof {
            reveal_strlit("8");
            assert("8"@ =~= seq!['8']);
        }
        "8"
    } else if d == 9 {
        proof {
            reveal_strlit("9");
            assert("9"@ =~= seq!['9']);
        }
        "9"
    } else if d == 10 {
        proof {
            reveal_strlit("a");
            assert("a"@ =~= seq!['a']);
        }
        "a"
    } else if d == 11 {
        proof {
            reveal_strlit("b");
            assert("b"@ =~= seq!['b']);
        }
        "b"
    } else if d == 12 {
        proof {
            reveal_strlit("c");
            assert("c"@ =~= seq!['c']);
        }
        "c"
    } else if d == 13 {
        proof {
            reveal_strlit("d");
            assert("d"@ =~= seq!['d']);
        }
        "d"
    } else if d == 14 {
        proof {
            reveal_strlit("e");
            assert("e"@ =~= seq!['e']);
        }
        "e"
    } else {
        proof {
            reveal_strlit("f");
            assert("f"@ =~= seq!['f']);
        }
        "f"
    }
}

/// Appends `v` to `out` as exactly `width` lowercase hexadecimal digits.
pub fn append_hex(out: &mut String, v: u128, width: usize)
    ensures
        final(out)@ == old(out)@ + hex_render(v as nat, width as nat),
    decreases width,
{
    if width > 0 {
        append_hex(out, v / 16, width - 1);
        let d: u8 = (v % 16) as u8;
        let ghost mid = out@;
        out.append(hex_char_str(d));
        proof {
            assert(v as nat % 16 == d as nat && v as nat / 16 == (v / 16) as nat);
            assert(mid + seq![hex_char(d as nat)] =~= old(out)@ + hex_render(
                v as nat,
                width as nat,
            ));
        }
    } else {
        proof {
            assert(old(out)@ + hex_render(v as nat, 0) =~= old(out)@);
        }
    }
}

/// Reads the digits of `s` between `start` and `end` as one big-endian
/// hexadecimal value; `None` exactly when a character there is not a digit.
pub fn parse_segment(s: &str, start: usize, end: usize) -> (r: Option<u128>)
    requires
        start <= end <= s@.len(),
        end - start <= 32,
    ensures
        r is Some <==> all_hex_digits(s@.subrange(start as int, end as int)),
        r is Some ==> r->0 as nat == seq_hex_val(s@.subrange(start as int, end as int)),
{
    let mut i = start;
    let mut val: u128 = 0;
    while i < end
        invariant
            start <= i <= end <= s@.len(),
            end - start <= 32,
            val as nat == seq_hex_val(s@.subrange(start as int, i as int)),
            all_hex_digits(s@.subrange(start as int, i as int)),
        decreases end - i,
    {
        let c = s.get_char(i);
        let d = match hex_digit_value(c) {
            Some(d) => d,
            None => {
                proof {
                    let whole = s@.subrange(start as int, end as int);
                    assert(whole[i - start] == c);
                    assert(!is_hex_digit(c));
                }
                return None;
            },
        };
        proof {
            let sofar = s@.subrange(start as int, i as int);
            lemma_seq_hex_val_bound(sofar);
            lemma_pow16_mono(sofar.len() + 1, 32);
            lemma_pow16_32();
            assert(16 * seq_hex_val(sofar) + hex_val(c) < 16 * pow16(sofar.len())) by (
            nonlinear_arith)
                requires
                    seq_hex_val(sofar) < pow16(sofar.len()),
                    hex_val(c) < 16,
            ;
            assert(16 * pow16(sofar.len()) == pow16(sofar.len() + 1));
        }
        val = val * 16 + (d as u128);
        i = i + 1;
        proof {
            let now = s@.subrange(start as int, i as int);
            let before = s@.subrange(start as int, i - 1);
            assert(now.drop_last() =~= before);
            assert(now.last() == c);
            assert forall|j: int| 0 <= j < now.len() implies is_hex_digit(#[trigger] now[j]) by {
                if j < now.len() - 1 {
                    assert(now[j] == before[j]);
                }
            }
        }
    }
    Some(val)
}

} // verus!
