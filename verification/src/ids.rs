//! 128-bit identifiers and their two textual forms: the dashed form
//! (8-4-4-4-12 lowercase hex groups) and the simple form (32 lowercase hex
//! digits with no punctuation). Encoding and parsing are verified against
//! each other: parsing inverts encoding, in both forms.

use vstd::arithmetic::div_mod::{lemma_div_basics, lemma_div_denominator, lemma_fundamental_div_mod};
use vstd::prelude::*;

verus! {

/// A 128-bit identifier, held as its raw bits.
#[derive(Clone, Copy, Debug, PartialEq, Eq, Structural)]
pub struct Uuid {
    pub bits: u128,
}

/// Relies on `uuid::Uuid::new_v4` and `uuid::Uuid::as_u128`: draws a fresh
/// random version-4 identifier and hands back its bits. The value is random;
/// nothing is assumed of it.
#[verifier::external_body]
pub fn fresh_uuid() -> Uuid {
    Uuid { bits: uuid::Uuid::new_v4().as_u128() }
}

/// The lowercase hex digit of a value below 16.
pub open spec fn hex_char(d: nat) -> char {
    if d == 0 {
        '0'
    } else if d == 1 {
        '1'
    } else if d == 2 {
        '2'
    } else if d == 3 {
        '3'
    } else if d == 4 {
        '4'
    } else if d == 5 {
        '5'
    } else if d == 6 {
        '6'
    } else if d == 7 {
        '7'
    } else if d == 8 {
        '8'
    } else if d == 9 {
        '9'
    } else if d == 10 {
        'a'
    } else if d == 11 {
        'b'
    } else if d == 12 {
        'c'
    } else if d == 13 {
        'd'
    } else if d == 14 {
        'e'
    } else {
        'f'
    }
}

/// The value of a lowercase hex digit; 16 for any other character.
pub open spec fn hex_val(c: char) -> nat {
    if c == '0' {
        0
    } else if c == '1' {
        1
    } else if c == '2' {
        2
    } else if c == '3' {
        3
    } else if c == '4' {
        4
    } else if c == '5' {
        5
    } else if c == '6' {
        6
    } else if c == '7' {
        7
    } else if c == '8' {
        8
    } else if c == '9' {
        9
    } else if c == 'a' {
        10
    } else if c == 'b' {
        11
    } else if c == 'c' {
        12
    } else if c == 'd' {
        13
    } else if c == 'e' {
        14
    } else if c == 'f' {
        15
    } else {
        16
    }
}

pub open spec fn is_hex_digit(c: char) -> bool {
    hex_val(c) < 16
}

pub open spec fn pow16(n: nat) -> nat
    decreases n,
{
    if n == 0 {
        1
    } else {
        16 * pow16((n - 1) as nat)
    }
}

/// The lowest `n` hex digits of `v`, most significant first.
pub open spec fn hex_seq(v: nat, n: nat) -> Seq<char>
    decreases n,
{
    if n == 0 {
        Seq::empty()
    } else {
        hex_seq(v / 16, (n - 1) as nat).push(hex_char(v % 16))
    }
}

pub open spec fn all_hex(s: Seq<char>) -> bool {
    forall|i: int| 0 <= i < s.len() ==> is_hex_digit(s[i])
}

/// The value a sequence of hex digits denotes, most significant first.
pub open spec fn hex_decode(s: Seq<char>) -> nat
    decreases s.len(),
{
    if s.len() == 0 {
        0
    } else {
        hex_decode(s.drop_last()) * 16 + hex_val(s.last())
    }
}

pub proof fn lemma_hex_char_val(d: nat)
    requires
        d < 16,
    ensures
        hex_val(hex_char(d)) == d,
{
}

pub proof fn lemma_pow16_pos(n: nat)
    ensures
        pow16(n) >= 1,
    decreases n,
{
    if n > 0 {
        lemma_pow16_pos((n - 1) as nat);
    }
}

pub proof fn lemma_pow16_mono(a: nat, b: nat)
    requires
        a <= b,
    ensures
        pow16(a) <= pow16(b),
    decreases b,
{
    if a < b {
        lemma_pow16_mono(a, (b - 1) as nat);
        lemma_pow16_pos((b - 1) as nat);
    }
}

pub proof fn lemma_pow16_32()
    ensures
        pow16(32) == 0x100000000000000000000000000000000,
{
    assert(pow16(8) == 0x100000000) by {
        reveal_with_fuel(pow16, 9);
    }
    assert(pow16(16) == 16 * (16 * (16 * (16 * (16 * (16 * (16 * (16 * pow16(8))))))))) by {
        reveal_with_fuel(pow16, 9);
    }
    assert(pow16(24) == 16 * (16 * (16 * (16 * (16 * (16 * (16 * (16 * pow16(16))))))))) by {
        reveal_with_fuel(pow16, 9);
    }
    assert(pow16(32) == 16 * (16 * (16 * (16 * (16 * (16 * (16 * (16 * pow16(24)))))))) ) by {
        reveal_with_fuel(pow16, 9);
    }
}

/// The `n`-digit encoding of `v` is `n` hex digits, and decodes back to `v`
/// whenever `v` fits in `n` digits.
pub proof fn lemma_hex_seq_props(v: nat, n: nat)
    ensures
        hex_seq(v, n).len() == n,
        all_hex(hex_seq(v, n)),
        v < pow16(n) ==> hex_decode(hex_seq(v, n)) == v,
    decreases n,
{
    if n > 0 {
        lemma_hex_seq_props(v / 16, (n - 1) as nat);
        lemma_hex_char_val(v % 16);
        let s = hex_seq(v, n);
        let prev = hex_seq(v / 16, (n - 1) as nat);
        assert(s.drop_last() =~= prev);
        assert forall|i: int| 0 <= i < s.len() implies is_hex_digit(s[i]) by {
            if i < n - 1 {
                assert(s[i] == prev[i]);
            }
        }
        if v < pow16(n) {
            lemma_fundamental_div_mod(v as int, 16);
            assert(v / 16 < pow16((n - 1) as nat)) by {
                if v / 16 >= pow16((n - 1) as nat) {
                    assert(16 * (v / 16) >= 16 * pow16((n - 1) as nat)) by (nonlinear_arith)
                        requires
                            v / 16 >= pow16((n - 1) as nat),
                    ;
                }
            }
        }
    }
}

/// Digit `n - 1 - j` (counting from the left) of the `n`-digit encoding of
/// `v` is the hex digit of `(v / 16^j) % 16`.
pub proof fn lemma_hex_seq_index(v: nat, n: nat, j: nat)
    requires
        j < n,
    ensures
        hex_seq(v, n)[(n - 1 - j) as int] == hex_char((v / pow16(j)) % 16),
    decreases n,
{
    lemma_hex_seq_props(v, n);
    lemma_hex_seq_props(v / 16, (n - 1) as nat);
    if j == 0 {
        assert(pow16(0) == 1);
        lemma_div_basics(v as int);
    } else {
        lemma_hex_seq_index(v / 16, (n - 1) as nat, (j - 1) as nat);
        lemma_pow16_pos((j - 1) as nat);
        lemma_div_denominator(v as int, 16, pow16((j - 1) as nat) as int);
        assert(16 * pow16((j - 1) as nat) == pow16(j));
        assert(hex_seq(v, n)[(n - 1 - j) as int] == hex_seq(v / 16, (n - 1) as nat)[(n - 1 - j) as int]);
    }
}

pub(crate) fn push_hex_digit(s: &mut String, d: u8)
    requires
        d < 16,
    ensures
        final(s)@ == old(s)@.push(hex_char(d as nat)),
{
    match d {
        0 => {
            s.append("0");
            proof {
                reveal_strlit("0");
                assert(s@ =~= old(s)@.push('0'));
            }
        },
        1 => {
            s.append("1");
            proof {
                reveal_strlit("1");
                assert(s@ =~= old(s)@.push('1'));
            }
        },
        2 => {
            s.append("2");
            proof {
                reveal_strlit("2");
                assert(s@ =~= old(s)@.push('2'));
            }
        },
        3 => {
            s.append("3");
            proof {
                reveal_strlit("3");
                assert(s@ =~= old(s)@.push('3'));
            }
        },
        4 => {
            s.append("4");
            proof {
                reveal_strlit("4");
                assert(s@ =~= old(s)@.push('4'));
            }
        },
        5 => {
            s.append("5");
            proof {
                reveal_strlit("5");
                assert(s@ =~= old(s)@.push('5'));
            }
        },
        6 => {
            s.append("6");
            proof {
                reveal_strlit("6");
                assert(s@ =~= old(s)@.push('6'));
            }
        },
        7 => {
            s.append("7");
            proof {
                reveal_strlit("7");
                assert(s@ =~= old(s)@.push('7'));
            }
        },
        8 => {
            s.append("8");
            proof {
                reveal_strlit("8");
                assert(s@ =~= old(s)@.push('8'));
            }
        },
        9 => {
            s.append("9");
            proof {
                reveal_strlit("9");
                assert(s@ =~= old(s)@.push('9'));
            }
        },
        10 => {
            s.append("a");
            proof {
                reveal_strlit("a");
                assert(s@ =~= old(s)@.push('a'));
            }
        },
        11 => {
            s.append("b");
            proof {
                reveal_strlit("b");
                assert(s@ =~= old(s)@.push('b'));
            }
        },
        12 => {
            s.append("c");
            proof {
                reveal_strlit("c");
                assert(s@ =~= old(s)@.push('c'));
            }
        },
        13 => {
            s.append("d");
            proof {
                reveal_strlit("d");
                assert(s@ =~= old(s)@.push('d'));
            }
        },
        14 => {
            s.append("e");
            proof {
                reveal_strlit("e");
                assert(s@ =~= old(s)@.push('e'));
            }
        },
        _ => {
            s.append("f");
            proof {
                reveal_strlit("f");
                assert(s@ =~= old(s)@.push('f'));
            }
        },
    }
}

/// The value of a lowercase hex digit character, or None for any other.
fn hex_val_of(c: char) -> (r: Option<u8>)
    ensures
        match r {
            Some(d) => d < 16 && is_hex_digit(c) && d as nat == hex_val(c),
            None => !is_hex_digit(c),
        },
{
    match c {
        '0' => Some(0),
        '1' => Some(1),
        '2' => Some(2),
        '3' => Some(3),
        '4' => Some(4),
        '5' => Some(5),
        '6' => Some(6),
        '7' => Some(7),
        '8' => Some(8),
        '9' => Some(9),
        'a' => Some(10),
        'b' => Some(11),
        'c' => Some(12),
        'd' => Some(13),
        'e' => Some(14),
        'f' => Some(15),
        _ => None,
    }
}

/// The 32 hex digits of `v`, least significant first.
fn hex_digits_rev(v: u128) -> (ds: Vec<u8>)
    ensures
        ds@.len() == 32,
        forall|j: int|
            0 <= j < 32 ==> ds@[j] < 16 && ds@[j] as nat == ((v as nat) / pow16(j as nat)) % 16,
{
    let mut ds: Vec<u8> = Vec::new();
    let mut x: u128 = v;
    proof {
        assert(pow16(0) == 1);
        lemma_div_basics(v as int);
    }
    for i in 0..32usize
        invariant
            ds@.len() == i,
            x as nat == (v as nat) / pow16(i as nat),
            forall|j: int|
                0 <= j < i ==> ds@[j] < 16 && ds@[j] as nat == ((v as nat) / pow16(j as nat))
                    % 16,
    {
        ds.push((x % 16) as u8);
        proof {
            lemma_pow16_pos(i as nat);
            lemma_div_denominator(v as int, pow16(i as nat) as int, 16);
            assert(pow16((i + 1) as nat) == 16 * pow16(i as nat));
        }
        x = x / 16;
    }
    ds
}

/// 32 lowercase hex digits, no punctuation.
pub open spec fn is_simple_form(s: Seq<char>) -> bool {
    s.len() == 32 && all_hex(s)
}

/// The dashed rendering of a 32-digit sequence: groups of 8, 4, 4, 4 and 12.
pub open spec fn dashed_of(s: Seq<char>) -> Seq<char> {
    s.subrange(0, 8) + seq!['-'] + s.subrange(8, 12) + seq!['-'] + s.subrange(12, 16)
        + seq!['-'] + s.subrange(16, 20) + seq!['-'] + s.subrange(20, 32)
}

/// The 32 hex positions of a dashed rendering, with the dashes dropped.
pub open spec fn undashed(s: Seq<char>) -> Seq<char> {
    s.subrange(0, 8) + s.subrange(9, 13) + s.subrange(14, 18) + s.subrange(19, 23) + s.subrange(
        24,
        36,
    )
}

/// 36 characters: dashes at positions 8, 13, 18 and 23, hex elsewhere.
pub open spec fn is_dashed_form(s: Seq<char>) -> bool {
    s.len() == 36 && s[8] == '-' && s[13] == '-' && s[18] == '-' && s[23] == '-'
        && is_simple_form(undashed(s))
}

impl Uuid {
    /// The simple textual form: 32 lowercase hex digits.
    pub open spec fn simple_form(self) -> Seq<char> {
        hex_seq(self.bits as nat, 32)
    }

    /// The dashed textual form: 8-4-4-4-12 lowercase hex groups.
    pub open spec fn dashed_form(self) -> Seq<char> {
        dashed_of(self.simple_form())
    }

    /// Render as 32 lowercase hex digits with no punctuation.
    pub fn to_simple_string(&self) -> (r: String)
        ensures
            r@ == self.simple_form(),
    {
        let bits = self.bits;
        let ds = hex_digits_rev(bits);
        let mut s = String::new();
        proof {
            lemma_hex_seq_props(bits as nat, 32);
            assert(s@ =~= hex_seq(bits as nat, 32).subrange(0, 0));
        }
        for i in 0..32usize
            invariant
                ds@.len() == 32,
                forall|j: int|
                    0 <= j < 32 ==> ds@[j] < 16 && ds@[j] as nat == ((bits as nat) / pow16(
                        j as nat,
                    )) % 16,
                hex_seq(bits as nat, 32).len() == 32,
                s@ == hex_seq(bits as nat, 32).subrange(0, i as int),
        {
            let d = ds[31 - i];
            push_hex_digit(&mut s, d);
            proof {
                lemma_hex_seq_index(bits as nat, 32, (31 - i) as nat);
                assert(s@ =~= hex_seq(bits as nat, 32).subrange(0, i + 1));
            }
        }
        proof {
            assert(s@ =~= hex_seq(bits as nat, 32));
        }
        s
    }

    /// Render in the dashed form.
    pub fn to_dashed_string(&self) -> (r: String)
        ensures
            r@ == self.dashed_form(),
    {
        let simple = self.to_simple_string();
        proof {
            lemma_hex_seq_props(self.bits as nat, 32);
        }
        let mut s = String::new();
        s.append(simple.as_str().substring_char(0, 8));
        s.append("-");
        s.append(simple.as_str().substring_char(8, 12));
        s.append("-");
        s.append(simple.as_str().substring_char(12, 16));
        s.append("-");
        s.append(simple.as_str().substring_char(16, 20));
        s.append("-");
        s.append(simple.as_str().substring_char(20, 32));
        proof {
            reveal_strlit("-");
            assert("-"@ =~= seq!['-']);
            assert(s@ == self.dashed_form());
        }
        s
    }

    /// Parse the simple form. Returns None unless the string is exactly 32
    /// lowercase hex digits.
    pub fn from_simple_str(s: &str) -> (r: Option<Uuid>)
        ensures
            match r {
                Some(u) => is_simple_form(s@) && u.bits as nat == hex_decode(s@),
                None => !is_simple_form(s@),
            },
    {
        let n = s.unicode_len();
        if n != 32 {
            return None;
        }
        let mut acc: u128 = 0;
        proof {
            assert(s@.subrange(0, 0) =~= Seq::<char>::empty());
            lemma_pow16_32();
        }
        for i in 0..32usize
            invariant
                s@.len() == 32,
                all_hex(s@.subrange(0, i as int)),
                acc as nat == hex_decode(s@.subrange(0, i as int)),
                (acc as nat) < pow16(i as nat),
                pow16(32) == 0x100000000000000000000000000000000,
        {
            let c = s.get_char(i);
            match hex_val_of(c) {
                None => {
                    proof {
                        assert(s@[i as int] == c);
                        assert(!all_hex(s@));
                    }
                    return None;
                },
                Some(d) => {
                    proof {
                        lemma_pow16_mono((i + 1) as nat, 32);
                        assert(pow16((i + 1) as nat) == 16 * pow16(i as nat));
                        assert((acc as nat) * 16 + 15 < pow16((i + 1) as nat)) by (nonlinear_arith)
                            requires
                                (acc as nat) < pow16(i as nat),
                                pow16((i + 1) as nat) == 16 * pow16(i as nat),
                        ;
                    }
                    let next = acc * 16 + (d as u128);
                    proof {
                        let pre = s@.subrange(0, i as int);
                        let cur = s@.subrange(0, i + 1);
                        assert(cur.drop_last() =~= pre);
                        assert(cur.last() == s@[i as int]);
                    }
                    acc = next;
                },
            }
        }
        proof {
            assert(s@.subrange(0, 32) =~= s@);
        }
        Some(Uuid { bits: acc })
    }

    /// Parse the dashed form. Returns None unless the string is exactly 36
    /// characters with dashes at positions 8, 13, 18 and 23 and lowercase hex
    /// digits elsewhere.
    pub fn from_dashed_str(s: &str) -> (r: Option<Uuid>)
        ensures
            match r {
                Some(u) => is_dashed_form(s@) && u.bits as nat == hex_decode(undashed(s@)),
                None => !is_dashed_form(s@),
            },
    {
        let n = s.unicode_len();
        if n != 36 {
            return None;
        }
        if s.get_char(8) != '-' || s.get_char(13) != '-' || s.get_char(18) != '-' || s.get_char(
            23,
        ) != '-' {
            return None;
        }
        let mut t = String::new();
        t.append(s.substring_char(0, 8));
        t.append(s.substring_char(9, 13));
        t.append(s.substring_char(14, 18));
        t.append(s.substring_char(19, 23));
        t.append(s.substring_char(24, 36));
        proof {
            assert(t@ =~= undashed(s@));
        }
        match Self::from_simple_str(t.as_str()) {
            Some(u) => Some(u),
            None => None,
        }
    }
}

/// Encoding a value in the simple form and decoding it again is the
/// identity; the encoding is well-formed.
pub proof fn lemma_simple_roundtrip(u: Uuid)
    ensures
        is_simple_form(u.simple_form()),
        hex_decode(u.simple_form()) == u.bits as nat,
{
    lemma_hex_seq_props(u.bits as nat, 32);
    lemma_pow16_32();
}

/// Encoding a value in the dashed form and decoding it again is the
/// identity; the encoding is well-formed.
pub proof fn lemma_dashed_roundtrip(u: Uuid)
    ensures
        is_dashed_form(u.dashed_form()),
        hex_decode(undashed(u.dashed_form())) == u.bits as nat,
{
    lemma_simple_roundtrip(u);
    assert(undashed(u.dashed_form()) =~= u.simple_form());
}

} // verus!
