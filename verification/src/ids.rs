//! Identifier handling: parsing the hyphenated textual form of a 128-bit
//! id (8-4-4-4-12 hexadecimal digits) into its value.

use vstd::prelude::*;

verus! {

/// A hexadecimal digit: 0-9, a-f, or A-F.
pub open spec fn spec_is_hex_digit(c: char) -> bool {
    ||| 48 <= c as int <= 57  // '0' to '9'
    ||| 97 <= c as int <= 102  // 'a' to 'f'
    ||| 65 <= c as int <= 70  // 'A' to 'F'
}

/// The value of a hexadecimal digit.
pub open spec fn spec_hex_val(c: char) -> nat {
    if 48 <= c as int <= 57 {
        (c as int - 48) as nat
    } else if 97 <= c as int <= 102 {
        (c as int - 87) as nat
    } else {
        (c as int - 55) as nat
    }
}

/// A valid textual id: 36 characters, hyphens at positions 8, 13, 18 and
/// 23, hexadecimal digits everywhere else.
pub open spec fn spec_uuid_valid(s: Seq<char>) -> bool {
    &&& s.len() == 36
    &&& forall|i: int|
        0 <= i < 36 ==> (if i == 8 || i == 13 || i == 18 || i == 23 {
            s[i] == '-'
        } else {
            spec_is_hex_digit(#[trigger] s[i])
        })
}

/// The big-endian value of a sequence of hexadecimal digits.
pub open spec fn spec_hex_value(digits: Seq<char>) -> nat
    decreases digits.len(),
{
    if digits.len() == 0 {
        0
    } else {
        spec_hex_value(digits.drop_last()) * 16 + spec_hex_val(digits.last())
    }
}

/// The hexadecimal digits among the first `i` characters, hyphen positions
/// skipped.
pub open spec fn spec_hex_prefix(s: Seq<char>, i: int) -> Seq<char>
    decreases i,
{
    if i <= 0 {
        Seq::empty()
    } else if i - 1 == 8 || i - 1 == 13 || i - 1 == 18 || i - 1 == 23 {
        spec_hex_prefix(s, i - 1)
    } else {
        spec_hex_prefix(s, i - 1).push(s[i - 1])
    }
}

/// The value a valid textual id denotes.
pub open spec fn spec_uuid_value(s: Seq<char>) -> nat {
    spec_hex_value(spec_hex_prefix(s, 36))
}

/// How many of the first `i` positions are hyphen positions.
pub open spec fn spec_dash_count(i: int) -> int {
    (if i > 8 {
        1int
    } else {
        0int
    }) + (if i > 13 {
        1int
    } else {
        0int
    }) + (if i > 18 {
        1int
    } else {
        0int
    }) + (if i > 23 {
        1int
    } else {
        0int
    })
}

proof fn lemma_hex_prefix_len(s: Seq<char>, i: int)
    requires
        0 <= i <= 36,
    ensures
        spec_hex_prefix(s, i).len() == i - spec_dash_count(i),
    decreases i,
{
    if i > 0 {
        lemma_hex_prefix_len(s, i - 1);
    }
}

/// Sixteen to a power.
pub open spec fn pow16(k: nat) -> nat
    decreases k,
{
    if k == 0 {
        1
    } else {
        16 * pow16((k - 1) as nat)
    }
}

proof fn lemma_pow16_32()
    ensures
        pow16(32) == 0x100000000000000000000000000000000,
{
    reveal_with_fuel(pow16, 33);
}

proof fn lemma_pow16_mono(a: nat, b: nat)
    requires
        a <= b,
    ensures
        pow16(a) <= pow16(b),
    decreases b,
{
    if a < b {
        lemma_pow16_mono(a, (b - 1) as nat);
        assert(pow16(b) == 16 * pow16((b - 1) as nat));
        assert(pow16((b - 1) as nat) >= 1) by {
            lemma_pow16_pos((b - 1) as nat);
        }
    }
}

proof fn lemma_pow16_pos(k: nat)
    ensures
        pow16(k) >= 1,
    decreases k,
{
    if k > 0 {
        lemma_pow16_pos((k - 1) as nat);
    }
}

/// Decode one hexadecimal digit.
fn hex_digit_val(c: char) -> (r: Option<u8>)
    ensures
        match r {
            Some(d) => spec_is_hex_digit(c) && d == spec_hex_val(c),
            None => !spec_is_hex_digit(c),
        },
{
    let u = c as u32;
    if u >= 48 && u <= 57 {
        Some((u - 48) as u8)
    } else if u >= 97 && u <= 102 {
        Some((u - 87) as u8)
    } else if u >= 65 && u <= 70 {
        Some((u - 55) as u8)
    } else {
        None
    }
}

/// Parse the hyphenated textual form of a 128-bit id.
///
/// Returns the id value exactly when the text is 36 characters with
/// hyphens at positions 8, 13, 18 and 23 and hexadecimal digits elsewhere;
/// `None` on any other text.
pub fn parse_uuid(s: &str) -> (r: Option<u128>)
    ensures
        r is Some <==> spec_uuid_valid(s@),
        (r matches Some(v) ==> v == spec_uuid_value(s@)),
{
    let n = s.unicode_len();
    if n != 36 {
        return None;
    }
    let mut acc: u128 = 0;
    let mut ndigits: usize = 0;
    let mut i: usize = 0;
    while i < 36
        invariant
            i <= 36,
            n == 36,
            s@.len() == 36,
            ndigits == i - spec_dash_count(i as int),
            acc == spec_hex_value(spec_hex_prefix(s@, i as int)),
            acc < pow16(ndigits as nat),
            ndigits <= 32,
            forall|j: int|
                0 <= j < i ==> (if j == 8 || j == 13 || j == 18 || j == 23 {
                    s@[j] == '-'
                } else {
                    spec_is_hex_digit(#[trigger] s@[j])
                }),
        decreases 36 - i,
    {
        let c = s.get_char(i);
        let ghost p = spec_hex_prefix(s@, i as int);
        if i == 8 || i == 13 || i == 18 || i == 23 {
            if c != '-' {
                return None;
            }
            proof {
                assert(spec_hex_prefix(s@, i + 1) == p);
            }
        } else {
            match hex_digit_val(c) {
                None => {
                    return None;
                },
                Some(d) => {
                    proof {
                        lemma_hex_prefix_len(s@, i as int);
                        assert(ndigits <= 31);
                        lemma_pow16_mono(ndigits as nat, 31);
                        lemma_pow16_mono(31, 32);
                        lemma_pow16_32();
                        assert(16 * pow16(31) == pow16(32));
                        assert(acc * 16 + 15 < pow16((ndigits + 1) as nat)) by {
                            assert(acc + 1 <= pow16(ndigits as nat));
                            assert((acc + 1) * 16 <= pow16(ndigits as nat) * 16) by (
                            nonlinear_arith)
                                requires
                                    acc + 1 <= pow16(ndigits as nat),
                            ;
                            assert(pow16((ndigits + 1) as nat) == 16 * pow16(ndigits as nat));
                        }
                        assert(acc * 16 + d < pow16(32));
                    }
                    acc = acc * 16 + (d as u128);
                    ndigits += 1;
                    proof {
                        let p2 = spec_hex_prefix(s@, i + 1);
                        assert(p2 == p.push(s@[i as int]));
                        assert(p2.drop_last() =~= p);
                        assert(p2.last() == s@[i as int]);
                        assert(acc == spec_hex_value(p2));
                    }
                },
            }
        }
        i += 1;
    }
    proof {
        assert(spec_uuid_valid(s@));
    }
    Some(acc)
}

} // verus!
