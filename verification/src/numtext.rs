//! Decimal rendering of the integers the reports print: whole numbers, and
//! scaled hundredths shown with two decimal places.

use vstd::prelude::*;

verus! {

/// The character for one decimal digit.
pub open spec fn spec_digit_char(d: int) -> char {
    if d == 0 {
        '0'
    } else if d == 1 {
        '1'
    } else if d == 2 {
        '2'
    } else if d == 3 {
        '3'
    } else if d == 4 {
        '4'
    } else if d == 5 {
        '5'
    } else if d == 6 {
        '6'
    } else if d == 7 {
        '7'
    } else if d == 8 {
        '8'
    } else {
        '9'
    }
}

/// The decimal digits of a number, most significant first, with no leading
/// zeros (zero itself is the single digit 0).
pub open spec fn spec_dec_digits(v: nat) -> Seq<char>
    decreases v,
{
    if v < 10 {
        seq![spec_digit_char(v as int)]
    } else {
        spec_dec_digits(v / 10).push(spec_digit_char((v % 10) as int))
    }
}

/// A count of hundredths rendered with two decimal places: the whole part,
/// a point, and two fraction digits.
pub open spec fn spec_hundredths_text(v: nat) -> Seq<char> {
    spec_dec_digits(v / 100) + seq![
        '.',
        spec_digit_char(((v % 100) / 10) as int),
        spec_digit_char((v % 10) as int),
    ]
}

/// The one-character string for a decimal digit.
fn digit_str(d: u8) -> (r: &'static str)
    requires
        d < 10,
    ensures
        r@ == seq![spec_digit_char(d as int)],
{
    proof {
        reveal_strlit("0");
        reveal_strlit("1");
        reveal_strlit("2");
        reveal_strlit("3");
        reveal_strlit("4");
        reveal_strlit("5");
        reveal_strlit("6");
        reveal_strlit("7");
        reveal_strlit("8");
        reveal_strlit("9");
    }
    if d == 0 {
        "0"
    } else if d == 1 {
        "1"
    } else if d == 2 {
        "2"
    } else if d == 3 {
        "3"
    } else if d == 4 {
        "4"
    } else if d == 5 {
        "5"
    } else if d == 6 {
        "6"
    } else if d == 7 {
        "7"
    } else if d == 8 {
        "8"
    } else {
        "9"
    }
}

/// Render a number in decimal.
pub fn u64_to_string(v: u64) -> (r: String)
    ensures
        r@ == spec_dec_digits(v as nat),
{
    let mut tmp: Vec<u8> = Vec::new();
    let mut x: u64 = v;
    while x >= 10
        invariant
            spec_dec_digits(v as nat) == spec_dec_digits(x as nat) + spec_rev_digit_chars(tmp@),
            forall|k: int| 0 <= k < tmp@.len() ==> (#[trigger] tmp@[k]) < 10,
        decreases x,
    {
        let ghost t0 = tmp@;
        let d = (x % 10) as u8;
        tmp.push(d);
        x = x / 10;
        proof {
            assert(tmp@.drop_last() =~= t0);
            assert(spec_rev_digit_chars(tmp@) == seq![
                spec_digit_char(d as int),
            ] + spec_rev_digit_chars(t0));
            assert(spec_dec_digits((x * 10 + d) as nat) == spec_dec_digits(x as nat).push(
                spec_digit_char(d as int),
            ));
            assert(spec_dec_digits(x as nat).push(spec_digit_char(d as int))
                + spec_rev_digit_chars(t0) =~= spec_dec_digits(x as nat) + (seq![
                spec_digit_char(d as int),
            ] + spec_rev_digit_chars(t0)));
        }
    }
    let mut s = String::new();
    s.append(digit_str(x as u8));
    let ghost full = spec_dec_digits(v as nat);
    proof {
        lemma_rev_digit_len(tmp@);
        assert(spec_dec_digits(x as nat) == seq![spec_digit_char(x as int)]);
        assert(full.len() == 1 + tmp@.len());
        assert(full[0] == spec_digit_char(x as int));
        assert(s@ =~= full.take(full.len() - tmp@.len()));
    }
    let mut k: usize = tmp.len();
    while k > 0
        invariant
            k <= tmp@.len(),
            forall|j: int| 0 <= j < tmp@.len() ==> (#[trigger] tmp@[j]) < 10,
            full == spec_dec_digits(v as nat),
            full.len() == 1 + tmp@.len(),
            full == spec_dec_digits(x as nat) + spec_rev_digit_chars(tmp@),
            x < 10,
            s@ == full.take(full.len() - k),
        decreases k,
    {
        let ghost s0 = s@;
        s.append(digit_str(tmp[k - 1]));
        proof {
            lemma_rev_digit_index(tmp@, k - 1);
            assert(full[full.len() - k] == spec_digit_char(tmp@[k - 1] as int));
            assert(s@ =~= full.take(full.len() - (k - 1)));
        }
        k -= 1;
    }
    proof {
        assert(full.take(full.len() as int) =~= full);
    }
    s
}

/// The digit characters of a reversed digit-value list: the last pushed
/// value comes first.
pub open spec fn spec_rev_digit_chars(t: Seq<u8>) -> Seq<char>
    decreases t.len(),
{
    if t.len() == 0 {
        Seq::empty()
    } else {
        seq![spec_digit_char(t.last() as int)] + spec_rev_digit_chars(t.drop_last())
    }
}

proof fn lemma_rev_digit_index(t: Seq<u8>, j: int)
    requires
        0 <= j < t.len(),
    ensures
        spec_rev_digit_chars(t).len() == t.len(),
        spec_rev_digit_chars(t)[t.len() - 1 - j] == spec_digit_char(t[j] as int),
    decreases t.len(),
{
    lemma_rev_digit_len(t);
    if j < t.len() - 1 {
        lemma_rev_digit_index(t.drop_last(), j);
        lemma_rev_digit_len(t.drop_last());
    }
}

proof fn lemma_rev_digit_len(t: Seq<u8>)
    ensures
        spec_rev_digit_chars(t).len() == t.len(),
    decreases t.len(),
{
    if t.len() > 0 {
        lemma_rev_digit_len(t.drop_last());
    }
}

/// Render a count of hundredths with two decimal places, as in 66.67 for
/// 6667.
pub fn hundredths_to_string(v: u64) -> (r: String)
    ensures
        r@ == spec_hundredths_text(v as nat),
{
    let mut s = u64_to_string(v / 100);
    proof {
        reveal_strlit(".");
    }
    s.append(".");
    s.append(digit_str(((v % 100) / 10) as u8));
    s.append(digit_str((v % 10) as u8));
    proof {
        assert((v % 100) / 10 < 10);
        assert(v % 10 == (v as nat % 100) % 10);
        assert(s@ =~= spec_hundredths_text(v as nat));
    }
    s
}

/// Render a wide number in decimal.
pub fn u128_to_string(v: u128) -> (r: String)
    ensures
        r@ == spec_dec_digits(v as nat),
{
    let mut tmp: Vec<u8> = Vec::new();
    let mut x: u128 = v;
    while x >= 10
        invariant
            spec_dec_digits(v as nat) == spec_dec_digits(x as nat) + spec_rev_digit_chars(tmp@),
            forall|k: int| 0 <= k < tmp@.len() ==> (#[trigger] tmp@[k]) < 10,
        decreases x,
    {
        let ghost t0 = tmp@;
        let d = (x % 10) as u8;
        tmp.push(d);
        x = x / 10;
        proof {
            assert(tmp@.drop_last() =~= t0);
            assert(spec_rev_digit_chars(tmp@) == seq![
                spec_digit_char(d as int),
            ] + spec_rev_digit_chars(t0));
            assert(spec_dec_digits((x * 10 + d) as nat) == spec_dec_digits(x as nat).push(
                spec_digit_char(d as int),
            ));
            assert(spec_dec_digits(x as nat).push(spec_digit_char(d as int))
                + spec_rev_digit_chars(t0) =~= spec_dec_digits(x as nat) + (seq![
                spec_digit_char(d as int),
            ] + spec_rev_digit_chars(t0)));
        }
    }
    let mut s = String::new();
    s.append(digit_str(x as u8));
    let ghost full = spec_dec_digits(v as nat);
    proof {
        lemma_rev_digit_len(tmp@);
        assert(spec_dec_digits(x as nat) == seq![spec_digit_char(x as int)]);
        assert(full.len() == 1 + tmp@.len());
        assert(full[0] == spec_digit_char(x as int));
        assert(s@ =~= full.take(full.len() - tmp@.len()));
    }
    let mut k: usize = tmp.len();
    while k > 0
        invariant
            k <= tmp@.len(),
            forall|j: int| 0 <= j < tmp@.len() ==> (#[trigger] tmp@[j]) < 10,
            full == spec_dec_digits(v as nat),
            full.len() == 1 + tmp@.len(),
            full == spec_dec_digits(x as nat) + spec_rev_digit_chars(tmp@),
            x < 10,
            s@ == full.take(full.len() - k),
        decreases k,
    {
        let ghost s0 = s@;
        s.append(digit_str(tmp[k - 1]));
        proof {
            lemma_rev_digit_index(tmp@, k - 1);
            assert(full[full.len() - k] == spec_digit_char(tmp@[k - 1] as int));
            assert(s@ =~= full.take(full.len() - (k - 1)));
        }
        k -= 1;
    }
    proof {
        assert(full.take(full.len() as int) =~= full);
    }
    s
}

/// Render a wide count of hundredths with two decimal places.
pub fn hundredths_to_string_u128(v: u128) -> (r: String)
    ensures
        r@ == spec_hundredths_text(v as nat),
{
    let mut s = u128_to_string(v / 100);
    proof {
        reveal_strlit(".");
    }
    s.append(".");
    s.append(digit_str(((v % 100) / 10) as u8));
    s.append(digit_str((v % 10) as u8));
    proof {
        assert((v % 100) / 10 < 10);
        assert(v % 10 == (v as nat % 100) % 10);
        assert(s@ =~= spec_hundredths_text(v as nat));
    }
    s
}

} // verus!
