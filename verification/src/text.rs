use vstd::prelude::*;

verus! {

/// The character standing for one decimal digit.
pub open spec fn digit_char(d: int) -> char
    recommends
        0 <= d < 10,
{
    if d == 0 {
        '0'
    } else if d == 1 {
        '1'
    } else if d == 2 {
        '2'
    } else if d == 3 {
        '3'
    } else if d == 4 {
        '4'
    } else if d == 5 {
        '5'
    } else if d == 6 {
        '6'
    } else if d == 7 {
        '7'
    } else if d == 8 {
        '8'
    } else {
        '9'
    }
}

/// The decimal writing of `n`, most significant digit first, no leading zeros
/// (a single `'0'` for zero).
pub open spec fn dec_digits(n: nat) -> Seq<char>
    decreases n,
{
    if n < 10 {
        seq![digit_char(n as int)]
    } else {
        dec_digits(n / 10) + seq![digit_char((n % 10) as int)]
    }
}

/// The one-character string of a decimal digit.
fn digit_literal(d: u64) -> (s: &'static str)
    requires
        d < 10,
    ensures
        s@ =~= seq![digit_char(d as int)],
{
    proof {
        reveal_strlit("0");
        reveal_strlit("1");
        reveal_strlit("2");
        reveal_strlit("3");
        reveal_strlit("4");
        reveal_strlit("5");
        reveal_strlit("6");
        reveal_strlit("7");
        reveal_strlit("8");
        reveal_strlit("9");
    }
    match d {
        0 => "0",
        1 => "1",
        2 => "2",
        3 => "3",
        4 => "4",
        5 => "5",
        6 => "6",
        7 => "7",
        8 => "8",
        _ => "9",
    }
}

/// Writes `n` in decimal.
pub fn u64_to_string(n: u64) -> (s: String)
    ensures
        s@ == dec_digits(n as nat),
{
    let mut digits: Vec<u64> = Vec::new();
    let mut m: u64 = n;
    let ghost mut suffix: Seq<char> = Seq::empty();
    loop
        invariant_except_break
            digits@.len() == 0 ==> m == n && suffix == Seq::<char>::empty(),
            digits@.len() > 0 ==> m > 0 && dec_digits(n as nat) == dec_digits(m as nat) + suffix,
        invariant
            forall|j: int| 0 <= j < digits@.len() ==> digits@[j] < 10,
            suffix.len() == digits@.len(),
            forall|j: int|
                0 <= j < digits@.len() ==> suffix[j] == digit_char(
                    digits@[digits@.len() - 1 - j] as int,
                ),
        ensures
            dec_digits(n as nat) == suffix,
        decreases m, (if digits@.len() == 0 { 1int } else { 0int }),
    {
        let d = m % 10;
        let m2 = m / 10;
        proof {
            let old_suffix = suffix;
            suffix = seq![digit_char(d as int)] + suffix;
            assert forall|j: int| 1 <= j < suffix.len() implies suffix[j] == digit_char(
                digits@[digits@.len() - j] as int,
            ) by {
                assert(suffix[j] == old_suffix[j - 1]);
            }
            assert(dec_digits(n as nat) =~= dec_digits(m as nat) + old_suffix);
            if m2 > 0 {
                assert(dec_digits(m as nat) == dec_digits(m2 as nat) + seq![
                    digit_char(d as int),
                ]);
                assert(dec_digits(m2 as nat) + (seq![digit_char(d as int)] + old_suffix) =~= (
                dec_digits(m2 as nat) + seq![digit_char(d as int)]) + old_suffix);
            } else {
                assert(dec_digits(m as nat) == seq![digit_char(d as int)]);
                assert(dec_digits(n as nat) =~= seq![digit_char(d as int)] + old_suffix);
            }
        }
        digits.push(d);
        m = m2;
        if m == 0 {
            break;
        }
    }
    let mut s = String::new();
    let n_digits = digits.len();
    let mut j: usize = 0;
    while j < n_digits
        invariant
            n_digits == digits@.len(),
            j <= n_digits,
            forall|k: int| 0 <= k < digits@.len() ==> digits@[k] < 10,
            suffix.len() == digits@.len(),
            forall|k: int|
                0 <= k < digits@.len() ==> suffix[k] == digit_char(
                    digits@[digits@.len() - 1 - k] as int,
                ),
            dec_digits(n as nat) == suffix,
            s@ =~= suffix.take(j as int),
        decreases n_digits - j,
    {
        let piece = digit_literal(digits[n_digits - 1 - j]);
        s.append(piece);
        proof {
            assert(s@ =~= suffix.take(j + 1int));
        }
        j += 1;
    }
    proof {
        assert(suffix.take(n_digits as int) =~= suffix);
    }
    s
}

/// Compares two strings character by character.
pub fn str_eq(a: &str, b: &str) -> (r: bool)
    ensures
        r == (a@ == b@),
{
    let na = a.unicode_len();
    let nb = b.unicode_len();
    if na != nb {
        return false;
    }
    let mut i: usize = 0;
    while i < na
        invariant
            na == a@.len(),
            nb == b@.len(),
            na == nb,
            i <= na,
            forall|j: int| 0 <= j < i ==> a@[j] == b@[j],
        decreases na - i,
    {
        if a.get_char(i) != b.get_char(i) {
            return false;
        }
        i += 1;
    }
    proof {
        assert(a@ =~= b@);
    }
    true
}

} // verus!
