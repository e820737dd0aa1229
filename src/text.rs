//! Decimal rendering of integers, letter by letter.
use vstd::prelude::*;
use vstd::string::*;

verus! {

/// The decimal digit `d`, for `d < 10`.
pub open spec fn digit(d: nat) -> char {
    "0123456789"@[d as int]
}

/// The decimal digits of `n`, most significant first, without leading zeros.
pub open spec fn digits_of(n: nat) -> Seq<char>
    decreases n,
{
    if n < 10 {
        seq![digit(n)]
    } else {
        digits_of(n / 10) + seq![digit(n % 10)]
    }
}

/// The decimal representation of `v`, with a leading `-` when negative.
pub open spec fn decimal_of(v: int) -> Seq<char> {
    if v < 0 {
        seq!['-'] + digits_of((-v) as nat)
    } else {
        digits_of(v as nat)
    }
}

/// The digits of `n`, as a string.
pub fn digits_text(n: u64) -> (r: String)
    ensures
        r@ == digits_of(n as nat),
    decreases n,
{
    let table = "0123456789";
    proof {
        reveal_strlit("0123456789");
    }
    let d = (n % 10) as usize;
    let piece = table.substring_char(d, d + 1);
    if n < 10 {
        let mut out = String::new();
        out.append(piece);
        assert(out@ =~= digits_of(n as nat));
        out
    } else {
        let mut out = digits_text(n / 10);
        out.append(piece);
        assert(out@ =~= digits_of(n as nat));
        out
    }
}

/// The decimal representation of `v`, as a string.
pub fn decimal_text(v: i64) -> (r: String)
    ensures
        r@ == decimal_of(v as int),
{
    if v < 0 {
        let magnitude: u64 = (0i128 - v as i128) as u64;
        let mut out = String::from_str("-");
        proof {
            reveal_strlit("-");
        }
        let digits = digits_text(magnitude);
        out.append(digits.as_str());
        assert(out@ =~= decimal_of(v as int));
        out
    } else {
        digits_text(v as u64)
    }
}

} // verus!
