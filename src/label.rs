//! Spreadsheet-style column names: bijective base 26 over `A`..`Z`.
use vstd::prelude::*;
use vstd::string::*;

verus! {

/// The letter for digit `d` of a label, for `d < 26`: `A` for 0 up to `Z` for 25.
pub open spec fn letter(d: nat) -> char {
    "ABCDEFGHIJKLMNOPQRSTUVWXYZ"@[d as int]
}

/// The digit that letter `c` stands for.
pub open spec fn letter_value(c: char) -> int {
    c as u32 - 65
}

/// The label of zero-based column `n`: `A`..`Z`, then `AA`..`AZ`, `BA`, and so on.
pub open spec fn label_of(n: nat) -> Seq<char>
    decreases n,
{
    if n < 26 {
        seq![letter(n)]
    } else {
        label_of((n / 26 - 1) as nat) + seq![letter(n % 26)]
    }
}

/// The number that a label spells in bijective base 26, where `A` is 1 and `Z` is 26.
pub open spec fn label_value(s: Seq<char>) -> int
    decreases s.len(),
{
    if s.len() == 0 {
        0
    } else {
        label_value(s.drop_last()) * 26 + letter_value(s.last()) + 1
    }
}

/// The zero-based column that a label names: the inverse of `label_of`.
pub open spec fn column_of_label(s: Seq<char>) -> int {
    label_value(s) - 1
}

/// Reading back the label of any column gives that column.
pub proof fn lemma_label_round_trip(n: nat)
    ensures
        column_of_label(label_of(n)) == n,
    decreases n,
{
    reveal_strlit("ABCDEFGHIJKLMNOPQRSTUVWXYZ");
    if n < 26 {
        assert(label_of(n).drop_last() =~= Seq::<char>::empty());
        assert(label_value(Seq::<char>::empty()) == 0);
        assert(letter_value(letter(n)) == n);
    } else {
        let front = (n / 26 - 1) as nat;
        lemma_label_round_trip(front);
        let s = label_of(n);
        assert(s.drop_last() =~= label_of(front));
        assert(s.last() == letter(n % 26));
        assert(letter_value(letter(n % 26)) == n % 26);
        assert(label_value(s) == (front + 1) * 26 + n % 26 + 1);
    }
}

/// The label of zero-based column `col`.
pub fn col_nr_to_label(col: u16) -> (r: String)
    ensures
        r@ == label_of(col as nat),
    decreases col,
{
    let alphabet = "ABCDEFGHIJKLMNOPQRSTUVWXYZ";
    proof {
        reveal_strlit("ABCDEFGHIJKLMNOPQRSTUVWXYZ");
    }
    if col < 26 {
        let d = col as usize;
        let mut out = String::new();
        out.append(alphabet.substring_char(d, d + 1));
        assert(out@ =~= label_of(col as nat));
        out
    } else {
        let front = col / 26;
        let d = (col % 26) as usize;
        let mut out = col_nr_to_label(front - 1);
        out.append(alphabet.substring_char(d, d + 1));
        assert(out@ =~= label_of(col as nat));
        out
    }
}

} // verus!
