//! Identifier normalizer: source data encodes 64-bit-scale identifiers either
//! as native numbers or as decimal strings; both are brought to one canonical
//! decimal-string form so that equal identifiers always compare equal.
use crate::json::Json;
use vstd::prelude::*;
use vstd::string::*;

verus! {

/// A decimal digit character.
pub open spec fn is_digit_char(c: char) -> bool {
    48 <= (c as u32) && (c as u32) <= 57
}

/// A canonical identifier: a non-empty string of decimal digits.
pub open spec fn is_canonical_id(s: Seq<char>) -> bool {
    s.len() > 0 && forall|i: int| 0 <= i < s.len() ==> is_digit_char(#[trigger] s[i])
}

/// The character for one decimal digit.
pub open spec fn digit_char(d: nat) -> char {
    if d == 0 {
        '0'
    } else if d == 1 {
        '1'
    } else if d == 2 {
        '2'
    } else if d == 3 {
        '3'
    } else if d == 4 {
        '4'
    } else if d == 5 {
        '5'
    } else if d == 6 {
        '6'
    } else if d == 7 {
        '7'
    } else if d == 8 {
        '8'
    } else {
        '9'
    }
}

/// The decimal digit sequence of a natural number, most significant first.
pub open spec fn dec_digits(n: nat) -> Seq<char>
    decreases n,
{
    if n < 10 {
        seq![digit_char(n)]
    } else {
        dec_digits(n / 10).push(digit_char(n % 10))
    }
}

fn digit_str(d: u64) -> (r: &'static str)
    requires
        d < 10,
    ensures
        r@ == seq![digit_char(d as nat)],
{
    proof {
        reveal_strlit("0");
        reveal_strlit("1");
        reveal_strlit("2");
        reveal_strlit("3");
        reveal_strlit("4");
        reveal_strlit("5");
        reveal_strlit("6");
        reveal_strlit("7");
        reveal_strlit("8");
        reveal_strlit("9");
    }
    let r = match d {
        0 => "0",
        1 => "1",
        2 => "2",
        3 => "3",
        4 => "4",
        5 => "5",
        6 => "6",
        7 => "7",
        8 => "8",
        _ => "9",
    };
    proof {
        assert(r@ =~= seq![digit_char(d as nat)]);
    }
    r
}

/// Renders a number as its canonical decimal string.
pub fn u64_to_dec_string(n: u64) -> (r: String)
    ensures
        r@ == dec_digits(n as nat),
    decreases n,
{
    if n < 10 {
        digit_str(n).to_owned()
    } else {
        let mut s = u64_to_dec_string(n / 10);
        s.append(digit_str(n % 10));
        proof {
            assert(s@ =~= dec_digits(n as nat));
        }
        s
    }
}

/// Decides whether a string already is a canonical identifier.
pub fn is_digit_str(s: &str) -> (r: bool)
    ensures
        r == is_canonical_id(s@),
{
    let n = s.unicode_len();
    if n == 0 {
        return false;
    }
    let mut i: usize = 0;
    while i < n
        invariant
            0 <= i <= n,
            n == s@.len(),
            forall|k: int| 0 <= k < i ==> is_digit_char(#[trigger] s@[k]),
        decreases n - i,
    {
        let c = s.get_char(i);
        let u = c as u32;
        if u < 48 || u > 57 {
            proof {
                assert(!is_digit_char(s@[i as int]));
            }
            return false;
        }
        i += 1;
    }
    true
}

/// The canonical decimal form of an identifier value, `None` where the value
/// has a shape the engine rejects (no coercion is attempted).
pub open spec fn spec_canon_id(j: Json) -> Option<Seq<char>> {
    match j {
        Json::Str(s) => if is_canonical_id(s@) {
            Some(s@)
        } else {
            None
        },
        Json::UInt(n) => Some(dec_digits(n as nat)),
        _ => None,
    }
}

/// Normalizes a string-or-number encoded identifier to its canonical decimal
/// string; any other shape is rejected.
pub fn canon_id(j: &Json) -> (r: Option<String>)
    ensures
        match r {
            Some(s) => spec_canon_id(*j) == Some(s@),
            None => spec_canon_id(*j) is None,
        },
{
    match j {
        Json::Str(s) => if is_digit_str(s.as_str()) {
            Some(s.clone())
        } else {
            None
        },
        Json::UInt(n) => Some(u64_to_dec_string(*n)),
        _ => None,
    }
}

/// The digit sequence of a number is a canonical identifier.
pub proof fn lemma_dec_digits_canonical(n: nat)
    ensures
        is_canonical_id(dec_digits(n)),
    decreases n,
{
    if n < 10 {
        assert(is_digit_char(digit_char(n)));
        assert(dec_digits(n)[0] == digit_char(n));
    } else {
        lemma_dec_digits_canonical(n / 10);
        assert(is_digit_char(digit_char(n % 10)));
        assert(forall|i: int|
            0 <= i < dec_digits(n).len() ==> is_digit_char(#[trigger] dec_digits(n)[i]));
    }
}

/// Normalization is encoding-agnostic: an identifier yields the same
/// canonical form whether the source wrote it as a number or as that
/// number's decimal string.
pub proof fn lemma_canon_id_encoding_agnostic(n: u64, s: String)
    requires
        s@ == dec_digits(n as nat),
    ensures
        spec_canon_id(Json::UInt(n)) == spec_canon_id(Json::Str(s)),
{
    lemma_dec_digits_canonical(n as nat);
}

} // verus!
