//! Short authentication strings: eight decimal digits that two parties
//! compare by voice.

use vstd::prelude::*;

use crate::security::secure_rng::RngError;
use crate::security::secure_rng::random;

verus! {

/// One hundred million: a short authentication string shows a number below it.
pub const SAS_MODULUS: u32 = 100000000;

/// Ten to the power of `exponent`, for exponents up to eight.
pub open spec fn power_of_ten(exponent: int) -> int {
    if exponent <= 0 {
        1
    } else if exponent == 1 {
        10
    } else if exponent == 2 {
        100
    } else if exponent == 3 {
        1000
    } else if exponent == 4 {
        10000
    } else if exponent == 5 {
        100000
    } else if exponent == 6 {
        1000000
    } else if exponent == 7 {
        10000000
    } else {
        100000000
    }
}

/// The decimal digit of `code` at `place`, counted from the left of eight places.
pub open spec fn sas_digit(code: u32, place: int) -> int {
    ((code as int) % power_of_ten(8 - place)) / power_of_ten(7 - place)
}

/// The character of a decimal digit.
pub open spec fn digit_char(digit: int) -> char {
    if digit == 0 {
        '0'
    } else if digit == 1 {
        '1'
    } else if digit == 2 {
        '2'
    } else if digit == 3 {
        '3'
    } else if digit == 4 {
        '4'
    } else if digit == 5 {
        '5'
    } else if digit == 6 {
        '6'
    } else if digit == 7 {
        '7'
    } else if digit == 8 {
        '8'
    } else {
        '9'
    }
}

/// The short authentication string of `code`: the eight decimal digits of
/// `code` modulo one hundred million, zeros in front included.
pub open spec fn sas_text(code: u32) -> Seq<char> {
    Seq::new(8, |place: int| digit_char(sas_digit(code, place)))
}

/// The eight digits of a short authentication string.
pub fn sas_digits(code: u32) -> (out: [u8; 8])
    ensures
        forall|place: int| 0 <= place < 8 ==> #[trigger] out@[place] == sas_digit(code, place),
        forall|place: int| 0 <= place < 8 ==> 0 <= #[trigger] out@[place] <= 9,
{
    [
        ((code % 100000000) / 10000000) as u8,
        ((code % 10000000) / 1000000) as u8,
        ((code % 1000000) / 100000) as u8,
        ((code % 100000) / 10000) as u8,
        ((code % 10000) / 1000) as u8,
        ((code % 1000) / 100) as u8,
        ((code % 100) / 10) as u8,
        (code % 10) as u8,
    ]
}

fn digit_text(digit: u8) -> (out: &'static str)
    requires
        digit <= 9,
    ensures
        out@ == seq![digit_char(digit as int)],
{
    proof {
        reveal_strlit("0");
        reveal_strlit("1");
        reveal_strlit("2");
        reveal_strlit("3");
        reveal_strlit("4");
        reveal_strlit("5");
        reveal_strlit("6");
        reveal_strlit("7");
        reveal_strlit("8");
        reveal_strlit("9");
    }
    let out = if digit == 0 {
        "0"
    } else if digit == 1 {
        "1"
    } else if digit == 2 {
        "2"
    } else if digit == 3 {
        "3"
    } else if digit == 4 {
        "4"
    } else if digit == 5 {
        "5"
    } else if digit == 6 {
        "6"
    } else if digit == 7 {
        "7"
    } else if digit == 8 {
        "8"
    } else {
        "9"
    };
    proof {
        assert(out@ =~= seq![digit_char(digit as int)]);
    }
    out
}

/// The short authentication string of a number.
pub fn sas_code(code: u32) -> (out: String)
    ensures
        out@ == sas_text(code),
{
    let digits = sas_digits(code);
    let mut out = String::new();
    let mut i: usize = 0;
    while i < 8
        invariant
            i <= 8,
            out@.len() == i,
            forall|place: int| 0 <= place < 8 ==> #[trigger] digits@[place]
                == sas_digit(code, place),
            forall|place: int| 0 <= place < 8 ==> 0 <= #[trigger] digits@[place] <= 9,
            forall|place: int|
                0 <= place < i ==> #[trigger] out@[place] == digit_char(sas_digit(code, place)),
        decreases 8 - i,
    {
        let ghost before = out@;
        out = vstd::string::StringExecFns::concat(out, digit_text(digits[i]));
        proof {
            assert(out@ =~= before.push(digit_char(sas_digit(code, i as int))));
        }
        i += 1;
    }
    proof {
        assert(out@ =~= sas_text(code));
    }
    out
}

/// A fresh short authentication string.
pub fn generate_sas_code() -> (out: Result<String, RngError>)
    ensures
        out matches Ok(code) ==> exists|number: u32| code@ == #[trigger] sas_text(number),
{
    match random::u32() {
        Ok(code) => Ok(sas_code(code)),
        Err(e) => Err(e),
    }
}

} // verus!
