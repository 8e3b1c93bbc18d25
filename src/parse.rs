use vstd::prelude::*;

use vstd::string::StrSliceExecFns;

verus! {

/// Why a hexadecimal word could not be read.
#[derive(Clone, Copy, Debug, PartialEq, Eq, Structural)]
pub enum HexError {
    /// The text is empty.
    Empty,
    /// A character is not a hexadecimal digit (or only a sign is given).
    InvalidDigit,
    /// The digits denote a number above `u32::MAX`.
    Overflow,
}

pub open spec fn is_hex_digit(c: char) -> bool {
    ('0' <= c <= '9') || ('a' <= c <= 'f') || ('A' <= c <= 'F')
}

pub open spec fn hex_digit_value(c: char) -> int {
    if '0' <= c <= '9' {
        c as int - '0' as int
    } else if 'a' <= c <= 'f' {
        c as int - 'a' as int + 10
    } else {
        c as int - 'A' as int + 10
    }
}

/// The number that a sequence of hexadecimal digits denotes.
pub open spec fn hex_value(s: Seq<char>) -> int
    decreases s.len(),
{
    if s.len() == 0 {
        0
    } else {
        hex_value(s.drop_last()) * 16 + hex_digit_value(s.last())
    }
}

/// The digits of the text: all of it but one leading `+`.
pub open spec fn digits_of(s: Seq<char>) -> Seq<char> {
    if s.len() > 0 && s[0] == '+' {
        s.drop_first()
    } else {
        s
    }
}

pub open spec fn all_hex_digits(s: Seq<char>) -> bool {
    forall|i: int| 0 <= i < s.len() ==> is_hex_digit(#[trigger] s[i])
}

/// What reading `s` as a hexadecimal word gives.
pub open spec fn hex_parse(s: Seq<char>) -> Result<u32, HexError> {
    let d = digits_of(s);
    if s.len() == 0 {
        Err(HexError::Empty)
    } else if d.len() == 0 || !all_hex_digits(d) {
        Err(HexError::InvalidDigit)
    } else if hex_value(d) > u32::MAX {
        Err(HexError::Overflow)
    } else {
        Ok(hex_value(d) as u32)
    }
}

proof fn lemma_hex_value_take(s: Seq<char>, i: int)
    requires
        0 <= i < s.len(),
    ensures
        hex_value(s.take(i + 1)) == hex_value(s.take(i)) * 16 + hex_digit_value(s[i]),
{
    assert(s.take(i + 1).drop_last() =~= s.take(i));
}

fn digit_value(c: char) -> (r: Option<u32>)
    ensures
        match r {
            Some(v) => is_hex_digit(c) && v == hex_digit_value(c) && v < 16,
            None => !is_hex_digit(c),
        },
{
    if '0' <= c && c <= '9' {
        Some(c as u32 - '0' as u32)
    } else if 'a' <= c && c <= 'f' {
        Some(c as u32 - 'a' as u32 + 10)
    } else if 'A' <= c && c <= 'F' {
        Some(c as u32 - 'A' as u32 + 10)
    } else {
        None
    }
}

/// Reads a 32-bit word written in hexadecimal, without a prefix; one
/// leading `+` is allowed.
pub fn parse_hex(s: &str) -> (r: Result<u32, HexError>)
    ensures
        r == hex_parse(s@),
{
    let len = s.unicode_len();
    if len == 0 {
        return Err(HexError::Empty);
    }
    let start: usize = if s.get_char(0) == '+' { 1 } else { 0 };
    let ghost d = digits_of(s@);
    assert(d =~= s@.subrange(start as int, len as int));
    if start == len {
        return Err(HexError::InvalidDigit);
    }
    let mut value: u64 = 0;
    let mut overflow = false;
    let mut i: usize = start;
    assert(d.take(0) =~= Seq::<char>::empty());
    while i < len
        invariant
            start <= i <= len,
            len == s@.len(),
            d == s@.subrange(start as int, len as int),
            d == digits_of(s@),
            all_hex_digits(d.take(i - start)),
            !overflow ==> value == hex_value(d.take(i - start)) && value <= u32::MAX,
            overflow ==> hex_value(d.take(i - start)) > u32::MAX,
        decreases len - i,
    {
        let c = s.get_char(i);
        let ghost k: int = i - start;
        assert(d[k] == c);
        match digit_value(c) {
            None => {
                assert(!is_hex_digit(d[k]));
                assert(!all_hex_digits(d));
                return Err(HexError::InvalidDigit);
            },
            Some(v) => {
                proof {
                    lemma_hex_value_take(d, k);
                }
                if !overflow {
                    value = value * 16 + v as u64;
                    if value > u32::MAX as u64 {
                        overflow = true;
                    }
                }
                assert(all_hex_digits(d.take(k + 1))) by {
                    assert forall|j: int| 0 <= j < k + 1 implies is_hex_digit(#[trigger] d.take(k + 1)[j]) by {
                        if j < k {
                            assert(d.take(k + 1)[j] == d.take(k)[j]);
                        }
                    }
                }
            },
        }
        i = i + 1;
    }
    assert(d.take(len - start) =~= d);
    if overflow {
        Err(HexError::Overflow)
    } else {
        Ok(value as u32)
    }
}

} // verus!
