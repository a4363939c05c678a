//! Base64 with the standard alphabet and padding.

use vstd::prelude::*;
use crate::state::Contract;

verus! {

/// The character that stands for the six-bit value `v` in the standard
/// alphabet: `A` to `Z`, `a` to `z`, `0` to `9`, `+` and `/`.
pub open spec fn base64_digit(v: int) -> char {
    if v < 26 {
        ('A' as int + v) as char
    } else if v < 52 {
        ('a' as int + v - 26) as char
    } else if v < 62 {
        ('0' as int + v - 52) as char
    } else if v == 62 {
        '+'
    } else {
        '/'
    }
}

/// The four characters for a group of one, two or three bytes. The bits of
/// the group are read six at a time from the top; a group of fewer than
/// three bytes is filled up with zero bits and its unused characters are
/// `=`.
pub open spec fn base64_group(group: Seq<u8>) -> Seq<char> {
    let b0 = group[0] as int;
    let b1 = if group.len() > 1 {
        group[1] as int
    } else {
        0
    };
    let b2 = if group.len() > 2 {
        group[2] as int
    } else {
        0
    };
    seq![
        base64_digit(b0 / 4),
        base64_digit((b0 % 4) * 16 + b1 / 16),
        if group.len() > 1 {
            base64_digit((b1 % 16) * 4 + b2 / 64)
        } else {
            '='
        },
        if group.len() > 2 {
            base64_digit(b2 % 64)
        } else {
            '='
        },
    ]
}

/// The padded base64 text of `input`: the groups of three bytes in order,
/// the last one shorter where the length is no multiple of three.
pub open spec fn base64_spec(input: Seq<u8>) -> Seq<char>
    decreases input.len(),
{
    if input.len() == 0 {
        Seq::empty()
    } else if input.len() <= 3 {
        base64_group(input)
    } else {
        base64_group(input.take(3)) + base64_spec(input.skip(3))
    }
}

/// The text has four characters for every group of up to three bytes.
pub proof fn lemma_base64_len(input: Seq<u8>)
    ensures
        base64_spec(input).len() == 4 * ((input.len() + 2) / 3),
    decreases input.len(),
{
    if input.len() > 3 {
        lemma_base64_len(input.skip(3));
    }
}

/// The six-bit values of a packed group, by shifts and masks and by
/// division.
proof fn lemma_sextets(b0: u8, b1: u8, b2: u8)
    by (bit_vector)
    ensures
        ({
            let b: u32 = ((b0 as u32) << 16) | ((b1 as u32) << 8) | (b2 as u32);
            &&& (b >> 18) & 0x3F == (b0 / 4) as u32
            &&& (b >> 12) & 0x3F == ((b0 % 4) * 16 + b1 / 16) as u32
            &&& (b >> 6) & 0x3F == ((b1 % 16) * 4 + b2 / 64) as u32
            &&& b & 0x3F == (b2 % 64) as u32
        }),
{
}

/// `String::push` of the standard library appends the character to the
/// text and changes nothing else of it.
pub assume_specification[ String::push ](text: &mut String, ch: char)
    ensures
        final(text)@ == old(text)@.push(ch),
;

/// The character for a six-bit value.
fn digit_char(v: u32) -> (c: char)
    requires
        v < 64,
    ensures
        c == base64_digit(v as int),
{
    let v: u8 = v as u8;
    if v < 26 {
        (65 + v) as char
    } else if v < 52 {
        (97 + (v - 26)) as char
    } else if v < 62 {
        (48 + (v - 52)) as char
    } else if v == 62 {
        '+'
    } else {
        '/'
    }
}

impl Contract {
    /// Encodes `input` in base64 with the standard alphabet and `=` padding.
    pub fn base64_encode(input: &[u8]) -> (text: String)
        ensures
            text@ == base64_spec(input@),
            text@.len() == 4 * ((input@.len() + 2) / 3),
    {
        let mut result = String::new();
        let mut i: usize = 0;
        assert(input@.skip(0) =~= input@);
        while i < input.len()
            invariant
                i <= input.len(),
                result@ + base64_spec(input@.skip(i as int)) == base64_spec(input@),
            decreases input.len() - i,
        {
            let left: usize = input.len() - i;
            let b0: u8 = input[i];
            let b1: u8 = if left > 1 {
                input[i + 1]
            } else {
                0
            };
            let b2: u8 = if left > 2 {
                input[i + 2]
            } else {
                0
            };
            let b: u32 = ((b0 as u32) << 16) | ((b1 as u32) << 8) | (b2 as u32);
            let ghost rest = input@.skip(i as int);
            let ghost group = if left > 3 {
                rest.take(3)
            } else {
                rest
            };
            let ghost before = result@;
            proof {
                lemma_sextets(b0, b1, b2);
                assert((b >> 18) & 0x3F < 64 && (b >> 12) & 0x3F < 64 && (b >> 6) & 0x3F < 64 && b
                    & 0x3F < 64) by (bit_vector);
            }
            result.push(digit_char((b >> 18) & 0x3F));
            result.push(digit_char((b >> 12) & 0x3F));
            if left > 1 {
                result.push(digit_char((b >> 6) & 0x3F));
            } else {
                result.push('=');
            }
            if left > 2 {
                result.push(digit_char(b & 0x3F));
            } else {
                result.push('=');
            }
            proof {
                assert(result@ =~= before + base64_group(group));
                if left > 3 {
                    assert(rest.skip(3) =~= input@.skip(i + 3));
                } else {
                    assert(input@.skip(input@.len() as int) =~= Seq::<u8>::empty());
                }
            }
            i = if left > 3 {
                i + 3
            } else {
                input.len()
            };
        }
        proof {
            assert(input@.skip(i as int) =~= Seq::<u8>::empty());
            lemma_base64_len(input@);
        }
        result
    }
}

} // verus!
