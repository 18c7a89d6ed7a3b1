use vstd::prelude::*;
use vstd::bytes::{spec_u32_from_le_bytes, u32_from_le_bytes};
use crate::protocol::constants::MAX_FRAME_SIZE;
use crate::protocol::error::ProtocolError;

verus! {

/// The character of decimal digit `d`.
pub open spec fn digit_char(d: nat) -> char {
    (48 + d) as char
}

/// The decimal representation of `n`.
pub open spec fn decimal(n: nat) -> Seq<char>
    decreases n,
{
    if n < 10 {
        seq![digit_char(n)]
    } else {
        decimal(n / 10).push(digit_char(n % 10))
    }
}

fn digit_str(d: u64) -> (r: &'static str)
    requires
        d < 10,
    ensures
        r@ == seq![digit_char(d as nat)],
{
    proof {
        reveal_strlit("0");
        reveal_strlit("1");
        reveal_strlit("2");
        reveal_strlit("3");
        reveal_strlit("4");
        reveal_strlit("5");
        reveal_strlit("6");
        reveal_strlit("7");
        reveal_strlit("8");
        reveal_strlit("9");
    }
    if d == 0 {
        "0"
    } else if d == 1 {
        "1"
    } else if d == 2 {
        "2"
    } else if d == 3 {
        "3"
    } else if d == 4 {
        "4"
    } else if d == 5 {
        "5"
    } else if d == 6 {
        "6"
    } else if d == 7 {
        "7"
    } else if d == 8 {
        "8"
    } else {
        "9"
    }
}

/// The decimal representation of `n` as a string.
pub fn decimal_string(n: u64) -> (r: String)
    ensures
        r@ == decimal(n as nat),
    decreases n,
{
    if n < 10 {
        String::from_str(digit_str(n))
    } else {
        let mut s = decimal_string(n / 10);
        s.append(digit_str(n % 10));
        s
    }
}

/// The number whose big-endian bytes are the four bytes of `s`.
pub open spec fn be_to_u32(s: Seq<u8>) -> u32 {
    spec_u32_from_le_bytes(s.reverse())
}

/// The length a frame announces in its four-byte big-endian prefix;
/// refused with `InvalidFrame("Frame size <n> exceeds max")` beyond
/// `MAX_FRAME_SIZE`.
pub fn frame_length(len_buf: &[u8; 4]) -> (r: Result<usize, ProtocolError>)
    ensures
        ({
            let n = be_to_u32(len_buf@);
            if n > MAX_FRAME_SIZE {
                r matches Err(ProtocolError::InvalidFrame(s))
                    && s@ == "Frame size "@ + decimal(n as nat) + " exceeds max"@
            } else {
                r matches Ok(len) && len == n
            }
        }),
{
    let le: [u8; 4] = [len_buf[3], len_buf[2], len_buf[1], len_buf[0]];
    assert(le@ =~= len_buf@.reverse());
    let n = u32_from_le_bytes(&le);
    if n as usize > MAX_FRAME_SIZE {
        let mut s = String::from_str("Frame size ");
        let digits = decimal_string(n as u64);
        s.append(digits.as_str());
        s.append(" exceeds max");
        return Err(ProtocolError::InvalidFrame(s));
    }
    Ok(n as usize)
}

} // verus!
