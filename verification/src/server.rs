//! Which port to listen on.
//!
//! The port is configured as decimal text. Text that is absent, or that is
//! no number a port can be, leaves the default in force.

use vstd::prelude::*;
use vstd::string::*;
use vstd::utf8::*;

verus! {

/// The port used when none is configured.
pub const DEFAULT_PORT: u16 = 8080;

/// True when every byte is a decimal digit.
pub open spec fn all_digits(digits: Seq<u8>) -> bool {
    forall|i: int| 0 <= i < digits.len() ==> 0x30 <= #[trigger] digits[i] <= 0x39
}

/// The number that decimal digits write, most significant digit first.
pub open spec fn decimal(digits: Seq<u8>) -> int
    decreases digits.len(),
{
    if digits.len() == 0 {
        0
    } else {
        10 * decimal(digits.drop_last()) + (digits.last() - 0x30)
    }
}

/// The sixteen-bit number that `digits` write: one digit or more, with a
/// value that fits.
pub open spec fn number_of(digits: Seq<u8>) -> Option<u16> {
    if digits.len() > 0 && all_digits(digits) && decimal(digits) <= u16::MAX {
        Some(decimal(digits) as u16)
    } else {
        None
    }
}

/// The port that `text` writes: an optional plus sign, then a sixteen-bit
/// number. Anything else is no port.
pub open spec fn port_of(text: Seq<u8>) -> Option<u16> {
    if text.len() > 0 && text[0] == 0x2b {
        number_of(text.drop_first())
    } else {
        number_of(text)
    }
}

/// The port to listen on for a configured value, if there is one.
pub open spec fn chosen_port(value: Option<Seq<char>>) -> u16 {
    match value {
        Some(text) => match port_of(encode_utf8(text)) {
            Some(port) => port,
            None => DEFAULT_PORT,
        },
        None => DEFAULT_PORT,
    }
}

/// A number only grows when digits are written after it.
proof fn lemma_decimal_grows(digits: Seq<u8>, n: int)
    requires
        all_digits(digits),
        0 <= n <= digits.len(),
    ensures
        0 <= decimal(digits.take(n)) <= decimal(digits),
    decreases digits.len() - n,
{
    if n == digits.len() {
        assert(digits.take(n) =~= digits);
        lemma_decimal_nonnegative(digits);
    } else {
        lemma_decimal_grows(digits, n + 1);
        let longer = digits.take(n + 1);
        assert(longer.drop_last() =~= digits.take(n));
        assert(longer.last() == digits[n]);
        lemma_decimal_nonnegative(digits.take(n));
    }
}

/// Digits never write a negative number.
proof fn lemma_decimal_nonnegative(digits: Seq<u8>)
    requires
        all_digits(digits),
    ensures
        0 <= decimal(digits),
    decreases digits.len(),
{
    if digits.len() > 0 {
        lemma_decimal_nonnegative(digits.drop_last());
    }
}

/// Reads a port from decimal text.
pub fn parse_port(text: &str) -> (out: Option<u16>)
    ensures
        out == port_of(text.spec_bytes()),
{
    let bytes = text.as_bytes();
    let start: usize = if bytes.len() > 0 && bytes[0] == 0x2b {
        1
    } else {
        0
    };
    if bytes.len() == start {
        return None;
    }
    let ghost digits = bytes@.subrange(start as int, bytes@.len() as int);
    proof {
        if start == 1 {
            assert(digits =~= bytes@.drop_first());
        } else {
            assert(digits =~= bytes@);
        }
    }
    let mut value: u32 = 0;
    let mut i: usize = start;
    while i < bytes.len()
        invariant
            start <= i <= bytes.len(),
            digits == bytes@.subrange(start as int, bytes@.len() as int),
            port_of(text.spec_bytes()) == number_of(digits),
            all_digits(digits.take(i - start)),
            value == decimal(digits.take(i - start)),
            value <= u16::MAX,
        decreases bytes.len() - i,
    {
        let byte = bytes[i];
        let ghost seen = digits.take(i - start + 1);
        proof {
            assert(seen.drop_last() =~= digits.take(i - start));
            assert(seen.last() == byte);
        }
        if byte < 0x30 || byte > 0x39 {
            assert(!all_digits(digits)) by {
                assert(digits[i - start] == byte);
            }
            return None;
        }
        let next: u32 = value * 10 + (byte - 0x30) as u32;
        if next > 0xffff {
            proof {
                if all_digits(digits) {
                    lemma_decimal_grows(digits, i - start + 1);
                }
            }
            return None;
        }
        value = next;
        i += 1;
    }
    proof {
        assert(digits.take(i - start) =~= digits);
    }
    Some(value as u16)
}

/// The port to listen on: the configured one where it is a port, else the
/// default.
pub fn listen_port(value: Option<&str>) -> (port: u16)
    ensures
        port == chosen_port(
            match value {
                Some(text) => Some(text@),
                None => None,
            },
        ),
{
    match value {
        Some(text) => match parse_port(text) {
            Some(port) => port,
            None => DEFAULT_PORT,
        },
        None => DEFAULT_PORT,
    }
}

} // verus!
