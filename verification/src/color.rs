//! 32-bit RGBA colors and their source-text hex form.

use crate::arith::digit_val;
use crate::arith::digits_valid;
use crate::arith::num_of;
use crate::arith::ParseIntError;
use vstd::prelude::*;
use vstd::string::StringSliceAdditionalSpecFns;

verus! {

/// An RGBA color, red in the highest byte and alpha in the lowest.
#[derive(Copy, Clone, Debug, PartialEq, Eq, Structural)]
pub struct Color(pub u32);

/// Why a color failed to parse.
#[derive(Copy, Clone, Debug, PartialEq, Eq, Structural)]
pub enum ParseColorError {
    ParseIntError(ParseIntError),
    BadLength(usize),
}

impl Color {
    pub fn new() -> (r: Color)
        ensures
            r.0 == 0,
    {
        Color(0)
    }

    pub fn from_u32(x: u32) -> (r: Color)
        ensures
            r.0 == x,
    {
        Color(x)
    }

    pub fn bits(&self) -> (r: u32)
        ensures
            r == self.0,
    {
        self.0
    }

    /// The red, green and blue channels, high byte first.
    pub fn components(&self) -> (r: (u8, u8, u8))
        ensures
            r.0 == self.0 / 0x100_0000,
            r.1 == (self.0 / 0x1_0000) % 0x100,
            r.2 == (self.0 / 0x100) % 0x100,
    {
        (
            (self.0 / 0x100_0000) as u8,
            ((self.0 / 0x1_0000) % 0x100) as u8,
            ((self.0 / 0x100) % 0x100) as u8,
        )
    }

    /// What [`Color::from_str`] returns for the digit bytes `d` (a leading
    /// `#`, when present, has been removed).
    ///
    /// Three digits `rgb` double into `rrggbb` with an opaque alpha; six
    /// digits shift up a byte and take an opaque alpha; eight digits stand
    /// as they are.
    pub open spec fn spec_of_hex(d: Seq<u8>) -> Result<u32, ParseColorError> {
        if d.len() == 3 || d.len() == 6 || d.len() == 8 {
            if !digits_valid(d, 16) {
                Err(ParseColorError::ParseIntError(ParseIntError::InvalidDigit))
            } else {
                let v = num_of(d, 16) as u32;
                if d.len() == 3 {
                    Ok(
                        (((v & 0xf) * 0x1100) as u32) | (((v & 0xf0) * 0x11000) as u32) | (((v
                            & 0xf00) * 0x110000) as u32) | 0xff,
                    )
                } else if d.len() == 6 {
                    Ok((v << 8u32) | 0xff)
                } else {
                    Ok(v)
                }
            }
        } else {
            Err(ParseColorError::BadLength(d.len() as usize))
        }
    }

    /// Parses a hex color: an optional `#`, then 3, 6 or 8 hex digits.
    pub fn from_str(s: &str) -> (r: Result<Color, ParseColorError>)
        ensures
            r == (match Color::spec_of_hex(Color::spec_digits(s.spec_bytes())) {
                Ok(v) => Ok::<Color, ParseColorError>(Color(v)),
                Err(e) => Err::<Color, ParseColorError>(e),
            }),
    {
        let b = s.as_bytes();
        let d: &[u8] = if b.len() > 0 && b[0] == 0x23 {
            vstd::slice::slice_subrange(b, 1, b.len())
        } else {
            b
        };
        proof {
            assert(d@ =~= Color::spec_digits(s.spec_bytes()));
        }
        Color::from_hex_digits(d)
    }

    /// The digit part of a color string: everything after one optional `#`.
    pub open spec fn spec_digits(b: Seq<u8>) -> Seq<u8> {
        if b.len() > 0 && b[0] == 0x23 {
            b.drop_first()
        } else {
            b
        }
    }

    /// Parses the digit part of a color, the leading marker removed.
    pub fn from_hex_digits(d: &[u8]) -> (r: Result<Color, ParseColorError>)
        ensures
            r == (match Color::spec_of_hex(d@) {
                Ok(v) => Ok::<Color, ParseColorError>(Color(v)),
                Err(e) => Err::<Color, ParseColorError>(e),
            }),
    {
        let n = d.len();
        if n != 3 && n != 6 && n != 8 {
            return Err(ParseColorError::BadLength(n));
        }
        let mut v: u32 = 0;
        let mut i: usize = 0;
        while i < n
            invariant
                n == d@.len(),
                n == 3 || n == 6 || n == 8,
                i <= n,
                digits_valid(d@.take(i as int), 16),
                v == num_of(d@.take(i as int), 16),
                v < 0x1_0000_0000,
        decreases n - i,
        {
            let b = d[i];
            let dv: u8 = if 0x30 <= b && b <= 0x39 {
                b - 0x30
            } else if 0x61 <= b && b <= 0x66 {
                b - 0x61 + 10
            } else if 0x41 <= b && b <= 0x46 {
                b - 0x41 + 10
            } else {
                proof {
                    assert(digit_val(d@[i as int]) >= 16);
                    assert(!digits_valid(d@, 16));
                }
                return Err(ParseColorError::ParseIntError(ParseIntError::InvalidDigit));
            };
            proof {
                assert(d@.take(i + 1).drop_last() =~= d@.take(i as int));
                lemma_hex_gen(d@.take(i + 1), 16, 8);
                assert(vstd::arithmetic::power2::pow2(32) == 0x1_0000_0000) by {
                    vstd::arithmetic::power2::lemma2_to64();
                }
            }
            v = v * 16 + dv as u32;
            i += 1;
        }
        proof {
            assert(d@.take(n as int) =~= d@);
        }
        if n == 3 {
            proof {
                assert((v & 0xf) <= 0xf && (v & 0xf0) <= 0xf0 && (v & 0xf00) <= 0xf00)
                    by (bit_vector);
            }
            Ok(Color((v & 0xf) * 0x1100 | (v & 0xf0) * 0x11000 | (v & 0xf00) * 0x110000 | 0xff))
        } else if n == 6 {
            Ok(Color((v << 8u32) | 0xff))
        } else {
            Ok(Color(v))
        }
    }
}

/// A numeral of at most `k` hex digits stays below `2^(4 k)`.
proof fn lemma_hex_gen(s: Seq<u8>, radix: int, k: nat)
    requires
        radix == 16,
        digits_valid(s, radix),
        s.len() <= k,
    ensures
        num_of(s, radix) < vstd::arithmetic::power2::pow2(4 * k),
        num_of(s, radix) >= 0,
    decreases s.len(),
{
    vstd::arithmetic::power2::lemma_pow2_pos(4 * k);
    if s.len() == 0 {
    } else {
        assert(digits_valid(s.drop_last(), radix));
        lemma_hex_gen(s.drop_last(), radix, (k - 1) as nat);
        let p = num_of(s.drop_last(), radix);
        let m = vstd::arithmetic::power2::pow2(4 * (k - 1) as nat);
        assert(vstd::arithmetic::power2::pow2(4 * k) == 16 * m) by {
            vstd::arithmetic::power2::lemma_pow2_adds(4, 4 * (k - 1) as nat);
            vstd::arithmetic::power2::lemma2_to64();
        }
        assert(0 <= p < m ==> p * 16 + 15 < 16 * m && p * 16 >= 0) by (nonlinear_arith);
    }
}

} // verus!
