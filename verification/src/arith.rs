//! The saturating multi-width integer kernel shared by the compiler and the
//! virtual machine: a 128-bit tagged value that is either unsigned or signed,
//! with saturating arithmetic, raw bitwise operations and bit-field algebra.

use crate::base::FieldSelector;
use vstd::prelude::*;
use vstd::std_specs::cmp::PartialOrdSpec;
use vstd::string::StringSliceAdditionalSpecFns;

verus! {

/// A tagged 128-bit constant.
#[derive(Copy, Clone, Debug)]
pub enum Const {
    Unsigned(u128),
    Signed(i128),
}

/// Clamps an integer into `u128` range.
pub open spec fn sat_u128(x: int) -> u128 {
    if x > u128::MAX {
        u128::MAX
    } else if x < 0 {
        0u128
    } else {
        x as u128
    }
}

/// Clamps an integer into `i128` range.
pub open spec fn sat_i128(x: int) -> i128 {
    if x > i128::MAX {
        i128::MAX
    } else if x < i128::MIN {
        i128::MIN
    } else {
        x as i128
    }
}

/// The unsigned value whose 128 bits are the two's-complement form of `x`.
pub open spec fn u128_of_i128(x: i128) -> u128 {
    if x >= 0 {
        x as u128
    } else {
        (x + 0x1_0000_0000_0000_0000_0000_0000_0000_0000) as u128
    }
}

/// The signed value whose two's-complement form is the 128 bits of `x`.
pub open spec fn i128_of_u128(x: u128) -> i128 {
    if x <= i128::MAX {
        x as i128
    } else {
        (x - 0x1_0000_0000_0000_0000_0000_0000_0000_0000) as i128
    }
}

/// Number of set bits.
pub open spec fn popcount(x: u128) -> nat
    decreases x,
{
    if x == 0 {
        0
    } else {
        (x % 2) as nat + popcount(x / 2)
    }
}

/// Number of bits needed to write `x`; 0 for 0.
pub open spec fn bitlen(x: u128) -> nat
    decreases x,
{
    if x == 0 {
        0
    } else {
        1 + bitlen(x / 2)
    }
}

/// Index of the lowest set bit; 128 for 0.
pub open spec fn trailing_zero_count(x: u128) -> nat
    decreases x,
{
    if x == 0 {
        128
    } else if x % 2 == 1 {
        0
    } else {
        1 + trailing_zero_count(x / 2)
    }
}

/// Number of clear bits above the highest set bit; 128 for 0.
pub open spec fn leading_zero_count(x: u128) -> nat {
    (128 - bitlen(x)) as nat
}

pub proof fn lemma_bitlen_le(x: u128, k: nat)
    requires
        x < vstd::arithmetic::power2::pow2(k),
    ensures
        bitlen(x) <= k,
    decreases k,
{
    vstd::arithmetic::power2::lemma_pow2_pos(k);
    if x != 0 {
        assert(k > 0) by {
            if k == 0 {
                vstd::arithmetic::power2::lemma2_to64();
            }
        }
        assert(vstd::arithmetic::power2::pow2(k) == 2 * vstd::arithmetic::power2::pow2(
            (k - 1) as nat,
        )) by {
            vstd::arithmetic::power2::lemma_pow2_unfold(k);
        }
        lemma_bitlen_le(x / 2, (k - 1) as nat);
    }
}

pub proof fn lemma_bitlen_128(x: u128)
    ensures
        bitlen(x) <= 128,
{
    assert(vstd::arithmetic::power2::pow2(128) == 0x1_0000_0000_0000_0000_0000_0000_0000_0000) by {
        vstd::arithmetic::power2::lemma2_to64();
        vstd::arithmetic::power2::lemma_pow2_adds(64, 64);
    }
    lemma_bitlen_le(x, 128);
}

pub proof fn lemma_bitlen_u8(x: u8)
    ensures
        bitlen(x as u128) <= 8,
{
    assert(vstd::arithmetic::power2::pow2(8) == 256) by {
        vstd::arithmetic::power2::lemma2_to64();
    }
    lemma_bitlen_le(x as u128, 8);
}

pub proof fn lemma_popcount_pos(x: u128)
    requires
        x != 0,
    ensures
        popcount(x) >= 1,
    decreases x,
{
    if x % 2 == 0 {
        lemma_popcount_pos(x / 2);
    }
}

pub proof fn lemma_popcount_le_bitlen(x: u128)
    ensures
        popcount(x) <= bitlen(x),
    decreases x,
{
    if x != 0 {
        lemma_popcount_le_bitlen(x / 2);
    }
}

pub proof fn lemma_trailing_lt_bitlen(x: u128)
    requires
        x != 0,
    ensures
        trailing_zero_count(x) < bitlen(x),
    decreases x,
{
    if x % 2 != 1 {
        lemma_trailing_lt_bitlen(x / 2);
    }
}

impl Const {
    /// The raw 128-bit representation, two's-complement for `Signed`.
    pub open spec fn bits(self) -> u128 {
        match self {
            Const::Unsigned(x) => x,
            Const::Signed(x) => u128_of_i128(x),
        }
    }

    /// The mathematical value carried.
    pub open spec fn ival(self) -> int {
        match self {
            Const::Unsigned(x) => x as int,
            Const::Signed(x) => x as int,
        }
    }

    pub open spec fn is_unsigned_variant(self) -> bool {
        self is Unsigned
    }

    /// The zero constant, in its unsigned form.
    pub fn zero() -> (r: Const)
        ensures
            r == Const::Unsigned(0u128),
    {
        Const::Unsigned(0)
    }

    pub fn is_zero(&self) -> (r: bool)
        ensures
            r == (self.ival() == 0),
    {
        match self {
            Const::Unsigned(x) => *x == 0,
            Const::Signed(x) => *x == 0,
        }
    }

    pub fn is_neg(&self) -> (r: bool)
        ensures
            r == (self.ival() < 0),
    {
        match self {
            Const::Unsigned(_) => false,
            Const::Signed(x) => *x < 0,
        }
    }

    /// The raw representation, as an executable value.
    pub fn as_u128_bits(&self) -> (r: u128)
        ensures
            r == self.bits(),
    {
        match self {
            Const::Unsigned(x) => *x,
            Const::Signed(x) => {
                if *x >= 0 {
                    *x as u128
                } else {
                    u128::MAX - ((-(*x + 1)) as u128)
                }
            },
        }
    }

    /// The value clamped into `u128` range: negatives become 0.
    pub fn as_u128_saturating(&self) -> (r: u128)
        ensures
            r == sat_u128(self.ival()),
    {
        match self {
            Const::Unsigned(x) => *x,
            Const::Signed(x) => {
                if *x < 0 {
                    0
                } else {
                    *x as u128
                }
            },
        }
    }

    /// Clamps an unsigned 128-bit value into `i128` range.
    pub fn i128_saturating(x: u128) -> (r: i128)
        ensures
            r == sat_i128(x as int),
    {
        if x > i128::MAX as u128 {
            i128::MAX
        } else {
            x as i128
        }
    }

    /// The value clamped into `i128` range.
    pub fn as_i128_saturating(&self) -> (r: i128)
        ensures
            r == sat_i128(self.ival()),
    {
        match self {
            Const::Unsigned(x) => Self::i128_saturating(*x),
            Const::Signed(x) => *x,
        }
    }

    pub fn count_ones(&self) -> (r: u32)
        ensures
            r == popcount(self.bits()),
    {
        let mut n = self.as_u128_bits();
        let mut c: u32 = 0;
        proof {
            lemma_bitlen_128(n);
            lemma_popcount_le_bitlen(n);
        }
        while n != 0
            invariant
                c + popcount(n) == popcount(self.bits()),
                popcount(self.bits()) <= 128,
            decreases n,
        {
            c = c + (n % 2) as u32;
            n = n / 2;
        }
        c
    }

    /// Index of the lowest set bit, 128 when no bit is set.
    pub fn bitscanforward(&self) -> (r: u32)
        ensures
            r == trailing_zero_count(self.bits()),
    {
        let mut n = self.as_u128_bits();
        if n == 0 {
            return 128;
        }
        let mut c: u32 = 0;
        proof {
            lemma_bitlen_128(n);
            lemma_trailing_lt_bitlen(n);
        }
        while n % 2 == 0
            invariant
                n != 0,
                c + trailing_zero_count(n) == trailing_zero_count(self.bits()),
                trailing_zero_count(self.bits()) < 128,
            decreases n,
        {
            c = c + 1;
            n = n / 2;
        }
        c
    }

    /// Number of clear bits above the highest set bit, 128 when no bit is set.
    pub fn bitscanreverse(&self) -> (r: u32)
        ensures
            r == leading_zero_count(self.bits()),
    {
        let mut n = self.as_u128_bits();
        let mut len: u32 = 0;
        proof {
            lemma_bitlen_128(n);
        }
        while n != 0
            invariant
                len + bitlen(n) == bitlen(self.bits()),
                bitlen(self.bits()) <= 128,
            decreases n,
        {
            len = len + 1;
            n = n / 2;
        }
        128 - len
    }

    /// The absolute value, always unsigned; the most negative signed value
    /// saturates to `(1 << 127) - 1`.
    pub fn abs(&self) -> (r: Const)
        ensures
            r == (match *self {
                Const::Unsigned(x) => Const::Unsigned(x),
                Const::Signed(x) => Const::Unsigned(
                    if x < 0 {
                        sat_i128(0 - x) as u128
                    } else {
                        x as u128
                    },
                ),
            }),
    {
        match self {
            Const::Unsigned(x) => Const::Unsigned(*x),
            Const::Signed(x) => {
                if *x == i128::MIN {
                    Const::Unsigned(i128::MAX as u128)
                } else if *x < 0 {
                    Const::Unsigned((-*x) as u128)
                } else {
                    Const::Unsigned(*x as u128)
                }
            },
        }
    }

    /// Clamps the value to what `i` bits can hold: a mask for unsigned values
    /// and a saturating clamp into `[-(2^(i-1)), 2^(i-1) - 1]` for signed ones.
    pub fn truncate(&mut self, i: u8)
        requires
            1 <= i <= 127,
        ensures
            *final(self) == (match *old(self) {
                Const::Unsigned(x) => Const::Unsigned(x & sub_one_shl(i)),
                Const::Signed(x) => Const::Signed(
                    sat_into(x, (sub_one_shl((i - 1) as u8)) as int),
                ),
            }),
    {
        proof {
            assert(1u128 << i >= 1 && (1u128 << ((i - 1) as u8)) >= 1 && (1u128 << ((i - 1) as u8))
                <= 0x8000_0000_0000_0000_0000_0000_0000_0000u128 / 2) by (bit_vector)
                requires
                    1 <= i <= 127,
            ;
        }
        match self {
            Const::Unsigned(x) => {
                *x = *x & ((1u128 << i) - 1);
            },
            Const::Signed(x) => {
                let hi_u = (1u128 << ((i - 1) as u8)) - 1;
                let hi = hi_u as i128;
                if *x > hi {
                    *x = hi;
                } else if *x < -hi - 1 {
                    *x = -hi - 1;
                }
            },
        }
    }
}

/// `(1 << i) - 1`: a mask of `i` low bits.
pub open spec fn sub_one_shl(i: u8) -> u128
    recommends
        i < 128,
{
    ((1u128 << i) - 1) as u128
}

/// Clamps `x` into `[-(hi + 1), hi]`.
pub open spec fn sat_into(x: i128, hi: int) -> i128 {
    if x > hi {
        hi as i128
    } else if x < -hi - 1 {
        (-hi - 1) as i128
    } else {
        x
    }
}

/// A mask of `len` low bits, total in `len`.
pub open spec fn field_mask(len: u8) -> u128 {
    if len >= 128 {
        u128::MAX
    } else {
        sub_one_shl(len)
    }
}

/// The raw (zero-extended) bits of the field `f` inside representation `bits`.
pub open spec fn raw_field(bits: u128, f: FieldSelector) -> u128 {
    if f.offset >= 128 {
        0u128
    } else {
        (bits >> f.offset) & field_mask(f.length)
    }
}

impl Const {
    /// What [`Const::apply`] returns.
    ///
    /// Unsigned values read zero-extended. Signed values read in
    /// sign-magnitude fashion: when the top bit of the field is set the
    /// result is the negated value of the remaining low bits.
    pub open spec fn spec_apply(self, f: FieldSelector) -> Const {
        let raw = raw_field(self.bits(), f);
        let len = if f.length > 128 {
            128u8
        } else {
            f.length
        };
        match self {
            Const::Unsigned(_) => Const::Unsigned(raw),
            Const::Signed(_) => {
                if len == 0 {
                    Const::Signed(0)
                } else {
                    let mag = raw & field_mask((len - 1) as u8);
                    if (raw >> ((len - 1) as u8)) & 1 == 1 {
                        Const::Signed((0 - mag) as i128)
                    } else {
                        Const::Signed(mag as i128)
                    }
                }
            },
        }
    }

    /// Reads the bit field `f`: the `length`-bit field at `offset`,
    /// zero-extended for unsigned values and sign-magnitude for signed ones.
    /// A zero-length field and a field past the stored width read zero.
    pub fn apply(self, f: &FieldSelector) -> (r: Const)
        ensures
            r == self.spec_apply(*f),
    {
        let bits = self.as_u128_bits();
        let raw: u128 = if f.offset >= 128 {
            0
        } else {
            let m: u128 = if f.length >= 128 {
                u128::MAX
            } else {
                let l = f.length;
                proof {
                    assert(1u128 << l >= 1) by (bit_vector)
                        requires
                            l < 128,
                    ;
                }
                (1u128 << l) - 1
            };
            (bits >> f.offset) & m
        };
        match self {
            Const::Unsigned(_) => Const::Unsigned(raw),
            Const::Signed(_) => {
                let len: u8 = if f.length > 128 {
                    128
                } else {
                    f.length
                };
                if len == 0 {
                    Const::Signed(0)
                } else {
                    let low: u8 = len - 1;
                    proof {
                        assert(1u128 << low >= 1) by (bit_vector)
                            requires
                                low < 128,
                        ;
                    }
                    let mag: u128 = raw & ((1u128 << low) - 1);
                    proof {
                        assert(mag <= i128::MAX as u128) by (bit_vector)
                            requires
                                low < 128,
                                mag == raw & (((1u128 << low) - 1) as u128),
                        ;
                    }
                    if (raw >> low) & 1 == 1 {
                        Const::Signed(-(mag as i128))
                    } else {
                        Const::Signed(mag as i128)
                    }
                }
            },
        }
    }

    /// What [`Const::store`] leaves behind.
    pub open spec fn spec_store(self, src: Const, f: FieldSelector) -> Const {
        if f.offset >= 128 {
            self
        } else {
            let m = field_mask(f.length) << f.offset;
            let merged = (self.bits() & !m) | ((src.bits() << f.offset) & m);
            match self {
                Const::Unsigned(_) => Const::Unsigned(merged),
                Const::Signed(_) => Const::Signed(i128_of_u128(merged)),
            }
        }
    }

    /// Merges the low `length` bits of `src` into `self` at `offset`,
    /// preserving all other bits and the tag of `self`.
    pub fn store(&mut self, src: Const, f: &FieldSelector)
        ensures
            *final(self) == old(self).spec_store(src, *f),
    {
        if f.offset >= 128 {
            return ;
        }
        let m: u128 = if f.length >= 128 {
            u128::MAX << f.offset
        } else {
            let l = f.length;
            proof {
                assert(1u128 << l >= 1) by (bit_vector)
                    requires
                        l < 128,
                ;
            }
            ((1u128 << l) - 1) << f.offset
        };
        proof {
            assert(m == field_mask(f.length) << f.offset);
        }
        let merged = (self.as_u128_bits() & !m) | ((src.as_u128_bits() << f.offset) & m);
        match self {
            Const::Unsigned(x) => {
                *x = merged;
            },
            Const::Signed(x) => {
                if merged <= i128::MAX as u128 {
                    *x = merged as i128;
                } else {
                    *x = -((u128::MAX - merged) as i128) - 1;
                }
            },
        }
    }
}

/// Truncated (round-toward-zero) integer division, as machine division does it.
pub open spec fn tdiv(x: int, d: int) -> int {
    if x == 0 {
        0
    } else if x > 0 && d > 0 {
        x / d
    } else if x < 0 && d < 0 {
        (x * -1) / (d * -1)
    } else if x < 0 {
        ((x * -1) / d) * -1
    } else {
        (x / (d * -1)) * -1
    }
}

/// Truncated remainder: the sign follows the dividend.
pub open spec fn tmod(x: int, d: int) -> int {
    if x == 0 {
        0
    } else if x > 0 && d > 0 {
        x % d
    } else if x < 0 && d < 0 {
        ((x * -1) % (d * -1)) * -1
    } else if x < 0 {
        ((x * -1) % d) * -1
    } else {
        x % (d * -1)
    }
}

/// Saturating `i128` addition.
fn sat_add_i128(a: i128, b: i128) -> (r: i128)
    ensures
        r == sat_i128(a + b),
{
    match a.checked_add(b) {
        Some(v) => v,
        None => if b > 0 {
            i128::MAX
        } else {
            i128::MIN
        },
    }
}

/// Saturating `i128` subtraction.
fn sat_sub_i128(a: i128, b: i128) -> (r: i128)
    ensures
        r == sat_i128(a - b),
{
    match a.checked_sub(b) {
        Some(v) => v,
        None => if b > 0 {
            i128::MIN
        } else {
            i128::MAX
        },
    }
}

/// Saturating `i128` multiplication.
fn sat_mul_i128(a: i128, b: i128) -> (r: i128)
    ensures
        r == sat_i128(a * b),
{
    match a.checked_mul(b) {
        Some(v) => v,
        None => {
            proof {
                if a > 0 && b > 0 {
                    vstd::arithmetic::mul::lemma_mul_strictly_positive(a as int, b as int);
                } else if a < 0 && b < 0 {
                    vstd::arithmetic::mul::lemma_mul_strictly_positive(-a as int, -b as int);
                    assert((-a as int) * (-b as int) == a * b) by (nonlinear_arith);
                } else if a < 0 && b > 0 {
                    assert(a * b <= a) by (nonlinear_arith)
                        requires
                            a < 0 && b > 0,
                    ;
                } else if a > 0 && b < 0 {
                    assert(a * b <= b) by (nonlinear_arith)
                        requires
                            a > 0 && b < 0,
                    ;
                } else {
                    assert(a * b == 0) by (nonlinear_arith)
                        requires
                            a == 0 || b == 0,
                    ;
                }
            }
            if (a > 0) == (b > 0) {
                i128::MAX
            } else {
                i128::MIN
            }
        },
    }
}

/// The signed value carried by the 128 raw bits `u`.
fn i128_from_bits(u: u128) -> (r: i128)
    ensures
        r == i128_of_u128(u),
{
    if u <= i128::MAX as u128 {
        u as i128
    } else {
        -((u128::MAX - u) as i128) - 1
    }
}

impl Const {
    /// What [`Const::add`] returns: saturating addition whose result variant
    /// follows the left operand, except that an unsigned left operand widens
    /// to signed when the right one is signed.
    pub open spec fn spec_add(self, rhs: Const) -> Const {
        match (self, rhs) {
            (Const::Unsigned(x), Const::Unsigned(y)) => Const::Unsigned(sat_u128(x + y)),
            (Const::Unsigned(x), Const::Signed(y)) => Const::Signed(
                sat_i128(sat_i128(x as int) + y),
            ),
            (Const::Signed(x), _) => Const::Signed(sat_i128(x + sat_i128(rhs.ival()))),
        }
    }

    pub fn add(self, rhs: Const) -> (r: Const)
        ensures
            r == self.spec_add(rhs),
    {
        match (self, rhs) {
            (Const::Unsigned(x), Const::Unsigned(y)) => Const::Unsigned(x.saturating_add(y)),
            (Const::Unsigned(x), Const::Signed(y)) => Const::Signed(
                sat_add_i128(Const::i128_saturating(x), y),
            ),
            (Const::Signed(x), _) => Const::Signed(sat_add_i128(x, rhs.as_i128_saturating())),
        }
    }

    /// What [`Const::sub`] returns; variants as in [`Const::spec_add`].
    pub open spec fn spec_sub(self, rhs: Const) -> Const {
        match (self, rhs) {
            (Const::Unsigned(x), Const::Unsigned(y)) => Const::Unsigned(sat_u128(x - y)),
            (Const::Unsigned(x), Const::Signed(y)) => Const::Signed(
                sat_i128(sat_i128(x as int) - y),
            ),
            (Const::Signed(x), _) => Const::Signed(sat_i128(x - sat_i128(rhs.ival()))),
        }
    }

    pub fn sub(self, rhs: Const) -> (r: Const)
        ensures
            r == self.spec_sub(rhs),
    {
        match (self, rhs) {
            (Const::Unsigned(x), Const::Unsigned(y)) => Const::Unsigned(x.saturating_sub(y)),
            (Const::Unsigned(x), Const::Signed(y)) => Const::Signed(
                sat_sub_i128(Const::i128_saturating(x), y),
            ),
            (Const::Signed(x), _) => Const::Signed(sat_sub_i128(x, rhs.as_i128_saturating())),
        }
    }

    /// What [`Const::mul`] returns; variants as in [`Const::spec_add`].
    pub open spec fn spec_mul(self, rhs: Const) -> Const {
        match (self, rhs) {
            (Const::Unsigned(x), Const::Unsigned(y)) => Const::Unsigned(sat_u128(x * y)),
            (Const::Unsigned(x), Const::Signed(y)) => Const::Signed(
                sat_i128(sat_i128(x as int) * y),
            ),
            (Const::Signed(x), _) => Const::Signed(sat_i128(x * sat_i128(rhs.ival()))),
        }
    }

    pub fn mul(self, rhs: Const) -> (r: Const)
        ensures
            r == self.spec_mul(rhs),
    {
        match (self, rhs) {
            (Const::Unsigned(x), Const::Unsigned(y)) => {
                match x.checked_mul(y) {
                    Some(v) => Const::Unsigned(v),
                    None => {
                        proof {
                            assert(x * y > u128::MAX) by (nonlinear_arith)
                                requires
                                    x * y > u128::MAX || x * y < 0,
                                    x >= 0,
                                    y >= 0,
                            ;
                        }
                        Const::Unsigned(u128::MAX)
                    },
                }
            },
            (Const::Unsigned(x), Const::Signed(y)) => Const::Signed(
                sat_mul_i128(Const::i128_saturating(x), y),
            ),
            (Const::Signed(x), _) => Const::Signed(sat_mul_i128(x, rhs.as_i128_saturating())),
        }
    }

    /// What [`Const::div`] returns: truncated division, saturating at the
    /// signed bounds; variants as in [`Const::spec_add`].
    pub open spec fn spec_div(self, rhs: Const) -> Const {
        match (self, rhs) {
            (Const::Unsigned(x), Const::Unsigned(y)) => Const::Unsigned((x as int / y as int) as u128),
            (Const::Unsigned(x), Const::Signed(y)) => Const::Signed(
                sat_i128(tdiv(sat_i128(x as int) as int, y as int)),
            ),
            (Const::Signed(x), _) => Const::Signed(
                sat_i128(tdiv(x as int, sat_i128(rhs.ival()) as int)),
            ),
        }
    }

    pub fn div(self, rhs: Const) -> (r: Const)
        requires
            rhs.ival() != 0,
        ensures
            r == self.spec_div(rhs),
    {
        match (self, rhs) {
            (Const::Unsigned(x), Const::Unsigned(y)) => Const::Unsigned(x / y),
            (Const::Unsigned(x), Const::Signed(y)) => {
                let n = Const::i128_saturating(x);
                match n.checked_div(y) {
                    Some(v) => Const::Signed(v),
                    None => Const::Signed(i128::MAX),
                }
            },
            (Const::Signed(x), _) => {
                let d = rhs.as_i128_saturating();
                match x.checked_div(d) {
                    Some(v) => Const::Signed(v),
                    None => Const::Signed(i128::MAX),
                }
            },
        }
    }

    /// What [`Const::rem`] returns: truncated remainder, its sign following
    /// the dividend; variants as in [`Const::spec_add`].
    pub open spec fn spec_rem(self, rhs: Const) -> Const {
        match (self, rhs) {
            (Const::Unsigned(x), Const::Unsigned(y)) => Const::Unsigned((x as int % y as int) as u128),
            (Const::Unsigned(x), Const::Signed(y)) => Const::Signed(
                tmod(sat_i128(x as int) as int, y as int) as i128,
            ),
            (Const::Signed(x), _) => Const::Signed(
                tmod(x as int, sat_i128(rhs.ival()) as int) as i128,
            ),
        }
    }

    pub fn rem(self, rhs: Const) -> (r: Const)
        requires
            rhs.ival() != 0,
        ensures
            r == self.spec_rem(rhs),
    {
        match (self, rhs) {
            (Const::Unsigned(x), Const::Unsigned(y)) => Const::Unsigned(x % y),
            (Const::Unsigned(x), Const::Signed(y)) => {
                let n = Const::i128_saturating(x);
                match n.checked_rem(y) {
                    Some(v) => Const::Signed(v),
                    None => Const::Signed(0),
                }
            },
            (Const::Signed(x), _) => {
                let d = rhs.as_i128_saturating();
                match x.checked_rem(d) {
                    Some(v) => Const::Signed(v),
                    None => Const::Signed(0),
                }
            },
        }
    }

    /// What [`Const::neg`] returns: negation always yields a signed value,
    /// saturating at the signed bounds.
    pub open spec fn spec_neg(self) -> Const {
        Const::Signed(sat_i128(0 - sat_i128(self.ival())))
    }

    pub fn neg(self) -> (r: Const)
        ensures
            r == self.spec_neg(),
    {
        Const::Signed(sat_sub_i128(0, self.as_i128_saturating()))
    }

    /// Right shift of the raw representation; arithmetic for signed values.
    pub fn shr(self, rhs: u8) -> (r: Const)
        requires
            rhs < 128,
        ensures
            r == (match self {
                Const::Unsigned(x) => Const::Unsigned(x >> rhs),
                Const::Signed(x) => Const::Signed(x >> rhs),
            }),
    {
        match self {
            Const::Unsigned(x) => Const::Unsigned(x >> rhs),
            Const::Signed(x) => Const::Signed(x >> rhs),
        }
    }

    /// Left shift of the raw representation.
    pub fn shl(self, rhs: u8) -> (r: Const)
        requires
            rhs < 128,
        ensures
            r == (match self {
                Const::Unsigned(x) => Const::Unsigned(x << rhs),
                Const::Signed(x) => Const::Signed(x << rhs),
            }),
    {
        match self {
            Const::Unsigned(x) => Const::Unsigned(x << rhs),
            Const::Signed(x) => Const::Signed(x << rhs),
        }
    }

    /// What the bitwise operations return: the raw representations combined,
    /// tagged like the left operand.
    pub open spec fn spec_bitand(self, rhs: Const) -> Const {
        self.with_bits(self.bits() & rhs.bits())
    }

    pub open spec fn spec_bitor(self, rhs: Const) -> Const {
        self.with_bits(self.bits() | rhs.bits())
    }

    pub open spec fn spec_bitxor(self, rhs: Const) -> Const {
        self.with_bits(self.bits() ^ rhs.bits())
    }

    /// The value whose raw bits are `b` and whose variant is that of `self`.
    pub open spec fn with_bits(self, b: u128) -> Const {
        match self {
            Const::Unsigned(_) => Const::Unsigned(b),
            Const::Signed(_) => Const::Signed(i128_of_u128(b)),
        }
    }

    fn retag(self, b: u128) -> (r: Const)
        ensures
            r == self.with_bits(b),
    {
        match self {
            Const::Unsigned(_) => Const::Unsigned(b),
            Const::Signed(_) => Const::Signed(i128_from_bits(b)),
        }
    }

    pub fn bitand(self, rhs: Const) -> (r: Const)
        ensures
            r == self.spec_bitand(rhs),
    {
        self.retag(self.as_u128_bits() & rhs.as_u128_bits())
    }

    pub fn bitor(self, rhs: Const) -> (r: Const)
        ensures
            r == self.spec_bitor(rhs),
    {
        self.retag(self.as_u128_bits() | rhs.as_u128_bits())
    }

    pub fn bitxor(self, rhs: Const) -> (r: Const)
        ensures
            r == self.spec_bitxor(rhs),
    {
        self.retag(self.as_u128_bits() ^ rhs.as_u128_bits())
    }

    pub fn from_u8(x: u8) -> (r: Const)
        ensures
            r == Const::Unsigned(x as u128),
    {
        Const::Unsigned(x as u128)
    }

    pub fn from_u16(x: u16) -> (r: Const)
        ensures
            r == Const::Unsigned(x as u128),
    {
        Const::Unsigned(x as u128)
    }

    pub fn from_u32(x: u32) -> (r: Const)
        ensures
            r == Const::Unsigned(x as u128),
    {
        Const::Unsigned(x as u128)
    }

    pub fn from_u64(x: u64) -> (r: Const)
        ensures
            r == Const::Unsigned(x as u128),
    {
        Const::Unsigned(x as u128)
    }

    pub fn from_u128(x: u128) -> (r: Const)
        ensures
            r == Const::Unsigned(x),
    {
        Const::Unsigned(x)
    }

    pub fn from_i128(x: i128) -> (r: Const)
        ensures
            r == Const::Signed(x),
    {
        Const::Signed(x)
    }

    /// The low 8 bits of the raw representation.
    pub fn to_u8(&self) -> (r: u8)
        ensures
            r == self.bits() % 0x100,
    {
        (self.as_u128_bits() % 0x100) as u8
    }

    /// The low 16 bits of the raw representation.
    pub fn to_u16(&self) -> (r: u16)
        ensures
            r == self.bits() % 0x1_0000,
    {
        (self.as_u128_bits() % 0x1_0000) as u16
    }

    /// The low 32 bits of the raw representation.
    pub fn to_u32(&self) -> (r: u32)
        ensures
            r == self.bits() % 0x1_0000_0000,
    {
        (self.as_u128_bits() % 0x1_0000_0000) as u32
    }

    /// The low 64 bits of the raw representation.
    pub fn to_u64(&self) -> (r: u64)
        ensures
            r == self.bits() % 0x1_0000_0000_0000_0000,
    {
        (self.as_u128_bits() % 0x1_0000_0000_0000_0000) as u64
    }

    /// The full raw representation.
    pub fn to_u128(&self) -> (r: u128)
        ensures
            r == self.bits(),
    {
        self.as_u128_bits()
    }

    /// The raw representation reread as a signed value.
    pub fn to_i128(&self) -> (r: i128)
        ensures
            r == i128_of_u128(self.bits()),
    {
        i128_from_bits(self.as_u128_bits())
    }
}

impl PartialEq for Const {
    /// Cross-variant equality: values compare by magnitude and sign, not by
    /// variant, so `Unsigned(5)` equals `Signed(5)`.
    fn eq(&self, rhs: &Const) -> (r: bool) {
        match self {
            Const::Unsigned(x) => {
                match rhs {
                    Const::Unsigned(y) => *x == *y,
                    Const::Signed(y) => {
                        if *y < 0 {
                            false
                        } else {
                            *x == *y as u128
                        }
                    },
                }
            },
            Const::Signed(x) => {
                match rhs {
                    Const::Unsigned(y) => {
                        if *x < 0 {
                            false
                        } else {
                            *x as u128 == *y
                        }
                    },
                    Const::Signed(y) => *x == *y,
                }
            },
        }
    }
}

impl Eq for Const {

}

impl vstd::std_specs::cmp::PartialEqSpecImpl for Const {
    open spec fn obeys_eq_spec() -> bool {
        true
    }

    open spec fn eq_spec(&self, other: &Const) -> bool {
        self.ival() == other.ival()
    }
}

impl PartialOrd for Const {
    /// Total cross-variant order: a negative signed value is below every
    /// unsigned one; otherwise values compare by magnitude.
    fn partial_cmp(&self, rhs: &Const) -> (r: Option<core::cmp::Ordering>) {
        let a: i32 = if self.lt_impl(rhs) {
            0
        } else if rhs.lt_impl(self) {
            2
        } else {
            1
        };
        if a == 0 {
            Some(core::cmp::Ordering::Less)
        } else if a == 1 {
            Some(core::cmp::Ordering::Equal)
        } else {
            Some(core::cmp::Ordering::Greater)
        }
    }
}

impl vstd::std_specs::cmp::PartialOrdSpecImpl for Const {
    open spec fn obeys_partial_cmp_spec() -> bool {
        true
    }

    open spec fn partial_cmp_spec(&self, other: &Const) -> Option<core::cmp::Ordering> {
        if self.ival() < other.ival() {
            Some(core::cmp::Ordering::Less)
        } else if self.ival() == other.ival() {
            Some(core::cmp::Ordering::Equal)
        } else {
            Some(core::cmp::Ordering::Greater)
        }
    }
}

impl Const {
    /// Strict order: `self` below `rhs` in the cross-variant order.
    fn lt_impl(&self, rhs: &Const) -> (r: bool)
        ensures
            r == (self.ival() < rhs.ival()),
    {
        match self {
            Const::Unsigned(x) => {
                match rhs {
                    Const::Unsigned(y) => *x < *y,
                    Const::Signed(y) => {
                        if *y < 0 {
                            false
                        } else {
                            *x < *y as u128
                        }
                    },
                }
            },
            Const::Signed(x) => {
                match rhs {
                    Const::Unsigned(y) => {
                        if *x < 0 {
                            true
                        } else {
                            (*x as u128) < *y
                        }
                    },
                    Const::Signed(y) => *x < *y,
                }
            },
        }
    }
}

/// Why a numeral failed to parse.
#[derive(Copy, Clone, Debug, PartialEq, Eq, Structural)]
pub enum ParseIntError {
    Empty,
    InvalidDigit,
    PosOverflow,
    NegOverflow,
}

/// The value of one numeral byte: `0..=9`, `a..=z` and `A..=Z` count,
/// anything else maps to the out-of-range marker 36.
pub open spec fn digit_val(b: u8) -> int {
    if 0x30 <= b <= 0x39 {
        b - 0x30
    } else if 0x61 <= b <= 0x7a {
        b - 0x61 + 10
    } else if 0x41 <= b <= 0x5a {
        b - 0x41 + 10
    } else {
        36
    }
}

/// Every byte of `s` is a digit below `radix`.
pub open spec fn digits_valid(s: Seq<u8>, radix: int) -> bool {
    forall|i: int| 0 <= i < s.len() ==> digit_val(s[i]) < radix
}

/// The value of the numeral `s` in base `radix`, most significant digit first.
pub open spec fn num_of(s: Seq<u8>, radix: int) -> int
    decreases s.len(),
{
    if s.len() == 0 {
        0
    } else {
        num_of(s.drop_last(), radix) * radix + digit_val(s.last())
    }
}

proof fn lemma_num_of_nonneg(s: Seq<u8>, radix: int)
    requires
        radix >= 2,
        digits_valid(s, radix),
    ensures
        num_of(s, radix) >= 0,
    decreases s.len(),
{
    if s.len() > 0 {
        assert(digits_valid(s.drop_last(), radix));
        lemma_num_of_nonneg(s.drop_last(), radix);
        assert(num_of(s.drop_last(), radix) * radix >= 0) by (nonlinear_arith)
            requires
                num_of(s.drop_last(), radix) >= 0,
                radix >= 2,
        ;
    }
}

proof fn lemma_num_of_prefix(s: Seq<u8>, i: int, radix: int)
    requires
        radix >= 2,
        digits_valid(s, radix),
        0 <= i <= s.len(),
    ensures
        num_of(s.take(i), radix) <= num_of(s, radix),
    decreases s.len() - i,
{
    if i < s.len() {
        let p = s.take(i);
        let q = s.take(i + 1);
        assert(q.drop_last() =~= p);
        assert(digits_valid(q, radix));
        lemma_num_of_nonneg(p, radix);
        assert(num_of(p, radix) * radix >= num_of(p, radix)) by (nonlinear_arith)
            requires
                num_of(p, radix) >= 0,
                radix >= 2,
        ;
        assert(num_of(q, radix) >= num_of(p, radix));
        lemma_num_of_prefix(s, i + 1, radix);
    } else {
        assert(s.take(i) =~= s);
    }
}

/// The exec value of one numeral byte; 36 marks a non-digit.
fn digit_value(b: u8) -> (r: u8)
    ensures
        r == digit_val(b),
{
    if 0x30 <= b && b <= 0x39 {
        b - 0x30
    } else if 0x61 <= b && b <= 0x7a {
        b - 0x61 + 10
    } else if 0x41 <= b && b <= 0x5a {
        b - 0x41 + 10
    } else {
        36
    }
}

/// Reads the numeral `digits` in base `radix` into a `u128`, reporting
/// whether the value fits.
fn accumulate_digits(digits: &[u8], radix: u32) -> (r: Option<u128>)
    requires
        2 <= radix <= 36,
        digits_valid(digits@, radix as int),
    ensures
        r is Some ==> r.unwrap() == num_of(digits@, radix as int),
        r is None ==> num_of(digits@, radix as int) > u128::MAX,
{
    let n = digits.len();
    let mut acc: u128 = 0;
    let mut i: usize = 0;
    while i < n
        invariant
            2 <= radix <= 36,
            digits_valid(digits@, radix as int),
            n == digits@.len(),
            i <= n,
            acc == num_of(digits@.take(i as int), radix as int),
        decreases n - i,
    {
        let d = digit_value(digits[i]);
        proof {
            assert(digits@.take(i + 1).drop_last() =~= digits@.take(i as int));
        }
        if acc > (u128::MAX - d as u128) / (radix as u128) {
            proof {
                let p = num_of(digits@.take(i as int), radix as int);
                let q = num_of(digits@.take(i + 1), radix as int);
                assert(q == p * radix + digit_val(digits@[i as int]));
                assert(p * radix > u128::MAX - digit_val(digits@[i as int])) by (nonlinear_arith)
                    requires
                        p > (u128::MAX - digit_val(digits@[i as int])) / (radix as int),
                        2 <= radix <= 36,
                        p >= 0,
                        0 <= digit_val(digits@[i as int]) < radix,
                ;
                lemma_num_of_prefix(digits@, i + 1, radix as int);
            }
            return None;
        }
        proof {
            let p = acc as int;
            assert(p * radix + digit_val(digits@[i as int]) <= u128::MAX) by (nonlinear_arith)
                requires
                    p <= (u128::MAX - digit_val(digits@[i as int])) / (radix as int),
                    2 <= radix <= 36,
                    p >= 0,
                    0 <= digit_val(digits@[i as int]) < radix,
            ;
        }
        acc = acc * (radix as u128) + (d as u128);
        i += 1;
    }
    proof {
        assert(digits@.take(n as int) =~= digits@);
    }
    Some(acc)
}

impl Const {
    /// What [`Const::from_str_radix`] returns for byte sequence `b`.
    ///
    /// A leading `+` or `-` selects the signed reading of the remaining
    /// digits; otherwise the numeral is read unsigned.
    pub open spec fn spec_from_str_radix(b: Seq<u8>, radix: int) -> Result<Const, ParseIntError> {
        if b.len() == 0 {
            Err(ParseIntError::Empty)
        } else {
            let signed = b[0] == 0x2b || b[0] == 0x2d;
            let negative = b[0] == 0x2d;
            let digits = if signed {
                b.drop_first()
            } else {
                b
            };
            if digits.len() == 0 || !digits_valid(digits, radix) {
                Err(ParseIntError::InvalidDigit)
            } else {
                let v = num_of(digits, radix);
                if signed {
                    if negative {
                        if 0 - v < i128::MIN {
                            Err(ParseIntError::NegOverflow)
                        } else {
                            Ok(Const::Signed((0 - v) as i128))
                        }
                    } else {
                        if v > i128::MAX {
                            Err(ParseIntError::PosOverflow)
                        } else {
                            Ok(Const::Signed(v as i128))
                        }
                    }
                } else {
                    if v > u128::MAX {
                        Err(ParseIntError::PosOverflow)
                    } else {
                        Ok(Const::Unsigned(v as u128))
                    }
                }
            }
        }
    }

    /// Parses a numeral: a leading `+` or `-` yields a signed value, no sign
    /// an unsigned one.
    pub fn from_str_radix(src: &str, radix: u32) -> (r: Result<Const, ParseIntError>)
        requires
            2 <= radix <= 36,
        ensures
            r == Const::spec_from_str_radix(src.spec_bytes(), radix as int),
    {
        let b = src.as_bytes();
        if b.len() == 0 {
            return Err(ParseIntError::Empty);
        }
        let signed = b[0] == 0x2b || b[0] == 0x2d;
        let negative = b[0] == 0x2d;
        let digits: &[u8] = if signed {
            vstd::slice::slice_subrange(b, 1, b.len())
        } else {
            b
        };
        proof {
            if signed {
                assert(digits@ =~= src.spec_bytes().drop_first());
            }
        }
        if digits.len() == 0 {
            return Err(ParseIntError::InvalidDigit);
        }
        let n = digits.len();
        let mut i: usize = 0;
        while i < n
            invariant
                2 <= radix <= 36,
                n == digits@.len(),
                n > 0,
                i <= n,
                src.spec_bytes().len() > 0,
                signed == (src.spec_bytes()[0] == 0x2b || src.spec_bytes()[0] == 0x2d),
                negative == (src.spec_bytes()[0] == 0x2d),
                digits@ == if signed {
                    src.spec_bytes().drop_first()
                } else {
                    src.spec_bytes()
                },
                forall|j: int| 0 <= j < i ==> digit_val(digits@[j]) < radix,
            decreases n - i,
        {
            if digit_value(digits[i]) as u32 >= radix {
                proof {
                    assert(digit_val(digits@[i as int]) >= radix);
                    assert(!digits_valid(digits@, radix as int));
                }
                return Err(ParseIntError::InvalidDigit);
            }
            i += 1;
        }
        let acc = accumulate_digits(digits, radix);
        if signed {
            if negative {
                match acc {
                    Some(v) => {
                        if v > 0x8000_0000_0000_0000_0000_0000_0000_0000u128 {
                            Err(ParseIntError::NegOverflow)
                        } else if v == 0x8000_0000_0000_0000_0000_0000_0000_0000u128 {
                            Ok(Const::Signed(i128::MIN))
                        } else {
                            Ok(Const::Signed(-(v as i128)))
                        }
                    },
                    None => Err(ParseIntError::NegOverflow),
                }
            } else {
                match acc {
                    Some(v) => {
                        if v > i128::MAX as u128 {
                            Err(ParseIntError::PosOverflow)
                        } else {
                            Ok(Const::Signed(v as i128))
                        }
                    },
                    None => Err(ParseIntError::PosOverflow),
                }
            }
        } else {
            match acc {
                Some(v) => Ok(Const::Unsigned(v)),
                None => Err(ParseIntError::PosOverflow),
            }
        }
    }
}

/// Reading a field back after storing into an empty value yields the stored
/// value masked to the field width: for every `c` and every selector inside
/// the 96-bit payload, `zero().store(c, f).apply(f)` is the low `f.length`
/// bits of `c`'s representation, as an unsigned value.
pub proof fn lemma_store_apply_readback(c: Const, f: FieldSelector)
    requires
        f.wf(),
    ensures
        Const::Unsigned(0).spec_store(c, f).spec_apply(f) == Const::Unsigned(
            c.bits() & field_mask(f.length),
        ),
{
    let b = c.bits();
    let off = f.offset;
    let len = f.length;
    let m = field_mask(len);
    let stored = Const::Unsigned(0).spec_store(c, f);
    assert(stored == Const::Unsigned((0 & !(m << off)) | ((b << off) & (m << off))));
    let merged = (0 & !(m << off)) | ((b << off) & (m << off));
    assert(((merged >> off) & m) == (b & m)) by (bit_vector)
        requires
            merged == (0 & !(m << off)) | ((b << off) & (m << off)),
            m == ((1u128 << len) - 1) as u128,
            off + len <= 96,
    ;
}

/// The round trip law in its literal form, on the inputs where it holds:
/// for an unsigned `c` and a selector at offset 0,
/// `zero().store(c, f).apply(f) == c.apply(f)`.
///
/// With a nonzero offset the two sides differ, because `store` inserts the
/// low bits of `c` while `apply` reads at the offset: for `c = Unsigned(2)`
/// and `f = {offset: 1, length: 1}` the left side reads back 0 while
/// `c.apply(f)` is 1. For signed `c` the sign-magnitude reading differs too.
pub proof fn lemma_store_apply_roundtrip(c: Const, f: FieldSelector)
    requires
        f.wf(),
        c is Unsigned,
        f.offset == 0,
    ensures
        Const::Unsigned(0).spec_store(c, f).spec_apply(f) == c.spec_apply(f),
{
    lemma_store_apply_readback(c, f);
    let b = c.bits();
    let m = field_mask(f.length);
    assert(((b >> 0) & m) == (b & m)) by (bit_vector);
}

/// Field reads are bounded by the field width: an unsigned read has no bits
/// set above `f.length`; a signed read with the top field bit clear is the
/// nonnegative low `f.length - 1` bits, and with the top field bit set it is
/// minus the value of those bits.
pub proof fn lemma_field_read_widths(c: Const, f: FieldSelector)
    ensures
        c is Unsigned ==> c.spec_apply(f) == Const::Unsigned(raw_field(c.bits(), f)) && raw_field(
            c.bits(),
            f,
        ) & !field_mask(f.length) == 0,
        c is Signed && f.length > 0 ==> {
            let len = if f.length > 128 {
                128u8
            } else {
                f.length
            };
            let raw = raw_field(c.bits(), f);
            let mag = raw & field_mask((len - 1) as u8);
            c.spec_apply(f) == Const::Signed(
                if (raw >> ((len - 1) as u8)) & 1 == 1 {
                    (0 - mag) as i128
                } else {
                    mag as i128
                },
            )
        },
{
    if c is Unsigned {
        let raw = raw_field(c.bits(), f);
        let len = f.length;
        let b = c.bits();
        if f.offset >= 128 {
            assert(0u128 & !field_mask(len) == 0) by (bit_vector);
        } else {
            let off = f.offset;
            if len >= 128 {
                assert(((b >> off) & u128::MAX) & !u128::MAX == 0) by (bit_vector);
            } else {
                assert(((b >> off) & (((1u128 << len) - 1) as u128)) & !(((1u128 << len)
                    - 1) as u128) == 0) by (bit_vector)
                    requires
                        len < 128,
                ;
            }
        }
    }
}

/// Cross-sign order: every negative signed value is below every unsigned
/// value, in the order that `<` and `partial_cmp` decide.
pub proof fn lemma_cross_sign_order(u: u128, s: i128)
    requires
        s < 0,
    ensures
        Const::Signed(s).partial_cmp_spec(&Const::Unsigned(u)) == Some(core::cmp::Ordering::Less),
        Const::Signed(s).ival() < Const::Unsigned(u).ival(),
{
}

} // verus!
