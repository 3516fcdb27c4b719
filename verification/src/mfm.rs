//! The event-window geometry: the 41-site Manhattan-radius-4 layout, the
//! dihedral symmetry transforms on site indices, and the draw of one
//! orientation from a symmetry set.

use crate::arith::bitlen;
use crate::arith::popcount;
use crate::arith::Const;
use crate::base::FieldSelector;
use crate::base::Symmetries;
use crate::color::Color;
use vstd::prelude::*;

verus! {

/// The base-orientation offset `(dx, dy)` of site `i` from the window
/// center. Sites are ordered by Manhattan radius, and inside one radius
/// group lexicographically by `(dx, dy)`.
pub open spec fn offset_spec(i: int) -> (int, int) {
    if i == 0 {
        (0, 0)
    } else if i == 1 {
        (-1, 0)
    } else if i == 2 {
        (0, -1)
    } else if i == 3 {
        (0, 1)
    } else if i == 4 {
        (1, 0)
    } else if i == 5 {
        (-1, -1)
    } else if i == 6 {
        (-1, 1)
    } else if i == 7 {
        (1, -1)
    } else if i == 8 {
        (1, 1)
    } else if i == 9 {
        (-2, 0)
    } else if i == 10 {
        (0, -2)
    } else if i == 11 {
        (0, 2)
    } else if i == 12 {
        (2, 0)
    } else if i == 13 {
        (-2, -1)
    } else if i == 14 {
        (-2, 1)
    } else if i == 15 {
        (-1, -2)
    } else if i == 16 {
        (-1, 2)
    } else if i == 17 {
        (1, -2)
    } else if i == 18 {
        (1, 2)
    } else if i == 19 {
        (2, -1)
    } else if i == 20 {
        (2, 1)
    } else if i == 21 {
        (-3, 0)
    } else if i == 22 {
        (0, -3)
    } else if i == 23 {
        (0, 3)
    } else if i == 24 {
        (3, 0)
    } else if i == 25 {
        (-2, -2)
    } else if i == 26 {
        (-2, 2)
    } else if i == 27 {
        (2, -2)
    } else if i == 28 {
        (2, 2)
    } else if i == 29 {
        (-3, -1)
    } else if i == 30 {
        (-3, 1)
    } else if i == 31 {
        (-1, -3)
    } else if i == 32 {
        (-1, 3)
    } else if i == 33 {
        (1, -3)
    } else if i == 34 {
        (1, 3)
    } else if i == 35 {
        (3, -1)
    } else if i == 36 {
        (3, 1)
    } else if i == 37 {
        (-4, 0)
    } else if i == 38 {
        (0, -4)
    } else if i == 39 {
        (0, 4)
    } else if i == 40 {
        (4, 0)
    } else {
        (5, 5)
    }
}

/// The site index carrying offset `o`, 41 for an offset outside the window.
pub open spec fn site_of_offset(o: (int, int)) -> int {
    if o == (0int, 0int) {
        0
    } else if o == (-1int, 0int) {
        1
    } else if o == (0int, -1int) {
        2
    } else if o == (0int, 1int) {
        3
    } else if o == (1int, 0int) {
        4
    } else if o == (-1int, -1int) {
        5
    } else if o == (-1int, 1int) {
        6
    } else if o == (1int, -1int) {
        7
    } else if o == (1int, 1int) {
        8
    } else if o == (-2int, 0int) {
        9
    } else if o == (0int, -2int) {
        10
    } else if o == (0int, 2int) {
        11
    } else if o == (2int, 0int) {
        12
    } else if o == (-2int, -1int) {
        13
    } else if o == (-2int, 1int) {
        14
    } else if o == (-1int, -2int) {
        15
    } else if o == (-1int, 2int) {
        16
    } else if o == (1int, -2int) {
        17
    } else if o == (1int, 2int) {
        18
    } else if o == (2int, -1int) {
        19
    } else if o == (2int, 1int) {
        20
    } else if o == (-3int, 0int) {
        21
    } else if o == (0int, -3int) {
        22
    } else if o == (0int, 3int) {
        23
    } else if o == (3int, 0int) {
        24
    } else if o == (-2int, -2int) {
        25
    } else if o == (-2int, 2int) {
        26
    } else if o == (2int, -2int) {
        27
    } else if o == (2int, 2int) {
        28
    } else if o == (-3int, -1int) {
        29
    } else if o == (-3int, 1int) {
        30
    } else if o == (-1int, -3int) {
        31
    } else if o == (-1int, 3int) {
        32
    } else if o == (1int, -3int) {
        33
    } else if o == (1int, 3int) {
        34
    } else if o == (3int, -1int) {
        35
    } else if o == (3int, 1int) {
        36
    } else if o == (-4int, 0int) {
        37
    } else if o == (0int, -4int) {
        38
    } else if o == (0int, 4int) {
        39
    } else if o == (4int, 0int) {
        40
    } else {
        41
    }
}

/// The dihedral transform selected by the single orientation bit `sym`:
/// `R090L` is the 90-degree counter-clockwise rotation `(x, y) -> (-y, x)`,
/// and the reflected orientations compose that rotation with the flip
/// `(x, y) -> (-x, y)`. A value that is not a single orientation bit leaves
/// the offset unchanged.
pub open spec fn transform_offset(sym: u8, o: (int, int)) -> (int, int) {
    if sym == 0x01 {
        o
    } else if sym == 0x02 {
        (-o.1, o.0)
    } else if sym == 0x04 {
        (-o.0, -o.1)
    } else if sym == 0x08 {
        (o.1, -o.0)
    } else if sym == 0x10 {
        (-o.0, o.1)
    } else if sym == 0x20 {
        (-o.1, -o.0)
    } else if sym == 0x40 {
        (o.0, -o.1)
    } else if sym == 0x80 {
        (o.1, o.0)
    } else {
        o
    }
}

/// What [`map_site`] returns.
pub open spec fn map_site_spec(x: int, sym: u8) -> int {
    site_of_offset(transform_offset(sym, offset_spec(x)))
}

/// Looking a site's offset up and looking it back up is the identity.
pub proof fn lemma_offset_site_inverse(x: int)
    requires
        0 <= x < 41,
    ensures
        site_of_offset(offset_spec(x)) == x,
{
}

/// Every transform of a window offset lies in the window again, so
/// [`map_site_spec`] sends site indices to site indices.
pub proof fn lemma_map_site_in_window(x: int, sym: u8)
    requires
        0 <= x < 41,
    ensures
        0 <= map_site_spec(x, sym) < 41,
        offset_spec(map_site_spec(x, sym)) == transform_offset(sym, offset_spec(x)),
{
}

/// Site mapping is an involution for inverse rotation pairs: mapping under a
/// rotation and then under its inverse rotation returns the original site.
/// `R000L` is its own inverse, `R090L` and `R270L` invert each other, and
/// `R180L` is its own inverse.
pub proof fn lemma_map_site_rotation_involution(x: int, sym: u8, inv: u8)
    requires
        0 <= x < 41,
        (sym == 0x01 && inv == 0x01) || (sym == 0x02 && inv == 0x08) || (sym == 0x04 && inv
            == 0x04) || (sym == 0x08 && inv == 0x02),
    ensures
        map_site_spec(map_site_spec(x, sym), inv) == x,
{
    lemma_map_site_in_window(x, sym);
}

/// Maps a logical site index through one orientation: the site whose offset
/// is the transform of the given site's offset.
pub fn map_site(x: u8, s: Symmetries) -> (r: u8)
    requires
        x < 41,
        s.is_single(),
    ensures
        r == map_site_spec(x as int, s.0),
        r < 41,
{
    proof {
        lemma_map_site_in_window(x as int, s.0);
    }
    let (dx, dy) = offset_of_site(x);
    let sym = s.0;
    let o: (i8, i8) = if sym == 0x01 {
        (dx, dy)
    } else if sym == 0x02 {
        (-dy, dx)
    } else if sym == 0x04 {
        (-dx, -dy)
    } else if sym == 0x08 {
        (dy, -dx)
    } else if sym == 0x10 {
        (-dx, dy)
    } else if sym == 0x20 {
        (-dy, -dx)
    } else if sym == 0x40 {
        (dx, -dy)
    } else {
        (dy, dx)
    };
    site_of(o.0, o.1)
}

/// The base offset of a site index, `None` past the window.
pub fn offsets_for(i: usize) -> (r: Option<(i8, i8)>)
    ensures
        i < 41 ==> (r matches Some(o) && (o.0 as int, o.1 as int) == offset_spec(i as int)),
        i >= 41 ==> r is None,
{
    if i < 41 {
        Some(offset_of_site(i as u8))
    } else {
        None
    }
}

/// The base offset of a site index, as machine integers.
fn offset_of_site(x: u8) -> (r: (i8, i8))
    requires
        x < 41,
    ensures
        (r.0 as int, r.1 as int) == offset_spec(x as int),
        -4 <= r.0 <= 4,
        -4 <= r.1 <= 4,
{
    if x == 0 {
        (0, 0)
    } else if x == 1 {
        (-1, 0)
    } else if x == 2 {
        (0, -1)
    } else if x == 3 {
        (0, 1)
    } else if x == 4 {
        (1, 0)
    } else if x == 5 {
        (-1, -1)
    } else if x == 6 {
        (-1, 1)
    } else if x == 7 {
        (1, -1)
    } else if x == 8 {
        (1, 1)
    } else if x == 9 {
        (-2, 0)
    } else if x == 10 {
        (0, -2)
    } else if x == 11 {
        (0, 2)
    } else if x == 12 {
        (2, 0)
    } else if x == 13 {
        (-2, -1)
    } else if x == 14 {
        (-2, 1)
    } else if x == 15 {
        (-1, -2)
    } else if x == 16 {
        (-1, 2)
    } else if x == 17 {
        (1, -2)
    } else if x == 18 {
        (1, 2)
    } else if x == 19 {
        (2, -1)
    } else if x == 20 {
        (2, 1)
    } else if x == 21 {
        (-3, 0)
    } else if x == 22 {
        (0, -3)
    } else if x == 23 {
        (0, 3)
    } else if x == 24 {
        (3, 0)
    } else if x == 25 {
        (-2, -2)
    } else if x == 26 {
        (-2, 2)
    } else if x == 27 {
        (2, -2)
    } else if x == 28 {
        (2, 2)
    } else if x == 29 {
        (-3, -1)
    } else if x == 30 {
        (-3, 1)
    } else if x == 31 {
        (-1, -3)
    } else if x == 32 {
        (-1, 3)
    } else if x == 33 {
        (1, -3)
    } else if x == 34 {
        (1, 3)
    } else if x == 35 {
        (3, -1)
    } else if x == 36 {
        (3, 1)
    } else if x == 37 {
        (-4, 0)
    } else if x == 38 {
        (0, -4)
    } else if x == 39 {
        (0, 4)
    } else {
        (4, 0)
    }
}

/// The site index whose base offset is `(dx, dy)`, 41 when there is none.
fn site_of(dx: i8, dy: i8) -> (r: u8)
    requires
        -8 <= dx <= 8,
        -8 <= dy <= 8,
    ensures
        r == site_of_offset((dx as int, dy as int)),
{
    if dx == 0 && dy == 0 {
        0
    } else if dx == -1 && dy == 0 {
        1
    } else if dx == 0 && dy == -1 {
        2
    } else if dx == 0 && dy == 1 {
        3
    } else if dx == 1 && dy == 0 {
        4
    } else if dx == -1 && dy == -1 {
        5
    } else if dx == -1 && dy == 1 {
        6
    } else if dx == 1 && dy == -1 {
        7
    } else if dx == 1 && dy == 1 {
        8
    } else if dx == -2 && dy == 0 {
        9
    } else if dx == 0 && dy == -2 {
        10
    } else if dx == 0 && dy == 2 {
        11
    } else if dx == 2 && dy == 0 {
        12
    } else if dx == -2 && dy == -1 {
        13
    } else if dx == -2 && dy == 1 {
        14
    } else if dx == -1 && dy == -2 {
        15
    } else if dx == -1 && dy == 2 {
        16
    } else if dx == 1 && dy == -2 {
        17
    } else if dx == 1 && dy == 2 {
        18
    } else if dx == 2 && dy == -1 {
        19
    } else if dx == 2 && dy == 1 {
        20
    } else if dx == -3 && dy == 0 {
        21
    } else if dx == 0 && dy == -3 {
        22
    } else if dx == 0 && dy == 3 {
        23
    } else if dx == 3 && dy == 0 {
        24
    } else if dx == -2 && dy == -2 {
        25
    } else if dx == -2 && dy == 2 {
        26
    } else if dx == 2 && dy == -2 {
        27
    } else if dx == 2 && dy == 2 {
        28
    } else if dx == -3 && dy == -1 {
        29
    } else if dx == -3 && dy == 1 {
        30
    } else if dx == -1 && dy == -3 {
        31
    } else if dx == -1 && dy == 3 {
        32
    } else if dx == 1 && dy == -3 {
        33
    } else if dx == 1 && dy == 3 {
        34
    } else if dx == 3 && dy == -1 {
        35
    } else if dx == 3 && dy == 1 {
        36
    } else if dx == -4 && dy == 0 {
        37
    } else if dx == 0 && dy == -4 {
        38
    } else if dx == 0 && dy == 4 {
        39
    } else if dx == 4 && dy == 0 {
        40
    } else {
        41
    }
}

/// Bit `p` of `v`, as a predicate.
pub open spec fn bit_at(v: u8, p: nat) -> bool
    decreases p,
{
    if p == 0 {
        v % 2 == 1
    } else {
        bit_at(v / 2, (p - 1) as nat)
    }
}

/// The position of the `k`-th set bit of `v`, counting from the least
/// significant end; 8 marks that there is no such bit.
pub open spec fn nth_set_bit(v: u8, k: nat) -> nat
    decreases v, k,
{
    if v == 0 {
        8
    } else if v % 2 == 1 {
        if k == 0 {
            0
        } else {
            1 + nth_set_bit(v / 2, (k - 1) as nat)
        }
    } else {
        1 + nth_set_bit(v / 2, k)
    }
}

/// The number of set bits of `v` below position `p`.
pub open spec fn bit_rank(v: u8, p: nat) -> nat
    decreases p,
{
    if p == 0 {
        0
    } else {
        (v % 2) as nat + bit_rank(v / 2, (p - 1) as nat)
    }
}

proof fn lemma_nth_set_bit_hit(v: u8, k: nat)
    requires
        k < popcount(v as u128),
    ensures
        nth_set_bit(v, k) < bitlen(v as u128),
        bit_at(v, nth_set_bit(v, k)),
    decreases v,
{
    assert((v / 2) as u128 == (v as u128) / 2);
    if v % 2 == 1 && k == 0 {
    } else if v % 2 == 1 {
        lemma_nth_set_bit_hit(v / 2, (k - 1) as nat);
    } else {
        lemma_nth_set_bit_hit(v / 2, k);
    }
}

proof fn lemma_nth_set_bit_mono(v: u8, k1: nat, k2: nat)
    requires
        k1 < k2 < popcount(v as u128),
    ensures
        nth_set_bit(v, k1) < nth_set_bit(v, k2),
    decreases v,
{
    assert((v / 2) as u128 == (v as u128) / 2);
    if v % 2 == 1 {
        if k1 > 0 {
            lemma_nth_set_bit_mono(v / 2, (k1 - 1) as nat, (k2 - 1) as nat);
        } else {
            lemma_nth_set_bit_hit(v / 2, (k2 - 1) as nat);
        }
    } else {
        lemma_nth_set_bit_mono(v / 2, k1, k2);
    }
}

proof fn lemma_nth_set_bit_rank(v: u8, p: nat)
    requires
        bit_at(v, p),
    ensures
        bit_rank(v, p) < popcount(v as u128),
        nth_set_bit(v, bit_rank(v, p)) == p,
    decreases p,
{
    assert((v / 2) as u128 == (v as u128) / 2);
    if p == 0 {
    } else {
        lemma_nth_set_bit_rank(v / 2, (p - 1) as nat);
    }
}

/// Drawing one orientation from a nonempty set is a bijection from the
/// residues `0 .. popcount(v)` onto the set bits of `v`: each draw lands on
/// a set bit, different residues land on different bits, and every set bit
/// is drawn by some residue.
pub proof fn lemma_symmetry_draw_bijection(v: u8)
    requires
        v != 0,
    ensures
        forall|k: nat|
            k < popcount(v as u128) ==> (#[trigger] nth_set_bit(v, k)) < 8 && bit_at(
                v,
                nth_set_bit(v, k),
            ),
        forall|k1: nat, k2: nat|
            k1 < popcount(v as u128) && k2 < popcount(v as u128) && k1 != k2
                ==> #[trigger] nth_set_bit(v, k1) != #[trigger] nth_set_bit(v, k2),
        forall|p: nat|
            p < 8 && #[trigger] bit_at(v, p) ==> exists|k: nat|
                k < popcount(v as u128) && #[trigger] nth_set_bit(v, k) == p,
{
    crate::arith::lemma_bitlen_u8(v);
    assert forall|k: nat| k < popcount(v as u128) implies (#[trigger] nth_set_bit(v, k)) < 8
        && bit_at(v, nth_set_bit(v, k)) by {
        lemma_nth_set_bit_hit(v, k);
    }
    assert forall|k1: nat, k2: nat|
        k1 < popcount(v as u128) && k2 < popcount(v as u128) && k1 != k2 implies #[trigger] nth_set_bit(
        v,
        k1,
    ) != #[trigger] nth_set_bit(v, k2) by {
        if k1 < k2 {
            lemma_nth_set_bit_mono(v, k1, k2);
        } else {
            lemma_nth_set_bit_mono(v, k2, k1);
        }
    }
    assert forall|p: nat| p < 8 && #[trigger] bit_at(v, p) implies exists|k: nat|
        k < popcount(v as u128) && #[trigger] nth_set_bit(v, k) == p by {
        lemma_nth_set_bit_rank(v, p);
        assert(nth_set_bit(v, bit_rank(v, p)) == p);
    }
}

/// The number of set bits of a byte.
fn popcount_u8(v: u8) -> (r: u32)
    ensures
        r == popcount(v as u128),
        r <= 8,
{
    proof {
        crate::arith::lemma_bitlen_u8(v);
        crate::arith::lemma_popcount_le_bitlen(v as u128);
    }
    let mut n = v;
    let mut c: u32 = 0;
    while n != 0
        invariant
            c + popcount(n as u128) == popcount(v as u128),
            popcount(v as u128) <= 8,
        decreases n,
    {
        proof {
            assert((n / 2) as u128 == (n as u128) / 2);
        }
        c = c + (n % 2) as u32;
        n = n / 2;
    }
    c
}

/// Draws one orientation from the set `s` using the random residue of `r`:
/// the `r mod popcount(s)`-th set bit of `s`, counted from the least
/// significant end. The empty set draws `R000L`.
pub fn select_symmetries(r: u32, s: Symmetries) -> (res: Symmetries)
    ensures
        s.0 == 0 ==> res == Symmetries(0x01),
        s.0 != 0 ==> res.0 == (1u8 << (nth_set_bit(s.0, (r as nat % popcount(s.0 as u128)) as nat)
            % 8) as u8),
        s.0 != 0 ==> res.0 & s.0 == res.0,
        res.is_single(),
{
    if s.0 == 0 {
        return Symmetries(0x01);
    }
    let count = popcount_u8(s.0);
    proof {
        crate::arith::lemma_bitlen_u8(s.0);
        crate::arith::lemma_popcount_pos(s.0 as u128);
        lemma_nth_set_bit_hit(s.0, (r as nat % popcount(s.0 as u128)) as nat);
    }
    let k0 = r % count;
    let mut k = k0;
    let mut v = s.0;
    let mut p: u8 = 0;
    loop
        invariant
            s.0 != 0,
            count == popcount(s.0 as u128),
            1 <= count <= 8,
            k0 == r % count,
            (k0 as nat) < popcount(s.0 as u128),
            (k as nat) < popcount(v as u128),
            nth_set_bit(s.0, k0 as nat) == p + nth_set_bit(v, k as nat),
            p + bitlen(v as u128) <= 8,
        decreases v,
    {
        proof {
            assert((v / 2) as u128 == (v as u128) / 2);
        }
        if v % 2 == 1 {
            if k == 0 {
                let res = 1u8 << p;
                proof {
                    let pn = nth_set_bit(s.0, k0 as nat);
                    assert(pn == p as nat);
                    lemma_nth_set_bit_hit(s.0, k0 as nat);
                    lemma_bit_at_shift(s.0, p);
                    assert(res == 1u8 << (pn % 8) as u8);
                    let sv = s.0;
                    assert((1u8 << p) & sv == (1u8 << p) && ((1u8 << p) == 1 || (1u8 << p) == 2 || (
                    1u8 << p) == 4 || (1u8 << p) == 8 || (1u8 << p) == 0x10 || (1u8 << p) == 0x20
                        || (1u8 << p) == 0x40 || (1u8 << p) == 0x80)) by (bit_vector)
                        requires
                            p < 8,
                            (sv >> p) & 1 == 1,
                    ;
                }
                return Symmetries(res);
            }
            k = k - 1;
        }
        v = v / 2;
        p = p + 1;
    }
}

/// `bit_at` agrees with testing the shifted value's low bit.
proof fn lemma_bit_at_shift(v: u8, p: u8)
    requires
        p < 8,
        bit_at(v, p as nat),
    ensures
        (v >> p) & 1 == 1,
    decreases p,
{
    if p == 0 {
        assert(v % 2 == 1 ==> (v >> 0u8) & 1 == 1) by (bit_vector);
    } else {
        lemma_bit_at_shift(v / 2, (p - 1) as u8);
        assert(((v / 2) >> ((p - 1) as u8)) & 1 == 1 ==> (v >> p) & 1 == 1) by (bit_vector)
            requires
                0 < p < 8,
        ;
    }
}

/// Per-type metadata, immutable after an object is loaded.
#[derive(Clone, Debug)]
pub struct Metadata {
    pub name: Vec<u8>,
    pub symbol: Vec<u8>,
    pub descs: Vec<Vec<u8>>,
    pub authors: Vec<Vec<u8>>,
    pub licenses: Vec<Vec<u8>>,
    pub radius: u8,
    pub bg_color: Color,
    pub fg_color: Color,
    pub symmetries: Symmetries,
    pub field_map: Vec<(Vec<u8>, FieldSelector)>,
    pub parameter_map: Vec<(Vec<u8>, Const)>,
    pub type_num: u16,
}

impl Metadata {
    /// A fresh record with placeholder name `???` and symbol `?`.
    pub fn new() -> (r: Metadata)
        ensures
            r.name@ == seq![0x3fu8, 0x3fu8, 0x3fu8],
            r.symbol@ == seq![0x3fu8],
            r.descs@.len() == 0,
            r.authors@.len() == 0,
            r.licenses@.len() == 0,
            r.radius == 0,
            r.bg_color.0 == 0,
            r.fg_color.0 == 0xffff_ffffu32,
            r.symmetries.0 == 0,
            r.field_map@.len() == 0,
            r.parameter_map@.len() == 0,
            r.type_num == 0,
    {
        let name = vec![0x3fu8, 0x3fu8, 0x3fu8];
        let symbol = vec![0x3fu8];
        proof {
            assert(name@ =~= seq![0x3fu8, 0x3fu8, 0x3fu8]);
            assert(symbol@ =~= seq![0x3fu8]);
        }
        Metadata {
            name,
            symbol,
            descs: Vec::new(),
            authors: Vec::new(),
            licenses: Vec::new(),
            radius: 0,
            bg_color: Color(0),
            fg_color: Color(0xffff_ffff),
            symmetries: Symmetries(0),
            field_map: Vec::new(),
            parameter_map: Vec::new(),
            type_num: 0,
        }
    }

    /// A fresh atom of this type: all bits zero except the type id stored
    /// in the `TYPE` field.
    pub fn new_atom(&self) -> (r: Const)
        ensures
            r == Const::Unsigned(0).spec_store(
                Const::Unsigned(self.type_num as u128),
                FieldSelector { offset: 80u8, length: 16u8 },
            ),
    {
        let mut a = Const::zero();
        a.store(Const::from_u16(self.type_num), &FieldSelector::sel_type());
        a
    }
}

/// The 41-site neighborhood a cursor acts on. Site reads outside the window
/// give zero and writes outside it are dropped, as the storage backends do
/// at a grid edge.
pub trait EventWindow {
    /// The 41 site values, as a sequence.
    spec fn sites(&self) -> Seq<Const>;

    /// The paint color at the window origin.
    spec fn paint(&self) -> u32;

    /// The window's own well-formedness.
    spec fn ew_wf(&self) -> bool;

    /// Moves the window to a new, arbitrarily selected origin.
    fn reset(&mut self)
        requires
            old(self).ew_wf(),
        ensures
            final(self).ew_wf(),
    ;

    fn get(&self, i: usize) -> (r: Const)
        requires
            self.ew_wf(),
        ensures
            r == if i < 41 {
                self.sites()[i as int]
            } else {
                Const::Unsigned(0)
            },
    ;

    fn set(&mut self, i: usize, v: Const)
        requires
            old(self).ew_wf(),
        ensures
            final(self).ew_wf(),
            final(self).sites() == if i < 41 {
                old(self).sites().update(i as int, v)
            } else {
                old(self).sites()
            },
            final(self).paint() == old(self).paint(),
    ;

    fn swap(&mut self, i: usize, j: usize)
        requires
            old(self).ew_wf(),
        ensures
            final(self).ew_wf(),
            final(self).sites() == if i < 41 && j < 41 && i != j {
                old(self).sites().update(i as int, old(self).sites()[j as int]).update(
                    j as int,
                    old(self).sites()[i as int],
                )
            } else {
                old(self).sites()
            },
            final(self).paint() == old(self).paint(),
    ;

    fn get_paint(&self) -> (r: Color)
        requires
            self.ew_wf(),
        ensures
            r.0 == self.paint(),
    ;

    fn set_paint(&mut self, c: Color)
        requires
            old(self).ew_wf(),
        ensures
            final(self).ew_wf(),
            final(self).sites() == old(self).sites(),
            final(self).paint() == c.0,
    ;
}

/// A pseudorandom source carried by an event window. Nothing is promised of
/// the drawn values; the window contents are untouched by a draw.
pub trait Rand: EventWindow {
    fn rand_u32(&mut self) -> (r: u32)
        requires
            old(self).ew_wf(),
        ensures
            final(self).ew_wf(),
            final(self).sites() == old(self).sites(),
            final(self).paint() == old(self).paint(),
    ;

    /// A 96-bit pseudorandom constant.
    fn rand(&mut self) -> (r: Const)
        requires
            old(self).ew_wf(),
        ensures
            final(self).ew_wf(),
            final(self).sites() == old(self).sites(),
            final(self).paint() == old(self).paint(),
            r is Unsigned && r.bits() < 0x1_0000_0000_0000_0000_0000_0000,
    ;
}

/// A free-standing 41-site window with an injected queue of random words,
/// for tests and for drivers that copy a neighborhood in and out.
pub struct MinimalEventWindow {
    pub data: Vec<Const>,
    pub paint_color: u32,
    pub rands: Vec<u64>,
}

impl MinimalEventWindow {
    /// An all-empty window that will serve random draws from `rands`,
    /// front first, and zero once the queue is exhausted.
    pub fn new(rands: Vec<u64>) -> (r: MinimalEventWindow)
        ensures
            r.ew_wf(),
            r.sites() == Seq::new(41, |i: int| Const::Unsigned(0)),
            r.paint() == 0,
            r.rands@ == rands@,
    {
        let mut data: Vec<Const> = Vec::new();
        let mut i: usize = 0;
        while i < 41
            invariant
                i <= 41,
                data@.len() == i,
                forall|j: int| 0 <= j < i ==> data@[j] == Const::Unsigned(0),
            decreases 41 - i,
        {
            data.push(Const::Unsigned(0));
            i += 1;
        }
        proof {
            assert(data@ =~= Seq::new(41, |i: int| Const::Unsigned(0)));
        }
        MinimalEventWindow { data, paint_color: 0, rands }
    }

    /// The next random word of the queue, zero once it is exhausted.
    fn next_u64(&mut self) -> (r: u64)
        ensures
            final(self).data == old(self).data,
            final(self).paint_color == old(self).paint_color,
    {
        if self.rands.len() > 0 {
            self.rands.remove(0)
        } else {
            0
        }
    }
}

impl EventWindow for MinimalEventWindow {
    open spec fn sites(&self) -> Seq<Const> {
        self.data@
    }

    open spec fn paint(&self) -> u32 {
        self.paint_color
    }

    open spec fn ew_wf(&self) -> bool {
        self.data@.len() == 41
    }

    fn reset(&mut self) {
    }

    fn get(&self, i: usize) -> (r: Const) {
        if i < 41 {
            self.data[i]
        } else {
            Const::Unsigned(0)
        }
    }

    fn set(&mut self, i: usize, v: Const) {
        if i < 41 {
            self.data.set(i, v);
        }
    }

    fn swap(&mut self, i: usize, j: usize) {
        if i < 41 && j < 41 && i != j {
            let a = self.data[i];
            let b = self.data[j];
            self.data.set(i, b);
            self.data.set(j, a);
        }
    }

    fn get_paint(&self) -> (r: Color) {
        Color(self.paint_color)
    }

    fn set_paint(&mut self, c: Color) {
        self.paint_color = c.0;
    }
}

impl Rand for MinimalEventWindow {
    fn rand_u32(&mut self) -> (r: u32) {
        let x = self.next_u64();
        (x % 0x1_0000_0000) as u32
    }

    fn rand(&mut self) -> (r: Const) {
        let hi = self.next_u64();
        let lo = self.next_u64();
        let v = ((hi % 0x1_0000_0000) as u128) * 0x1_0000_0000_0000_0000 + (lo as u128);
        proof {
            let h = (hi % 0x1_0000_0000) as u128;
            assert(h * 0x1_0000_0000_0000_0000 + 0xffff_ffff_ffff_ffff
                < 0x1_0000_0000_0000_0000_0000_0000) by (nonlinear_arith)
                requires
                    h < 0x1_0000_0000,
            ;
        }
        Const::Unsigned(v)
    }
}

} // verus!
