//! Shared value-level vocabulary: bit-field selectors, site numbers and
//! symmetry flag sets.

use vstd::prelude::*;
use vstd::string::StringSliceAdditionalSpecFns;

verus! {

/// A site index inside an event window.
#[derive(Copy, Clone, Debug, PartialEq, Eq, Structural)]
pub struct SiteNumber(pub u8);

/// A contiguous bit range inside a 96-bit atom: `length` bits starting at
/// bit `offset` (bit 0 is the least significant).
#[derive(Copy, Clone, Debug, PartialEq, Eq, Structural)]
pub struct FieldSelector {
    pub offset: u8,
    pub length: u8,
}

impl FieldSelector {
    /// True when the selector lies inside the 96-bit atom payload.
    pub open spec fn wf(self) -> bool {
        self.offset + self.length <= 96
    }

    /// The 16-bit type-id field, bits 80..96.
    pub fn sel_type() -> (r: FieldSelector)
        ensures
            r == (FieldSelector { offset: 80u8, length: 16u8 }),
    {
        FieldSelector { offset: 80, length: 16 }
    }

    /// The 25-bit header field, bits 71..96.
    pub fn sel_header() -> (r: FieldSelector)
        ensures
            r == (FieldSelector { offset: 71u8, length: 25u8 }),
    {
        FieldSelector { offset: 71, length: 25 }
    }

    /// The 71-bit user-data field, bits 0..71.
    pub fn sel_data() -> (r: FieldSelector)
        ensures
            r == (FieldSelector { offset: 0u8, length: 71u8 }),
    {
        FieldSelector { offset: 0, length: 71 }
    }

    /// Wire form of a selector: `offset | (length << 8)`, little end first.
    pub fn as_u16(&self) -> (r: u16)
        ensures
            r == self.offset + self.length * 0x100,
    {
        let o = self.offset as u16;
        let l = self.length as u16;
        proof {
            assert((o | (l << 8u16)) == o + l * 0x100) by (bit_vector)
                requires
                    o < 0x100,
                    l < 0x100,
            ;
        }
        o | (l << 8u16)
    }

    /// Inverse of [`FieldSelector::as_u16`].
    pub fn from_u16(x: u16) -> (r: FieldSelector)
        ensures
            r.offset == x % 0x100,
            r.length == x / 0x100,
    {
        proof {
            assert((x & 0xff) == x % 0x100 && (x >> 8u16) == x / 0x100) by (bit_vector);
        }
        FieldSelector { offset: (x & 0xff) as u8, length: (x >> 8u16) as u8 }
    }
}

/// A set of window orientations, one bit per orientation.
///
/// Bits 0..4 are the four left-handed rotations `R000L`, `R090L`, `R180L`,
/// `R270L`; bits 4..8 are their reflected counterparts `R000R`..`R270R`.
#[derive(Copy, Clone, Debug, PartialEq, Eq, Structural)]
pub struct Symmetries(pub u8);

impl Symmetries {
    pub fn none() -> (r: Symmetries)
        ensures
            r.0 == 0,
    {
        Symmetries(0)
    }

    pub fn all() -> (r: Symmetries)
        ensures
            r.0 == 0xff,
    {
        Symmetries(0xff)
    }

    pub fn r000l() -> (r: Symmetries)
        ensures
            r.0 == 0x01,
    {
        Symmetries(0x01)
    }

    pub fn r090l() -> (r: Symmetries)
        ensures
            r.0 == 0x02,
    {
        Symmetries(0x02)
    }

    pub fn r180l() -> (r: Symmetries)
        ensures
            r.0 == 0x04,
    {
        Symmetries(0x04)
    }

    pub fn r270l() -> (r: Symmetries)
        ensures
            r.0 == 0x08,
    {
        Symmetries(0x08)
    }

    pub fn r000r() -> (r: Symmetries)
        ensures
            r.0 == 0x10,
    {
        Symmetries(0x10)
    }

    pub fn r090r() -> (r: Symmetries)
        ensures
            r.0 == 0x20,
    {
        Symmetries(0x20)
    }

    pub fn r180r() -> (r: Symmetries)
        ensures
            r.0 == 0x40,
    {
        Symmetries(0x40)
    }

    pub fn r270r() -> (r: Symmetries)
        ensures
            r.0 == 0x80,
    {
        Symmetries(0x80)
    }

    pub fn from_bits(x: u8) -> (r: Symmetries)
        ensures
            r.0 == x,
    {
        Symmetries(x)
    }

    pub fn bits(&self) -> (r: u8)
        ensures
            r == self.0,
    {
        self.0
    }

    pub fn is_empty(&self) -> (r: bool)
        ensures
            r == (self.0 == 0),
    {
        self.0 == 0
    }

    /// True when exactly one orientation bit is set.
    pub open spec fn is_single(self) -> bool {
        self.0 == 0x01 || self.0 == 0x02 || self.0 == 0x04 || self.0 == 0x08 || self.0 == 0x10
            || self.0 == 0x20 || self.0 == 0x40 || self.0 == 0x80
    }

    /// What [`Symmetries::from_str`] returns for a given name.
    pub open spec fn spec_of_name(s: Seq<char>) -> Option<u8> {
        if s == "NONE"@ {
            Some(0u8)
        } else if s == "R000L"@ {
            Some(0x01u8)
        } else if s == "R090L"@ {
            Some(0x02u8)
        } else if s == "R180L"@ {
            Some(0x04u8)
        } else if s == "R270L"@ {
            Some(0x08u8)
        } else if s == "R000R"@ {
            Some(0x10u8)
        } else if s == "R090R"@ {
            Some(0x20u8)
        } else if s == "R180R"@ {
            Some(0x40u8)
        } else if s == "R270R"@ {
            Some(0x80u8)
        } else if s == "ALL"@ {
            Some(0xffu8)
        } else {
            None
        }
    }

    /// Parses an orientation name, as it appears in source text.
    pub fn from_str(s: &str) -> (r: Result<Symmetries, ()>)
        ensures
            r == match Symmetries::spec_of_name(s@) {
                Some(b) => Ok::<Symmetries, ()>(Symmetries(b)),
                None => Err::<Symmetries, ()>(()),
            },
    {
        if str_eq(s, "NONE") {
            Ok(Symmetries(0))
        } else if str_eq(s, "R000L") {
            Ok(Symmetries(0x01))
        } else if str_eq(s, "R090L") {
            Ok(Symmetries(0x02))
        } else if str_eq(s, "R180L") {
            Ok(Symmetries(0x04))
        } else if str_eq(s, "R270L") {
            Ok(Symmetries(0x08))
        } else if str_eq(s, "R000R") {
            Ok(Symmetries(0x10))
        } else if str_eq(s, "R090R") {
            Ok(Symmetries(0x20))
        } else if str_eq(s, "R180R") {
            Ok(Symmetries(0x40))
        } else if str_eq(s, "R270R") {
            Ok(Symmetries(0x80))
        } else if str_eq(s, "ALL") {
            Ok(Symmetries(0xff))
        } else {
            Err(())
        }
    }
}

/// Byte-for-byte equality of two string slices.
pub fn str_eq(a: &str, b: &str) -> (r: bool)
    ensures
        r == (a@ == b@),
{
    proof {
        vstd::utf8::encode_utf8_decode_utf8(a@);
        vstd::utf8::encode_utf8_decode_utf8(b@);
    }
    let ab = a.as_bytes();
    let bb = b.as_bytes();
    if ab.len() != bb.len() {
        return false;
    }
    let n = ab.len();
    let mut i: usize = 0;
    while i < n
        invariant
            n == ab@.len() == bb@.len(),
            i <= n,
            ab@ == a.spec_bytes(),
            bb@ == b.spec_bytes(),
            vstd::utf8::decode_utf8(a.spec_bytes()) == a@,
            vstd::utf8::decode_utf8(b.spec_bytes()) == b@,
            forall|j: int| 0 <= j < i ==> ab@[j] == bb@[j],
        decreases n - i,
    {
        if ab[i] != bb[i] {
            proof {
                assert(a.spec_bytes() != b.spec_bytes());
            }
            return false;
        }
        i += 1;
    }
    proof {
        assert(a.spec_bytes() =~= b.spec_bytes());
    }
    true
}

/// Checks that a byte sequence is well-formed UTF-8, scalar by scalar.
pub fn utf8_ck(v: &[u8]) -> (r: bool)
    ensures
        r == vstd::utf8::valid_utf8(v@),
{
    let n = v.len();
    proof {
        assert(v@.subrange(0, n as int) =~= v@);
    }
    let mut p: usize = 0;
    while p < n
        invariant
            p <= n,
            n == v@.len(),
            vstd::utf8::valid_utf8(v@) == vstd::utf8::valid_utf8(v@.subrange(p as int, n as int)),
        decreases n - p,
    {
        let ghost suf = v@.subrange(p as int, n as int);
        let b0 = v[p];
        proof {
            assert(suf[0] == b0);
            assert(suf.len() == n - p);
        }
        if b0 <= 0x7f {
            proof {
                assert(vstd::utf8::valid_first_scalar(suf));
                assert(vstd::utf8::length_of_first_scalar(suf) == 1);
                assert(vstd::utf8::pop_first_scalar(suf) =~= v@.subrange(p + 1, n as int));
            }
            p = p + 1;
        } else if 0xc0 <= b0 && b0 <= 0xdf {
            if n - p < 2 {
                proof {
                    assert(!vstd::utf8::valid_first_scalar(suf));
                }
                return false;
            }
            let b1 = v[p + 1];
            proof {
                assert(suf[1] == b1);
            }
            if !(0x80 <= b1 && b1 <= 0xbf) {
                proof {
                    assert(!vstd::utf8::valid_first_scalar(suf));
                }
                return false;
            }
            let cp: u32 = (((b0 & 0x1f) as u32) << 6u32) | ((b1 & 0x3f) as u32);
            proof {
                assert(cp == vstd::utf8::decode_first_codepoint(suf));
                assert(cp <= 0x7ff) by (bit_vector)
                    requires
                        cp == (((b0 & 0x1f) as u32) << 6u32) | ((b1 & 0x3f) as u32),
                ;
            }
            if cp < 0x80 {
                proof {
                    assert(!vstd::utf8::valid_first_scalar(suf));
                }
                return false;
            }
            proof {
                assert(vstd::utf8::valid_first_scalar(suf));
                assert(vstd::utf8::length_of_first_scalar(suf) == 2);
                assert(vstd::utf8::pop_first_scalar(suf) =~= v@.subrange(p + 2, n as int));
            }
            p = p + 2;
        } else if 0xe0 <= b0 && b0 <= 0xef {
            if n - p < 3 {
                proof {
                    assert(!vstd::utf8::valid_first_scalar(suf));
                }
                return false;
            }
            let b1 = v[p + 1];
            let b2 = v[p + 2];
            proof {
                assert(suf[1] == b1 && suf[2] == b2);
            }
            if !(0x80 <= b1 && b1 <= 0xbf) || !(0x80 <= b2 && b2 <= 0xbf) {
                proof {
                    assert(!vstd::utf8::valid_first_scalar(suf));
                }
                return false;
            }
            let cp: u32 = (((b0 & 0x0f) as u32) << 12u32) | (((b1 & 0x3f) as u32) << 6u32) | ((b2
                & 0x3f) as u32);
            proof {
                assert(cp == vstd::utf8::decode_first_codepoint(suf));
                assert(cp <= 0xffff) by (bit_vector)
                    requires
                        cp == (((b0 & 0x0f) as u32) << 12u32) | (((b1 & 0x3f) as u32) << 6u32) | ((
                        b2 & 0x3f) as u32),
                ;
            }
            if cp < 0x800 || (0xd800 <= cp && cp <= 0xdfff) {
                proof {
                    assert(!vstd::utf8::valid_first_scalar(suf));
                }
                return false;
            }
            proof {
                assert(vstd::utf8::valid_first_scalar(suf));
                assert(vstd::utf8::length_of_first_scalar(suf) == 3);
                assert(vstd::utf8::pop_first_scalar(suf) =~= v@.subrange(p + 3, n as int));
            }
            p = p + 3;
        } else if 0xf0 <= b0 && b0 <= 0xf7 {
            if n - p < 4 {
                proof {
                    assert(!vstd::utf8::valid_first_scalar(suf));
                }
                return false;
            }
            let b1 = v[p + 1];
            let b2 = v[p + 2];
            let b3 = v[p + 3];
            proof {
                assert(suf[1] == b1 && suf[2] == b2 && suf[3] == b3);
            }
            if !(0x80 <= b1 && b1 <= 0xbf) || !(0x80 <= b2 && b2 <= 0xbf) || !(0x80 <= b3 && b3
                <= 0xbf) {
                proof {
                    assert(!vstd::utf8::valid_first_scalar(suf));
                }
                return false;
            }
            let cp: u32 = (((b0 & 0x07) as u32) << 18u32) | (((b1 & 0x3f) as u32) << 12u32) | (((b2
                & 0x3f) as u32) << 6u32) | ((b3 & 0x3f) as u32);
            proof {
                assert(cp == vstd::utf8::decode_first_codepoint(suf));
                assert(cp <= 0x1f_ffff) by (bit_vector)
                    requires
                        cp == (((b0 & 0x07) as u32) << 18u32) | (((b1 & 0x3f) as u32) << 12u32) | ((
                        (b2 & 0x3f) as u32) << 6u32) | ((b3 & 0x3f) as u32),
                ;
            }
            if cp < 0x10000 || cp > 0x10ffff {
                proof {
                    assert(!vstd::utf8::valid_first_scalar(suf));
                }
                return false;
            }
            proof {
                assert(vstd::utf8::valid_first_scalar(suf));
                assert(vstd::utf8::length_of_first_scalar(suf) == 4);
                assert(vstd::utf8::pop_first_scalar(suf) =~= v@.subrange(p + 4, n as int));
            }
            p = p + 4;
        } else {
            proof {
                assert(!vstd::utf8::valid_first_scalar(suf));
            }
            return false;
        }
    }
    proof {
        assert(v@.subrange(n as int, n as int) =~= Seq::<u8>::empty());
    }
    true
}

/// A site index paired with nothing else; kept as a value object.
#[derive(Copy, Clone, Debug, PartialEq, Eq, Structural)]
pub struct Register(pub usize);

/// A named bit field.
#[derive(Clone, Debug)]
pub struct Field {
    pub name: Vec<u8>,
    pub sel: FieldSelector,
}

/// A named value of some payload type.
#[derive(Clone, Debug)]
pub struct Parameter<T> {
    pub name: Vec<u8>,
    pub value: T,
}

} // verus!
