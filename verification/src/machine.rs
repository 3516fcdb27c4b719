//! The data layer of the early register-machine design: packed atoms,
//! operand descriptors and 64-bit instruction words, kept alongside the
//! stack machine for its callers.

use vstd::prelude::*;

verus! {

/// Signedness tag of the early constant representation.
#[derive(Copy, Clone, Debug, PartialEq, Eq, Structural)]
pub enum DataType {
    Unsigned,
    Signed,
}

/// The early operation set, one word per instruction.
#[derive(Copy, Clone, Debug, PartialEq, Eq, Structural)]
pub enum Op {
    Nop,
    Exit,
    Copy,
    Swap,
    Scan,
    Checksum,
    Add,
    Sub,
    Negate,
    Mod,
    Mul,
    Div,
    LessThan,
    LessThanEqual,
    Or,
    And,
    Xor,
    Equal,
    BitCount,
    BitScanForward,
    BitScanReverse,
    LShift,
    RShift,
    Jump,
    JumpRelativeOffset,
    JumpZero,
    JumpNonZero,
}

impl Op {
    /// What [`Op::from_u8`] returns: operations in declaration order.
    pub open spec fn spec_from_u8(x: u8) -> Option<Op> {
        if x == 0 {
            Some(Op::Nop)
        } else if x == 1 {
            Some(Op::Exit)
        } else if x == 2 {
            Some(Op::Copy)
        } else if x == 3 {
            Some(Op::Swap)
        } else if x == 4 {
            Some(Op::Scan)
        } else if x == 5 {
            Some(Op::Checksum)
        } else if x == 6 {
            Some(Op::Add)
        } else if x == 7 {
            Some(Op::Sub)
        } else if x == 8 {
            Some(Op::Negate)
        } else if x == 9 {
            Some(Op::Mod)
        } else if x == 10 {
            Some(Op::Mul)
        } else if x == 11 {
            Some(Op::Div)
        } else if x == 12 {
            Some(Op::LessThan)
        } else if x == 13 {
            Some(Op::LessThanEqual)
        } else if x == 14 {
            Some(Op::Or)
        } else if x == 15 {
            Some(Op::And)
        } else if x == 16 {
            Some(Op::Xor)
        } else if x == 17 {
            Some(Op::Equal)
        } else if x == 18 {
            Some(Op::BitCount)
        } else if x == 19 {
            Some(Op::BitScanForward)
        } else if x == 20 {
            Some(Op::BitScanReverse)
        } else if x == 21 {
            Some(Op::LShift)
        } else if x == 22 {
            Some(Op::RShift)
        } else if x == 23 {
            Some(Op::Jump)
        } else if x == 24 {
            Some(Op::JumpRelativeOffset)
        } else if x == 25 {
            Some(Op::JumpZero)
        } else if x == 26 {
            Some(Op::JumpNonZero)
        } else {
            None
        }
    }

    pub fn from_u8(x: u8) -> (r: Option<Op>)
        ensures
            r == Op::spec_from_u8(x),
    {
        match x {
            0 => Some(Op::Nop),
            1 => Some(Op::Exit),
            2 => Some(Op::Copy),
            3 => Some(Op::Swap),
            4 => Some(Op::Scan),
            5 => Some(Op::Checksum),
            6 => Some(Op::Add),
            7 => Some(Op::Sub),
            8 => Some(Op::Negate),
            9 => Some(Op::Mod),
            10 => Some(Op::Mul),
            11 => Some(Op::Div),
            12 => Some(Op::LessThan),
            13 => Some(Op::LessThanEqual),
            14 => Some(Op::Or),
            15 => Some(Op::And),
            16 => Some(Op::Xor),
            17 => Some(Op::Equal),
            18 => Some(Op::BitCount),
            19 => Some(Op::BitScanForward),
            20 => Some(Op::BitScanReverse),
            21 => Some(Op::LShift),
            22 => Some(Op::RShift),
            23 => Some(Op::Jump),
            24 => Some(Op::JumpRelativeOffset),
            25 => Some(Op::JumpZero),
            26 => Some(Op::JumpNonZero),
            _ => None,
        }
    }
}

/// One orientation, as the early design named them.
#[derive(Copy, Clone, Debug, PartialEq, Eq, Structural)]
pub enum Symmetries {
    NoneSym,
    R000L,
    R090L,
    R180L,
    R270L,
    R000R,
    R090R,
    R180R,
    R270R,
    All,
}

/// Where an operand's payload lives.
#[derive(Copy, Clone, Debug, PartialEq, Eq, Structural)]
pub enum ValueType {
    Inline,
    Heap,
    Register,
    Site,
}

impl ValueType {
    /// What [`ValueType::from_u8`] returns: kinds in declaration order.
    pub open spec fn spec_from_u8(x: u8) -> Option<ValueType> {
        if x == 0 {
            Some(ValueType::Inline)
        } else if x == 1 {
            Some(ValueType::Heap)
        } else if x == 2 {
            Some(ValueType::Register)
        } else if x == 3 {
            Some(ValueType::Site)
        } else {
            None
        }
    }

    pub fn from_u8(x: u8) -> (r: Option<ValueType>)
        ensures
            r == ValueType::spec_from_u8(x),
    {
        match x {
            0 => Some(ValueType::Inline),
            1 => Some(ValueType::Heap),
            2 => Some(ValueType::Register),
            3 => Some(ValueType::Site),
            _ => None,
        }
    }
}

/// A window site index of the early design.
#[derive(Copy, Clone, Debug, PartialEq, Eq, Structural)]
pub struct Site(pub u8);

impl Site {
    /// The site count bound.
    pub fn limit() -> (r: usize)
        ensures
            r == 41,
    {
        41
    }

    pub fn from_usize(x: usize) -> (r: Option<Site>)
        ensures
            r == (if x < 41 {
                Some(Site(x as u8))
            } else {
                None::<Site>
            }),
    {
        if x < 41 {
            Some(Site(x as u8))
        } else {
            None
        }
    }
}

/// A 96-bit atom packed into the low bits of one word.
#[derive(Copy, Clone, Debug, PartialEq, Eq, Structural)]
pub struct Atom(pub u128);

impl Atom {
    /// The 16-bit type id at bits 80..96 of the packed layout.
    pub fn get_type(self) -> (r: u16)
        ensures
            r == (self.0 >> 80u128) & 0xffff,
    {
        let x = self.0;
        proof {
            assert((x >> 80u128) & 0xffff < 0x1_0000) by (bit_vector);
        }
        ((x >> 80u128) & 0xffff) as u16
    }

    /// The 9-bit error-correction field at bits 71..80.
    pub fn get_ecc(self) -> (r: u16)
        ensures
            r == (self.0 >> 71u128) & 0x1ff,
    {
        let x = self.0;
        proof {
            assert((x >> 71u128) & 0x1ff < 0x1_0000) by (bit_vector);
        }
        ((x >> 71u128) & 0x1ff) as u16
    }

    /// The combined 25-bit type and error-correction header at bits
    /// 71..96.
    pub fn get_header(self) -> (r: u32)
        ensures
            r == (self.0 >> 71u128) & 0x1ff_ffff,
    {
        let x = self.0;
        proof {
            assert((x >> 71u128) & 0x1ff_ffff < 0x1_0000_0000) by (bit_vector);
        }
        ((x >> 71u128) & 0x1ff_ffff) as u32
    }

    /// The user state bits.
    pub fn get_state(self) -> (r: u128)
        ensures
            r == self.0 & 0xf_ffff_ffff_ffff_ffffu128,
    {
        self.0 & 0xf_ffff_ffff_ffff_ffffu128
    }
}

/// A tagged constant of the early design.
#[derive(Copy, Clone, Debug, PartialEq, Eq, Structural)]
pub struct Const {
    pub dtype: DataType,
    pub value: u128,
}

/// A 16-bit operand descriptor: a kind in the high bits and a payload
/// below it.
#[derive(Copy, Clone, Debug, PartialEq, Eq, Structural)]
pub struct Value(pub u16);

impl Value {
    /// The operand kind encoded in bits 12..14 of the descriptor.
    pub fn get_type(self) -> (r: Option<ValueType>)
        ensures
            r == ValueType::spec_from_u8(((self.0 & 0xc000) >> 12u16) as u8),
    {
        ValueType::from_u8(((self.0 & 0xc000) >> 12u16) as u8)
    }

    pub fn get_inline(self) -> (r: Option<u16>)
        ensures
            r == (if ValueType::spec_from_u8(((self.0 & 0xc000) >> 12u16) as u8) == Some(
                ValueType::Inline,
            ) {
                Some((self.0 & 0x7fff) as u16)
            } else {
                None::<u16>
            }),
    {
        match self.get_type() {
            Some(ValueType::Inline) => Some(self.0 & 0x7fff),
            _ => None,
        }
    }

    pub fn get_heap(self) -> (r: Option<usize>)
        ensures
            r == (if ValueType::spec_from_u8(((self.0 & 0xc000) >> 12u16) as u8) == Some(
                ValueType::Heap,
            ) {
                Some((self.0 & 0x7fff) as usize)
            } else {
                None::<usize>
            }),
    {
        match self.get_type() {
            Some(ValueType::Heap) => Some((self.0 & 0x7fff) as usize),
            _ => None,
        }
    }

    pub fn get_register(self) -> (r: Option<usize>)
        ensures
            r == (if ValueType::spec_from_u8(((self.0 & 0xc000) >> 12u16) as u8) == Some(
                ValueType::Register,
            ) {
                Some((self.0 & 0x7f00) as usize)
            } else {
                None::<usize>
            }),
    {
        match self.get_type() {
            Some(ValueType::Register) => Some((self.0 & 0x7f00) as usize),
            _ => None,
        }
    }

    pub fn get_site(self) -> (r: Option<usize>)
        ensures
            r == (if ValueType::spec_from_u8(((self.0 & 0xc000) >> 12u16) as u8) == Some(
                ValueType::Site,
            ) {
                Some((self.0 & 0x7f00) as usize)
            } else {
                None::<usize>
            }),
    {
        match self.get_type() {
            Some(ValueType::Site) => Some((self.0 & 0x7f00) as usize),
            _ => None,
        }
    }

    /// The field byte of a register or site operand, when nonzero.
    pub fn get_field(self) -> (r: Option<usize>)
        ensures
            r == ({
                let k = ValueType::spec_from_u8(((self.0 & 0xc000) >> 12u16) as u8);
                if (k == Some(ValueType::Register) || k == Some(ValueType::Site)) && (self.0
                    & 0xff) > 0 {
                    Some((self.0 & 0xff) as usize)
                } else {
                    None::<usize>
                }
            }),
    {
        let x: usize = match self.get_type() {
            Some(ValueType::Register) | Some(ValueType::Site) => (self.0 & 0xff) as usize,
            _ => {
                return None;
            },
        };
        if x > 0 {
            Some(x)
        } else {
            None
        }
    }
}

/// A 64-bit instruction word: an opcode byte and three operand
/// descriptors.
#[derive(Copy, Clone, Debug, PartialEq, Eq, Structural)]
pub struct Instruction {
    pub op: Option<Op>,
    pub dst: Value,
    pub lhs: Value,
    pub rhs: Value,
}

impl Instruction {
    pub fn from_u64(x: u64) -> (r: Instruction)
        ensures
            r.op == Op::spec_from_u8((((x & 0xff_0000_0000_0000u64) >> 48u64) % 0x100) as u8),
            r.dst == Value(((x & 0xffff_0000_0000u64) >> 32u64) as u16),
            r.lhs == Value(((x & 0xffff_0000u64) >> 16u64) as u16),
            r.rhs == Value((x & 0xffffu64) as u16),
    {
        proof {
            assert((x & 0xff_0000_0000_0000u64) >> 48u64 < 0x100 && (x & 0xffff_0000_0000u64)
                >> 32u64 < 0x1_0000 && (x & 0xffff_0000u64) >> 16u64 < 0x1_0000) by (bit_vector);
        }
        Instruction {
            op: Op::from_u8(((x & 0xff_0000_0000_0000u64) >> 48u64) as u8),
            dst: Value(((x & 0xffff_0000_0000u64) >> 32u64) as u16),
            lhs: Value(((x & 0xffff_0000u64) >> 16u16) as u16),
            rhs: Value((x & 0xffff) as u16),
        }
    }
}

/// A named bit field of an element.
#[derive(Copy, Clone, Debug, PartialEq, Eq, Structural)]
pub struct Field {
    pub dtype: DataType,
    pub length: u8,
    pub offset: u8,
}

/// A field under its source name.
#[derive(Clone, Debug)]
pub struct NamedField {
    pub name: Vec<u8>,
    pub field: Field,
}

/// A parameter constant under its source name.
#[derive(Clone, Debug)]
pub struct NamedParameter {
    pub name: Vec<u8>,
    pub value: u128,
}

/// An element's program: its instruction words in order.
#[derive(Clone, Debug)]
pub struct Program {
    pub code: Vec<Instruction>,
}

impl Program {
    pub fn new() -> (r: Program)
        ensures
            r.code@.len() == 0,
    {
        Program { code: Vec::new() }
    }
}

/// An element's display and layout properties.
#[derive(Clone, Debug)]
pub struct ElementProperties {
    pub name: Vec<u8>,
    pub symbol: Vec<u8>,
    pub desc: Vec<u8>,
    pub authors: Vec<Vec<u8>>,
    pub license: Vec<u8>,
    pub radius: usize,
    pub bg_color: Vec<u8>,
    pub fg_color: Vec<u8>,
    pub symmetries: Symmetries,
    pub fields: Vec<NamedField>,
    pub params: Vec<NamedParameter>,
}

/// A named program with its properties.
#[derive(Clone, Debug)]
pub struct Element {
    pub props: ElementProperties,
    pub program: Program,
}

/// The elements known to a tile, indexed by type id.
#[derive(Clone, Debug)]
pub struct Physics {
    pub elements: Vec<Element>,
}

impl Physics {
    pub fn get(&self, i: usize) -> (r: Option<&Element>)
        ensures
            r == (if i < self.elements@.len() {
                Some(&self.elements@[i as int])
            } else {
                None::<&Element>
            }),
    {
        if i < self.elements.len() {
            Some(&self.elements[i])
        } else {
            None
        }
    }
}

/// A rectangle of sites with its physics.
pub struct Tile {
    pub sites: Vec<Atom>,
    pub bounds: (u16, u16),
    pub physics: Physics,
}

impl Tile {
    pub fn new(sites: Vec<Atom>, bounds: (u16, u16), physics: Physics) -> (r: Tile)
        ensures
            r.sites@ == sites@,
            r.bounds == bounds,
            r.physics == physics,
    {
        Tile { sites, bounds, physics }
    }

    pub fn get(&self, i: usize) -> (r: Option<&Atom>)
        ensures
            r == (if i < self.sites@.len() {
                Some(&self.sites@[i as int])
            } else {
                None::<&Atom>
            }),
    {
        if i < self.sites.len() {
            Some(&self.sites[i])
        } else {
            None
        }
    }

    /// Writes one site; the early accessor handed a place out instead.
    pub fn get_mut(&mut self, i: usize, v: Atom) -> (r: bool)
        ensures
            r == (i < old(self).sites@.len()),
            final(self).sites@ == (if i < old(self).sites@.len() {
                old(self).sites@.update(i as int, v)
            } else {
                old(self).sites@
            }),
            final(self).bounds == old(self).bounds,
            final(self).physics == old(self).physics,
    {
        if i < self.sites.len() {
            self.sites.set(i, v);
            true
        } else {
            false
        }
    }
}

/// The event window of the early design: a tile with a chosen origin and
/// working radius.
pub struct EventWindow {
    pub tile: Tile,
    pub origin: usize,
    pub radius: usize,
}

impl EventWindow {
    pub fn new(tile: Tile, origin: usize, radius: usize) -> (r: EventWindow)
        ensures
            r.tile.sites@ == tile.sites@,
            r.tile.bounds == tile.bounds,
            r.origin == origin,
            r.radius == radius,
    {
        EventWindow { tile, origin, radius }
    }

    /// The tile cell a window site lands on, or nothing when the site
    /// falls off the tile or outside the window.
    pub open spec fn spec_site_cell(&self, i: int, delta: int) -> Option<int> {
        if 0 <= delta < 41 && self.tile.bounds.0 > 0 {
            let o = crate::mfm::offset_spec(delta);
            let x = (i % 0x10000) as int % (self.tile.bounds.0 as int) + o.0;
            let y = (i % 0x10000) as int / (self.tile.bounds.0 as int) + o.1;
            if 0 <= x < self.tile.bounds.0 && 0 <= y < self.tile.bounds.1 {
                Some(y * (self.tile.bounds.0 as int) + x)
            } else {
                None
            }
        } else {
            None
        }
    }

    /// Adds a window offset to a tile cell index, reporting a fall off
    /// the tile edge as nothing.
    pub fn add_sites_on_tile(&self, i: usize, delta: usize) -> (r: Option<usize>)
        requires
            self.tile.bounds.0 > 0,
        ensures
            (match self.spec_site_cell(i as int, delta as int) {
                Some(c) => r matches Some(u) && u == c,
                None => r is None,
            }),
    {
        let o = match crate::mfm::offsets_for(delta) {
            Some(o) => o,
            None => {
                return None;
            },
        };
        let w = self.tile.bounds.0 as i64;
        let h = self.tile.bounds.1 as i64;
        let iw = (i % 0x10000) as u16;
        let x = (iw % self.tile.bounds.0) as i64 + o.0 as i64;
        let y = (iw / self.tile.bounds.0) as i64 + o.1 as i64;
        if x < 0 || x >= w || y < 0 || y >= h {
            return None;
        }
        proof {
            assert(0 <= y * w + x < 0x1_0000_0000) by (nonlinear_arith)
                requires
                    0 <= y < h,
                    0 < w <= 0xffff,
                    h <= 0xffff,
                    0 <= x < w,
            ;
        }
        Some((y * w + x) as usize)
    }

    /// The atom value a window site holds, when it lies on the tile.
    pub open spec fn at_spec(&self, i: int) -> Option<Atom> {
        match self.spec_site_cell(self.origin as int, i) {
            Some(c) => if c < self.tile.sites@.len() {
                Some(self.tile.sites@[c])
            } else {
                None
            },
            None => None,
        }
    }

    /// The atom a window site holds, when it lies on the tile.
    pub fn at(&self, i: usize) -> (r: Option<&Atom>)
        requires
            self.tile.bounds.0 > 0,
        ensures
            (r is Some) == (self.at_spec(i as int) is Some),
            r matches Some(a) ==> Some(*a) == self.at_spec(i as int),
    {
        match self.add_sites_on_tile(self.origin, i) {
            Some(c) => {
                proof {
                    assert(self.spec_site_cell(self.origin as int, i as int) matches Some(cc)
                        && cc == c as int);
                }
                self.tile.get(c)
            },
            None => {
                proof {
                    assert(self.spec_site_cell(self.origin as int, i as int) is None);
                }
                None
            },
        }
    }

    /// Writes the atom a window site holds; a site off the tile is left
    /// alone and reported false.
    pub fn at_mut(&mut self, i: usize, v: Atom) -> (r: bool)
        requires
            old(self).tile.bounds.0 > 0,
        ensures
            final(self).tile.bounds == old(self).tile.bounds,
            final(self).origin == old(self).origin,
            final(self).radius == old(self).radius,
            r == (old(self).at_spec(i as int) is Some),
            (match old(self).spec_site_cell(old(self).origin as int, i as int) {
                Some(c) => final(self).tile.sites@ == (if c < old(self).tile.sites@.len() {
                    old(self).tile.sites@.update(c, v)
                } else {
                    old(self).tile.sites@
                }),
                None => final(self).tile.sites@ == old(self).tile.sites@,
            }),
    {
        match self.add_sites_on_tile(self.origin, i) {
            Some(c) => self.tile.get_mut(c, v),
            None => false,
        }
    }
}

/// Relies on rand::random: a value drawn from the thread generator, of
/// which nothing is promised.
#[verifier::external_body]
fn random_u128() -> u128 {
    rand::random::<u128>()
}

/// The register index reserved for random draws.
pub fn random_register() -> (r: usize)
    ensures
        r == 15,
{
    15
}

/// The whole-atom mask of the early layout.
pub fn atom_mask() -> (r: u128)
    ensures
        r == 0xffff_ffff_ffff_ffff_ffff_ffffu128,
{
    0xffff_ffff_ffff_ffff_ffff_ffff
}

/// The register machine of the early design, driving one event window.
pub struct Runtime {
    pub ew: EventWindow,
    pub registers: [u128; 16],
    pub labels: Vec<usize>,
    pub heap: Vec<u128>,
    pub default_symmetries: Symmetries,
    pub current_symmetries: Symmetries,
    pub ip: usize,
}

/// The kind bits of an operand, as the early layout extracts them.
pub open spec fn spec_kind(v: Value) -> Option<ValueType> {
    ValueType::spec_from_u8(((v.0 & 0xc000) >> 12u16) as u8)
}

impl Runtime {
    pub fn new(ew: EventWindow) -> (r: Runtime)
        ensures
            r.ew.origin == ew.origin,
            r.registers@ == Seq::new(16, |i: int| 0u128),
            r.labels@.len() == 0,
            r.heap@.len() == 0,
            r.default_symmetries == Symmetries::R000L,
            r.current_symmetries == Symmetries::R000L,
            r.ip == 0,
    {
        let registers = [0u128; 16];
        proof {
            assert(registers@ =~= Seq::new(16, |i: int| 0u128));
        }
        Runtime {
            ew,
            registers,
            labels: Vec::new(),
            heap: Vec::new(),
            default_symmetries: Symmetries::R000L,
            current_symmetries: Symmetries::R000L,
            ip: 0,
        }
    }

    pub fn use_symmetries(&mut self, symmetries: Symmetries)
        ensures
            final(self).current_symmetries == symmetries,
            final(self).default_symmetries == old(self).default_symmetries,
    {
        self.current_symmetries = symmetries;
    }

    pub fn restore_symmetries(&mut self)
        ensures
            final(self).current_symmetries == old(self).default_symmetries,
            final(self).default_symmetries == old(self).default_symmetries,
    {
        self.current_symmetries = self.default_symmetries;
    }

    /// Reads an operand. Only inline operands carry a readable kind in
    /// the early descriptor layout; the random register draw stands
    /// behind the generator and promises nothing of its value.
    pub fn get_value_u128(&self, x: Value) -> (r: Result<u128, &'static str>)
        requires
            self.ew.tile.bounds.0 > 0,
        ensures
            spec_kind(x) == Some(ValueType::Inline) ==> r == Ok::<u128, &'static str>(
                (x.0 & 0x7fff) as u128,
            ),
            spec_kind(x) is None ==> r is Err,
    {
        match x.get_type() {
            Some(ValueType::Inline) => {
                match x.get_inline() {
                    Some(v) => Ok(v as u128),
                    None => Err("bad inline fetch"),
                }
            },
            Some(ValueType::Heap) => {
                match x.get_heap() {
                    Some(i) => {
                        if i < self.heap.len() {
                            Ok(self.heap[i])
                        } else {
                            Err("bad heap fetch")
                        }
                    },
                    None => Err("bad heap fetch"),
                }
            },
            Some(ValueType::Register) => {
                match x.get_register() {
                    Some(v) => {
                        if v == random_register() {
                            Ok(random_u128() & atom_mask())
                        } else if v < 16 {
                            Ok(self.registers[v])
                        } else {
                            Err("bad register")
                        }
                    },
                    None => Err("bad register"),
                }
            },
            Some(ValueType::Site) => {
                match x.get_site() {
                    Some(v) => {
                        if v < 41 {
                            match self.ew.at(v) {
                                Some(a) => Ok(a.0),
                                None => Err("bad site"),
                            }
                        } else {
                            Err("bad site")
                        }
                    },
                    None => Err("bad site"),
                }
            },
            None => Err("bad value type"),
        }
    }

    /// Writes an operand. Inline and heap destinations are immutable and
    /// in the early descriptor layout no other kind resolves, so every
    /// store reports an error.
    pub fn store_const(&mut self, dst: Value, c: u128) -> (r: Result<(), &'static str>)
        requires
            old(self).ew.tile.bounds.0 > 0,
        ensures
            r is Err,
            *final(self) == *old(self),
    {
        let _ = c;
        match dst.get_type() {
            Some(ValueType::Inline) => Err("inline value is immutable"),
            Some(ValueType::Heap) => Err("heap is immutable"),
            Some(ValueType::Register) => Err("bad register"),
            Some(ValueType::Site) => Err("bad site"),
            None => Err("bad destination type"),
        }
    }
}

impl Runtime {
    /// Copies a value between operands; no writable operand kind resolves
    /// in the early layout, so the store reports an error.
    pub fn copy(&mut self, dst: Value, src: Value) -> (r: Result<(), &'static str>)
        requires
            old(self).ew.tile.bounds.0 > 0,
            old(self).heap@.len() <= 0x8000,
        ensures
            r is Err,
            *final(self) == *old(self),
    {
        let c = match self.get_value_u128(src) {
            Ok(c) => c,
            Err(e) => {
                return Err(e);
            },
        };
        self.store_const(dst, c)
    }

    /// Swaps two operands; as with every store, the early layout refuses.
    pub fn swap(&mut self, dst: Value, src: Value) -> (r: Result<(), &'static str>)
        requires
            old(self).ew.tile.bounds.0 > 0,
        ensures
            r is Err,
            *final(self) == *old(self),
    {
        let t = match self.get_value_u128(dst) {
            Ok(t) => t,
            Err(e) => {
                return Err(e);
            },
        };
        let y = match self.get_value_u128(src) {
            Ok(y) => y,
            Err(e) => {
                return Err(e);
            },
        };
        match self.store_const(dst, y) {
            Ok(_) => self.store_const(src, t),
            Err(e) => Err(e),
        }
    }

    /// The reserved scan operation.
    pub fn scan(&mut self, dst: Value, src: Value) -> (r: Result<(), &'static str>)
        ensures
            r is Err,
            *final(self) == *old(self),
    {
        let _ = dst;
        let _ = src;
        Err("not implemented")
    }

    /// The reserved checksum operation.
    pub fn checksum(&mut self, dst: Value, src: Value) -> (r: Result<(), &'static str>)
        ensures
            r is Err,
            *final(self) == *old(self),
    {
        let _ = dst;
        let _ = src;
        Err("not implemented")
    }

    /// Reads both operands and stores their combination; the store always
    /// refuses in the early layout.
    fn binary_op(&mut self, dst: Value, lhs: Value, rhs: Value, which: Op) -> (r: Result<
        (),
        &'static str,
    >)
        requires
            old(self).ew.tile.bounds.0 > 0,
        ensures
            r is Err,
            *final(self) == *old(self),
    {
        let x = match self.get_value_u128(lhs) {
            Ok(x) => x,
            Err(e) => {
                return Err(e);
            },
        };
        let y = match self.get_value_u128(rhs) {
            Ok(y) => y,
            Err(e) => {
                return Err(e);
            },
        };
        let v: u128 = match which {
            Op::Add => x.wrapping_add(y),
            Op::Sub => x.wrapping_sub(y),
            Op::Mod => if y == 0 {
                return Err("division by zero");
            } else {
                x % y
            },
            Op::Mul => x.wrapping_mul(y),
            Op::Div => if y == 0 {
                return Err("division by zero");
            } else {
                x / y
            },
            Op::LessThan => if x < y {
                1
            } else {
                0
            },
            Op::LessThanEqual => if x <= y {
                1
            } else {
                0
            },
            Op::Or => x | y,
            Op::And => x & y,
            Op::Xor => x ^ y,
            Op::Equal => if x == y {
                1
            } else {
                0
            },
            Op::LShift => if y >= 128 {
                0
            } else {
                x >> (y as u8)
            },
            Op::RShift => if y >= 128 {
                0
            } else {
                x << (y as u8)
            },
            _ => 0,
        };
        self.store_const(dst, v)
    }

    pub fn add(&mut self, dst: Value, lhs: Value, rhs: Value) -> (r: Result<(), &'static str>)
        requires
            old(self).ew.tile.bounds.0 > 0,
        ensures
            r is Err,
            *final(self) == *old(self),
    {
        self.binary_op(dst, lhs, rhs, Op::Add)
    }

    pub fn sub(&mut self, dst: Value, lhs: Value, rhs: Value) -> (r: Result<(), &'static str>)
        requires
            old(self).ew.tile.bounds.0 > 0,
        ensures
            r is Err,
            *final(self) == *old(self),
    {
        self.binary_op(dst, lhs, rhs, Op::Sub)
    }

    pub fn negate(&mut self, dst: Value, src: Value) -> (r: Result<(), &'static str>)
        requires
            old(self).ew.tile.bounds.0 > 0,
        ensures
            r is Err,
            *final(self) == *old(self),
    {
        let x = match self.get_value_u128(src) {
            Ok(x) => x,
            Err(e) => {
                return Err(e);
            },
        };
        self.store_const(dst, 0u128.wrapping_sub(x))
    }

    pub fn modulo(&mut self, dst: Value, lhs: Value, rhs: Value) -> (r: Result<(), &'static str>)
        requires
            old(self).ew.tile.bounds.0 > 0,
        ensures
            r is Err,
            *final(self) == *old(self),
    {
        self.binary_op(dst, lhs, rhs, Op::Mod)
    }

    pub fn mul(&mut self, dst: Value, lhs: Value, rhs: Value) -> (r: Result<(), &'static str>)
        requires
            old(self).ew.tile.bounds.0 > 0,
        ensures
            r is Err,
            *final(self) == *old(self),
    {
        self.binary_op(dst, lhs, rhs, Op::Mul)
    }

    pub fn div(&mut self, dst: Value, lhs: Value, rhs: Value) -> (r: Result<(), &'static str>)
        requires
            old(self).ew.tile.bounds.0 > 0,
        ensures
            r is Err,
            *final(self) == *old(self),
    {
        self.binary_op(dst, lhs, rhs, Op::Div)
    }

    pub fn less_than(&mut self, dst: Value, lhs: Value, rhs: Value) -> (r: Result<
        (),
        &'static str,
    >)
        requires
            old(self).ew.tile.bounds.0 > 0,
        ensures
            r is Err,
            *final(self) == *old(self),
    {
        self.binary_op(dst, lhs, rhs, Op::LessThan)
    }

    pub fn less_than_equal(&mut self, dst: Value, lhs: Value, rhs: Value) -> (r: Result<
        (),
        &'static str,
    >)
        requires
            old(self).ew.tile.bounds.0 > 0,
        ensures
            r is Err,
            *final(self) == *old(self),
    {
        self.binary_op(dst, lhs, rhs, Op::LessThanEqual)
    }

    pub fn or(&mut self, dst: Value, lhs: Value, rhs: Value) -> (r: Result<(), &'static str>)
        requires
            old(self).ew.tile.bounds.0 > 0,
        ensures
            r is Err,
            *final(self) == *old(self),
    {
        self.binary_op(dst, lhs, rhs, Op::Or)
    }

    pub fn and(&mut self, dst: Value, lhs: Value, rhs: Value) -> (r: Result<(), &'static str>)
        requires
            old(self).ew.tile.bounds.0 > 0,
        ensures
            r is Err,
            *final(self) == *old(self),
    {
        self.binary_op(dst, lhs, rhs, Op::And)
    }

    pub fn xor(&mut self, dst: Value, lhs: Value, rhs: Value) -> (r: Result<(), &'static str>)
        requires
            old(self).ew.tile.bounds.0 > 0,
        ensures
            r is Err,
            *final(self) == *old(self),
    {
        self.binary_op(dst, lhs, rhs, Op::Xor)
    }

    pub fn equal(&mut self, dst: Value, lhs: Value, rhs: Value) -> (r: Result<(), &'static str>)
        requires
            old(self).ew.tile.bounds.0 > 0,
        ensures
            r is Err,
            *final(self) == *old(self),
    {
        self.binary_op(dst, lhs, rhs, Op::Equal)
    }

    pub fn bit_count(&mut self, dst: Value, src: Value) -> (r: Result<(), &'static str>)
        requires
            old(self).ew.tile.bounds.0 > 0,
        ensures
            r is Err,
            *final(self) == *old(self),
    {
        let x = match self.get_value_u128(src) {
            Ok(x) => x,
            Err(e) => {
                return Err(e);
            },
        };
        let c = crate::arith::Const::Unsigned(x).count_ones();
        self.store_const(dst, c as u128)
    }

    pub fn bit_scan_forward(&mut self, dst: Value, src: Value) -> (r: Result<(), &'static str>)
        requires
            old(self).ew.tile.bounds.0 > 0,
        ensures
            r is Err,
            *final(self) == *old(self),
    {
        let x = match self.get_value_u128(src) {
            Ok(x) => x,
            Err(e) => {
                return Err(e);
            },
        };
        let c = crate::arith::Const::Unsigned(x).bitscanforward();
        self.store_const(dst, c as u128)
    }

    pub fn bit_scan_reverse(&mut self, dst: Value, src: Value) -> (r: Result<(), &'static str>)
        requires
            old(self).ew.tile.bounds.0 > 0,
        ensures
            r is Err,
            *final(self) == *old(self),
    {
        let x = match self.get_value_u128(src) {
            Ok(x) => x,
            Err(e) => {
                return Err(e);
            },
        };
        let c = crate::arith::Const::Unsigned(x).bitscanreverse();
        self.store_const(dst, c as u128)
    }

    pub fn lshift(&mut self, dst: Value, lhs: Value, rhs: Value) -> (r: Result<(), &'static str>)
        requires
            old(self).ew.tile.bounds.0 > 0,
        ensures
            r is Err,
            *final(self) == *old(self),
    {
        self.binary_op(dst, lhs, rhs, Op::LShift)
    }

    pub fn rshift(&mut self, dst: Value, lhs: Value, rhs: Value) -> (r: Result<(), &'static str>)
        requires
            old(self).ew.tile.bounds.0 > 0,
        ensures
            r is Err,
            *final(self) == *old(self),
    {
        self.binary_op(dst, lhs, rhs, Op::RShift)
    }

    /// The sketched jump operations.
    pub fn jump(&mut self, label: Value) -> (r: Result<(), &'static str>)
        ensures
            r is Err,
            *final(self) == *old(self),
    {
        let _ = label;
        Err("not implemented")
    }

    pub fn jump_relative_offset(&mut self, dst: Value, lhs: Value) -> (r: Result<
        (),
        &'static str,
    >)
        ensures
            r is Err,
            *final(self) == *old(self),
    {
        let _ = dst;
        let _ = lhs;
        Err("not implemented")
    }

    pub fn jump_zero(&mut self, label: Value, src: Value) -> (r: Result<(), &'static str>)
        ensures
            r is Err,
            *final(self) == *old(self),
    {
        let _ = label;
        let _ = src;
        Err("not implemented")
    }

    pub fn jump_non_zero(&mut self, label: Value, src: Value) -> (r: Result<(), &'static str>)
        ensures
            r is Err,
            *final(self) == *old(self),
    {
        let _ = label;
        let _ = src;
        Err("not implemented")
    }

    /// The type id of an atom, as [`Atom::get_type`] reads it.
    pub open spec fn spec_atom_type(a: Atom) -> int {
        ((a.0 >> 80u128) & 0xffff) as int
    }

    /// Runs one instruction of the element under the window center: a
    /// missing atom or an exhausted program is a quiet stop, an unknown
    /// element or opcode is an error, and any real operation advances the
    /// instruction pointer before reporting how its store fared.
    pub fn step(&mut self) -> (r: Result<(), &'static str>)
        requires
            old(self).ew.tile.bounds.0 > 0,
            old(self).ip < usize::MAX,
            old(self).heap@.len() <= 0x8000,
        ensures
            (match old(self).ew.at_spec(0) {
                None => r is Ok && *final(self) == *old(self),
                Some(a) => {
                    let t = Runtime::spec_atom_type(a);
                    if t >= old(self).ew.tile.physics.elements@.len() {
                        r is Err && *final(self) == *old(self)
                    } else if old(self).ip
                        >= old(self).ew.tile.physics.elements@[t].program.code@.len() {
                        r is Ok && *final(self) == *old(self)
                    } else {
                        &&& final(self).ip == old(self).ip + 1
                        &&& final(self).ew.tile.sites@ == old(self).ew.tile.sites@
                        &&& final(self).registers@ == old(self).registers@
                        &&& (match old(self).ew.tile.physics.elements@[t].program.code@[old(
                            self,
                        ).ip as int].op {
                            None => r is Err,
                            Some(Op::Nop) => r is Ok,
                            Some(Op::Exit) => r is Ok,
                            Some(_) => r is Err,
                        })
                    }
                },
            }),
    {
        let t: u16 = match self.ew.at(0) {
            Some(a) => a.get_type(),
            None => {
                return Ok(());
            },
        };
        if t as usize >= self.ew.tile.physics.elements.len() {
            return Err("bad atom");
        }
        if self.ip >= self.ew.tile.physics.elements[t as usize].program.code.len() {
            return Ok(());
        }
        let instr = self.ew.tile.physics.elements[t as usize].program.code[self.ip];
        self.ip = self.ip + 1;
        match instr.op {
            Some(Op::Nop) => Ok(()),
            Some(Op::Exit) => Ok(()),
            Some(Op::Copy) => self.copy(instr.dst, instr.lhs),
            Some(Op::Swap) => self.swap(instr.dst, instr.lhs),
            Some(Op::Scan) => self.scan(instr.dst, instr.lhs),
            Some(Op::Checksum) => self.checksum(instr.dst, instr.lhs),
            Some(Op::Add) => self.add(instr.dst, instr.lhs, instr.rhs),
            Some(Op::Sub) => self.sub(instr.dst, instr.lhs, instr.rhs),
            Some(Op::Negate) => self.negate(instr.dst, instr.lhs),
            Some(Op::Mod) => self.modulo(instr.dst, instr.lhs, instr.rhs),
            Some(Op::Mul) => self.mul(instr.dst, instr.lhs, instr.rhs),
            Some(Op::Div) => self.div(instr.dst, instr.lhs, instr.rhs),
            Some(Op::LessThan) => self.less_than(instr.dst, instr.lhs, instr.rhs),
            Some(Op::LessThanEqual) => self.less_than_equal(instr.dst, instr.lhs, instr.rhs),
            Some(Op::Or) => self.or(instr.dst, instr.lhs, instr.rhs),
            Some(Op::And) => self.and(instr.dst, instr.lhs, instr.rhs),
            Some(Op::Xor) => self.xor(instr.dst, instr.lhs, instr.rhs),
            Some(Op::Equal) => self.equal(instr.dst, instr.lhs, instr.rhs),
            Some(Op::BitCount) => self.bit_count(instr.dst, instr.lhs),
            Some(Op::BitScanForward) => self.bit_scan_forward(instr.dst, instr.lhs),
            Some(Op::BitScanReverse) => self.bit_scan_reverse(instr.dst, instr.lhs),
            Some(Op::LShift) => self.lshift(instr.dst, instr.lhs, instr.rhs),
            Some(Op::RShift) => self.rshift(instr.dst, instr.lhs, instr.rhs),
            Some(Op::Jump) => self.jump(instr.dst),
            Some(Op::JumpRelativeOffset) => self.jump_relative_offset(instr.dst, instr.lhs),
            Some(Op::JumpZero) => self.jump_zero(instr.dst, instr.lhs),
            Some(Op::JumpNonZero) => self.jump_non_zero(instr.dst, instr.lhs),
            None => Err("bad op"),
        }
    }
}

} // verus!
