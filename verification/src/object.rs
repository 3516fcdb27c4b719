//! The binary object format: the loaded form of one compiled element, the
//! byte encoding that the compiler writes, and the reader that checks and
//! inverts it. All multi-byte values are big-endian.

use crate::arith::Const;
use crate::base::FieldSelector;
use crate::base::Symmetries;
use crate::runtime::Error;
use vstd::prelude::*;

verus! {

/// The object format's magic number.
pub const MAGIC_NUMBER: u32 = 0x02030741;

/// The format version this crate reads and writes.
pub const MINOR_VERSION: u16 = 1;

pub const MAJOR_VERSION: u16 = 0;

/// One metadata record, as it stands on the wire.
#[derive(Clone, Debug)]
pub enum MetaRecord {
    Name(Vec<u8>),
    Symbol(Vec<u8>),
    Desc(Vec<u8>),
    Author(Vec<u8>),
    License(Vec<u8>),
    Radius(u8),
    BgColor(u32),
    FgColor(u32),
    Symmetries(Symmetries),
    Field(Vec<u8>, FieldSelector),
    Parameter(Vec<u8>, Const),
}

/// One instruction with its operands resolved, as it stands on the wire.
/// `PushSmall(n)` stands for the dedicated one-byte pushes of `0 ..= 40`.
#[derive(Clone, Debug)]
pub enum Instr {
    Nop,
    Exit,
    SwapSites,
    SetSite,
    SetField(FieldSelector),
    SetSiteField(FieldSelector),
    GetSite,
    GetField(FieldSelector),
    GetSiteField(FieldSelector),
    GetSignedField(FieldSelector),
    GetSignedSiteField(FieldSelector),
    GetType(u16),
    GetParameter(Const),
    Scan,
    SaveSymmetries,
    UseSymmetries(Symmetries),
    RestoreSymmetries,
    PushSmall(u8),
    Push(Const),
    Pop,
    Dup,
    Over,
    Swap,
    Rot,
    Call(u16),
    Ret,
    Checksum,
    Add,
    Sub,
    Neg,
    Mod,
    Mul,
    Div,
    Less,
    LessEqual,
    Or,
    And,
    Xor,
    Equal,
    BitCount,
    BitScanForward,
    BitScanReverse,
    LShift,
    RShift,
    Jump(u16),
    JumpRelativeOffset,
    JumpZero(u16),
    JumpNonZero(u16),
    SetPaint,
    GetPaint,
    Rand,
}

/// One compiled element: everything between the magic number and the end
/// of the instruction stream.
#[derive(Clone, Debug)]
pub struct ObjectFile {
    pub build_tag: Vec<u8>,
    pub type_num: u16,
    pub header: Vec<MetaRecord>,
    pub code_index_count: u16,
    pub code: Vec<Instr>,
}

/// A string the wire can carry: its length fits the one-byte prefix.
pub open spec fn wf_str(s: Seq<u8>) -> bool {
    s.len() <= 255
}

/// A constant in the canonical form the 96-bit wire field can carry:
/// unsigned values below `2^96`, signed values within `+/- 2^95`.
pub open spec fn const_fits96(c: Const) -> bool {
    match c {
        Const::Unsigned(x) => x < 0x1_0000_0000_0000_0000_0000_0000,
        Const::Signed(v) => -0x8000_0000_0000_0000_0000_0000 <= v
            < 0x8000_0000_0000_0000_0000_0000,
    }
}

impl MetaRecord {
    pub open spec fn wf(&self) -> bool {
        match self {
            MetaRecord::Name(s) => wf_str(s@),
            MetaRecord::Symbol(s) => wf_str(s@),
            MetaRecord::Desc(s) => wf_str(s@),
            MetaRecord::Author(s) => wf_str(s@),
            MetaRecord::License(s) => wf_str(s@),
            MetaRecord::Radius(_) => true,
            MetaRecord::BgColor(_) => true,
            MetaRecord::FgColor(_) => true,
            MetaRecord::Symmetries(_) => true,
            MetaRecord::Field(s, _) => wf_str(s@),
            MetaRecord::Parameter(s, c) => wf_str(s@) && const_fits96(*c),
        }
    }
}

impl Instr {
    pub open spec fn wf(&self) -> bool {
        match self {
            Instr::PushSmall(n) => n <= 40,
            Instr::Push(c) => const_fits96(*c),
            Instr::GetParameter(c) => const_fits96(*c),
            _ => true,
        }
    }
}

impl MetaRecord {
    /// The record's name bytes, when it carries any, are well-formed
    /// UTF-8.
    pub open spec fn utf8_ok(&self) -> bool {
        match self {
            MetaRecord::Name(s) => vstd::utf8::valid_utf8(s@),
            MetaRecord::Symbol(s) => vstd::utf8::valid_utf8(s@),
            MetaRecord::Desc(s) => vstd::utf8::valid_utf8(s@),
            MetaRecord::Author(s) => vstd::utf8::valid_utf8(s@),
            MetaRecord::License(s) => vstd::utf8::valid_utf8(s@),
            MetaRecord::Field(s, _) => vstd::utf8::valid_utf8(s@),
            MetaRecord::Parameter(s, _) => vstd::utf8::valid_utf8(s@),
            _ => true,
        }
    }
}

impl ObjectFile {
    /// The build tag and every record name are well-formed UTF-8.
    pub open spec fn utf8_ok(&self) -> bool {
        &&& vstd::utf8::valid_utf8(self.build_tag@)
        &&& forall|i: int| 0 <= i < self.header@.len() ==> (#[trigger] self.header@[i]).utf8_ok()
    }

    pub open spec fn wf(&self) -> bool {
        &&& wf_str(self.build_tag@)
        &&& self.header@.len() <= 255
        &&& forall|i: int| 0 <= i < self.header@.len() ==> (#[trigger] self.header@[i]).wf()
        &&& self.code@.len() <= 65535
        &&& forall|i: int| 0 <= i < self.code@.len() ==> (#[trigger] self.code@[i]).wf()
    }
}

/// Big-endian bytes of a 16-bit value.
pub open spec fn be16(x: u16) -> Seq<u8> {
    seq![(x / 0x100) as u8, (x % 0x100) as u8]
}

/// Big-endian bytes of a 32-bit value.
pub open spec fn be32(x: u32) -> Seq<u8> {
    seq![
        (x / 0x100_0000) as u8,
        ((x / 0x1_0000) % 0x100) as u8,
        ((x / 0x100) % 0x100) as u8,
        (x % 0x100) as u8,
    ]
}

/// Big-endian bytes of a 64-bit value.
pub open spec fn be64(x: u64) -> Seq<u8> {
    seq![
        (x / 0x100_0000_0000_0000) as u8,
        ((x / 0x1_0000_0000_0000) % 0x100) as u8,
        ((x / 0x100_0000_0000) % 0x100) as u8,
        ((x / 0x1_0000_0000) % 0x100) as u8,
        ((x / 0x100_0000) % 0x100) as u8,
        ((x / 0x1_0000) % 0x100) as u8,
        ((x / 0x100) % 0x100) as u8,
        (x % 0x100) as u8,
    ]
}

/// A length-prefixed string: one length byte, then the bytes themselves.
pub open spec fn enc_str(s: Seq<u8>) -> Seq<u8> {
    seq![s.len() as u8] + s
}

/// A 96-bit constant: a sign byte (0 unsigned, 1 signed), then the high 32
/// and low 64 bits of the constant's representation, truncated to 96 bits.
pub open spec fn enc_const(c: Const) -> Seq<u8> {
    let b96 = c.bits() % 0x1_0000_0000_0000_0000_0000_0000;
    let tag: u8 = if c is Unsigned {
        0u8
    } else {
        1u8
    };
    seq![tag] + be32((b96 / 0x1_0000_0000_0000_0000) as u32) + be64(
        (b96 % 0x1_0000_0000_0000_0000) as u64,
    )
}

/// The wire form of a field selector: `offset | (length << 8)`, written
/// big-endian.
pub open spec fn enc_sel(f: FieldSelector) -> Seq<u8> {
    be16((f.offset + f.length * 0x100) as u16)
}

/// One metadata record: its one-byte code, then its payload.
pub open spec fn enc_meta(m: MetaRecord) -> Seq<u8> {
    match m {
        MetaRecord::Name(s) => seq![0u8] + enc_str(s@),
        MetaRecord::Symbol(s) => seq![1u8] + enc_str(s@),
        MetaRecord::Desc(s) => seq![2u8] + enc_str(s@),
        MetaRecord::Author(s) => seq![3u8] + enc_str(s@),
        MetaRecord::License(s) => seq![4u8] + enc_str(s@),
        MetaRecord::Radius(x) => seq![5u8, x],
        MetaRecord::BgColor(x) => seq![6u8] + be32(x),
        MetaRecord::FgColor(x) => seq![7u8] + be32(x),
        MetaRecord::Symmetries(s) => seq![8u8, s.0],
        MetaRecord::Field(s, f) => seq![9u8] + enc_str(s@) + enc_sel(f),
        MetaRecord::Parameter(s, c) => seq![10u8] + enc_str(s@) + enc_const(c),
    }
}

/// One instruction: its opcode byte, then its operands.
pub open spec fn enc_instr(i: Instr) -> Seq<u8> {
    match i {
        Instr::Nop => seq![0u8],
        Instr::Exit => seq![1u8],
        Instr::SwapSites => seq![2u8],
        Instr::SetSite => seq![3u8],
        Instr::SetField(f) => seq![4u8] + enc_sel(f),
        Instr::SetSiteField(f) => seq![5u8] + enc_sel(f),
        Instr::GetSite => seq![6u8],
        Instr::GetField(f) => seq![7u8] + enc_sel(f),
        Instr::GetSiteField(f) => seq![8u8] + enc_sel(f),
        Instr::GetSignedField(f) => seq![9u8] + enc_sel(f),
        Instr::GetSignedSiteField(f) => seq![10u8] + enc_sel(f),
        Instr::GetType(t) => seq![11u8] + be16(t),
        Instr::GetParameter(c) => seq![12u8] + enc_const(c),
        Instr::Scan => seq![13u8],
        Instr::SaveSymmetries => seq![14u8],
        Instr::UseSymmetries(s) => seq![15u8, s.0],
        Instr::RestoreSymmetries => seq![16u8],
        Instr::PushSmall(n) => seq![(17 + (n % 41)) as u8],
        Instr::Push(c) => seq![58u8] + enc_const(c),
        Instr::Pop => seq![59u8],
        Instr::Dup => seq![60u8],
        Instr::Over => seq![61u8],
        Instr::Swap => seq![62u8],
        Instr::Rot => seq![63u8],
        Instr::Call(t) => seq![64u8] + be16(t),
        Instr::Ret => seq![65u8],
        Instr::Checksum => seq![66u8],
        Instr::Add => seq![67u8],
        Instr::Sub => seq![68u8],
        Instr::Neg => seq![69u8],
        Instr::Mod => seq![70u8],
        Instr::Mul => seq![71u8],
        Instr::Div => seq![72u8],
        Instr::Less => seq![73u8],
        Instr::LessEqual => seq![74u8],
        Instr::Or => seq![75u8],
        Instr::And => seq![76u8],
        Instr::Xor => seq![77u8],
        Instr::Equal => seq![78u8],
        Instr::BitCount => seq![79u8],
        Instr::BitScanForward => seq![80u8],
        Instr::BitScanReverse => seq![81u8],
        Instr::LShift => seq![82u8],
        Instr::RShift => seq![83u8],
        Instr::Jump(t) => seq![84u8] + be16(t),
        Instr::JumpRelativeOffset => seq![85u8],
        Instr::JumpZero(t) => seq![86u8] + be16(t),
        Instr::JumpNonZero(t) => seq![87u8] + be16(t),
        Instr::SetPaint => seq![88u8],
        Instr::GetPaint => seq![89u8],
        Instr::Rand => seq![90u8],
    }
}

/// The concatenated records of a header.
pub open spec fn enc_metas(h: Seq<MetaRecord>) -> Seq<u8>
    decreases h.len(),
{
    if h.len() == 0 {
        Seq::empty()
    } else {
        enc_metas(h.drop_last()) + enc_meta(h.last())
    }
}

/// The concatenated instructions of a code vector.
pub open spec fn enc_instrs(c: Seq<Instr>) -> Seq<u8>
    decreases c.len(),
{
    if c.len() == 0 {
        Seq::empty()
    } else {
        enc_instrs(c.drop_last()) + enc_instr(c.last())
    }
}

/// The full byte image of one object file.
pub open spec fn enc_object(o: &ObjectFile) -> Seq<u8> {
    be32(MAGIC_NUMBER) + be16(MINOR_VERSION) + be16(MAJOR_VERSION) + enc_str(o.build_tag@) + be16(
        o.type_num,
    ) + seq![o.header@.len() as u8] + enc_metas(o.header@) + be16(o.code_index_count) + be16(
        o.code@.len() as u16,
    ) + enc_instrs(o.code@)
}

fn push_u16(v: &mut Vec<u8>, x: u16)
    ensures
        final(v)@ == old(v)@ + be16(x),
{
    v.push((x / 0x100) as u8);
    v.push((x % 0x100) as u8);
    proof {
        assert(final(v)@ =~= old(v)@ + be16(x));
    }
}

fn push_u32(v: &mut Vec<u8>, x: u32)
    ensures
        final(v)@ == old(v)@ + be32(x),
{
    v.push((x / 0x100_0000) as u8);
    v.push(((x / 0x1_0000) % 0x100) as u8);
    v.push(((x / 0x100) % 0x100) as u8);
    v.push((x % 0x100) as u8);
    proof {
        assert(final(v)@ =~= old(v)@ + be32(x));
    }
}

fn push_u64(v: &mut Vec<u8>, x: u64)
    ensures
        final(v)@ == old(v)@ + be64(x),
{
    v.push((x / 0x100_0000_0000_0000) as u8);
    v.push(((x / 0x1_0000_0000_0000) % 0x100) as u8);
    v.push(((x / 0x100_0000_0000) % 0x100) as u8);
    v.push(((x / 0x1_0000_0000) % 0x100) as u8);
    v.push(((x / 0x100_0000) % 0x100) as u8);
    v.push(((x / 0x1_0000) % 0x100) as u8);
    v.push(((x / 0x100) % 0x100) as u8);
    v.push((x % 0x100) as u8);
    proof {
        assert(final(v)@ =~= old(v)@ + be64(x));
    }
}

fn push_str(v: &mut Vec<u8>, s: &Vec<u8>)
    requires
        wf_str(s@),
    ensures
        final(v)@ == old(v)@ + enc_str(s@),
{
    v.push(s.len() as u8);
    let n = s.len();
    let mut i: usize = 0;
    while i < n
        invariant
            n == s@.len(),
            i <= n,
            v@ == old(v)@ + seq![s@.len() as u8] + s@.take(i as int),
        decreases n - i,
    {
        v.push(s[i]);
        proof {
            assert(old(v)@ + seq![s@.len() as u8] + s@.take(i as int) + seq![s@[i as int]] =~= old(
                v,
            )@ + seq![s@.len() as u8] + s@.take(i + 1));
        }
        i += 1;
    }
    proof {
        assert(s@.take(n as int) =~= s@);
        assert(old(v)@ + seq![s@.len() as u8] + s@ =~= old(v)@ + enc_str(s@));
    }
}

fn push_const(v: &mut Vec<u8>, c: &Const)
    ensures
        final(v)@ == old(v)@ + enc_const(*c),
{
    let tag: u8 = match c {
        Const::Unsigned(_) => 0,
        Const::Signed(_) => 1,
    };
    let b96 = c.as_u128_bits() % 0x1_0000_0000_0000_0000_0000_0000;
    v.push(tag);
    push_u32(v, (b96 / 0x1_0000_0000_0000_0000) as u32);
    push_u64(v, (b96 % 0x1_0000_0000_0000_0000) as u64);
    proof {
        assert(final(v)@ =~= old(v)@ + enc_const(*c));
    }
}

fn push_sel(v: &mut Vec<u8>, f: &FieldSelector)
    ensures
        final(v)@ == old(v)@ + enc_sel(*f),
{
    push_u16(v, f.as_u16());
}

fn push_meta(v: &mut Vec<u8>, m: &MetaRecord)
    requires
        m.wf(),
    ensures
        final(v)@ == old(v)@ + enc_meta(*m),
{
    match m {
        MetaRecord::Name(s) => {
            v.push(0);
            push_str(v, s);
        },
        MetaRecord::Symbol(s) => {
            v.push(1);
            push_str(v, s);
        },
        MetaRecord::Desc(s) => {
            v.push(2);
            push_str(v, s);
        },
        MetaRecord::Author(s) => {
            v.push(3);
            push_str(v, s);
        },
        MetaRecord::License(s) => {
            v.push(4);
            push_str(v, s);
        },
        MetaRecord::Radius(x) => {
            v.push(5);
            v.push(*x);
        },
        MetaRecord::BgColor(x) => {
            v.push(6);
            push_u32(v, *x);
        },
        MetaRecord::FgColor(x) => {
            v.push(7);
            push_u32(v, *x);
        },
        MetaRecord::Symmetries(s) => {
            v.push(8);
            v.push(s.0);
        },
        MetaRecord::Field(s, f) => {
            v.push(9);
            push_str(v, s);
            push_sel(v, f);
        },
        MetaRecord::Parameter(s, c) => {
            v.push(10);
            push_str(v, s);
            push_const(v, c);
        },
    }
    proof {
        assert(final(v)@ =~= old(v)@ + enc_meta(*m));
    }
}

fn push_instr(v: &mut Vec<u8>, i: &Instr)
    requires
        i.wf(),
    ensures
        final(v)@ == old(v)@ + enc_instr(*i),
{
    match i {
        Instr::Nop => v.push(0),
        Instr::Exit => v.push(1),
        Instr::SwapSites => v.push(2),
        Instr::SetSite => v.push(3),
        Instr::SetField(f) => {
            v.push(4);
            push_sel(v, f);
        },
        Instr::SetSiteField(f) => {
            v.push(5);
            push_sel(v, f);
        },
        Instr::GetSite => v.push(6),
        Instr::GetField(f) => {
            v.push(7);
            push_sel(v, f);
        },
        Instr::GetSiteField(f) => {
            v.push(8);
            push_sel(v, f);
        },
        Instr::GetSignedField(f) => {
            v.push(9);
            push_sel(v, f);
        },
        Instr::GetSignedSiteField(f) => {
            v.push(10);
            push_sel(v, f);
        },
        Instr::GetType(t) => {
            v.push(11);
            push_u16(v, *t);
        },
        Instr::GetParameter(c) => {
            v.push(12);
            push_const(v, c);
        },
        Instr::Scan => v.push(13),
        Instr::SaveSymmetries => v.push(14),
        Instr::UseSymmetries(s) => {
            v.push(15);
            v.push(s.0);
        },
        Instr::RestoreSymmetries => v.push(16),
        Instr::PushSmall(n) => v.push(17 + (n % 41)),
        Instr::Push(c) => {
            v.push(58);
            push_const(v, c);
        },
        Instr::Pop => v.push(59),
        Instr::Dup => v.push(60),
        Instr::Over => v.push(61),
        Instr::Swap => v.push(62),
        Instr::Rot => v.push(63),
        Instr::Call(t) => {
            v.push(64);
            push_u16(v, *t);
        },
        Instr::Ret => v.push(65),
        Instr::Checksum => v.push(66),
        Instr::Add => v.push(67),
        Instr::Sub => v.push(68),
        Instr::Neg => v.push(69),
        Instr::Mod => v.push(70),
        Instr::Mul => v.push(71),
        Instr::Div => v.push(72),
        Instr::Less => v.push(73),
        Instr::LessEqual => v.push(74),
        Instr::Or => v.push(75),
        Instr::And => v.push(76),
        Instr::Xor => v.push(77),
        Instr::Equal => v.push(78),
        Instr::BitCount => v.push(79),
        Instr::BitScanForward => v.push(80),
        Instr::BitScanReverse => v.push(81),
        Instr::LShift => v.push(82),
        Instr::RShift => v.push(83),
        Instr::Jump(t) => {
            v.push(84);
            push_u16(v, *t);
        },
        Instr::JumpRelativeOffset => v.push(85),
        Instr::JumpZero(t) => {
            v.push(86);
            push_u16(v, *t);
        },
        Instr::JumpNonZero(t) => {
            v.push(87);
            push_u16(v, *t);
        },
        Instr::SetPaint => v.push(88),
        Instr::GetPaint => v.push(89),
        Instr::Rand => v.push(90),
    }
    proof {
        assert(final(v)@ =~= old(v)@ + enc_instr(*i));
    }
}

impl ObjectFile {
    /// The canonical byte image of this object.
    pub fn emit(&self) -> (r: Vec<u8>)
        requires
            self.wf(),
        ensures
            r@ == enc_object(self),
    {
        let mut v: Vec<u8> = Vec::new();
        push_u32(&mut v, MAGIC_NUMBER);
        push_u16(&mut v, MINOR_VERSION);
        push_u16(&mut v, MAJOR_VERSION);
        push_str(&mut v, &self.build_tag);
        push_u16(&mut v, self.type_num);
        v.push(self.header.len() as u8);
        let ghost prefix = v@;
        let hn = self.header.len();
        let mut i: usize = 0;
        while i < hn
            invariant
                hn == self.header@.len(),
                i <= hn,
                forall|j: int| 0 <= j < hn ==> (#[trigger] self.header@[j]).wf(),
                v@ == prefix + enc_metas(self.header@.take(i as int)),
            decreases hn - i,
        {
            push_meta(&mut v, &self.header[i]);
            proof {
                assert(self.header@.take(i + 1).drop_last() =~= self.header@.take(i as int));
                assert(self.header@.take(i + 1).last() == self.header@[i as int]);
                assert(prefix + enc_metas(self.header@.take(i as int)) + enc_meta(
                    self.header@[i as int],
                ) =~= prefix + enc_metas(self.header@.take(i + 1)));
            }
            i += 1;
        }
        proof {
            assert(self.header@.take(hn as int) =~= self.header@);
        }
        push_u16(&mut v, self.code_index_count);
        push_u16(&mut v, self.code.len() as u16);
        let ghost prefix2 = v@;
        let cn = self.code.len();
        let mut i: usize = 0;
        while i < cn
            invariant
                cn == self.code@.len(),
                i <= cn,
                forall|j: int| 0 <= j < cn ==> (#[trigger] self.code@[j]).wf(),
                v@ == prefix2 + enc_instrs(self.code@.take(i as int)),
            decreases cn - i,
        {
            push_instr(&mut v, &self.code[i]);
            proof {
                assert(self.code@.take(i + 1).drop_last() =~= self.code@.take(i as int));
                assert(self.code@.take(i + 1).last() == self.code@[i as int]);
                assert(prefix2 + enc_instrs(self.code@.take(i as int)) + enc_instr(
                    self.code@[i as int],
                ) =~= prefix2 + enc_instrs(self.code@.take(i + 1)));
            }
            i += 1;
        }
        proof {
            assert(self.code@.take(cn as int) =~= self.code@);
            assert(v@ =~= enc_object(self));
        }
        v
    }
}

/// In a composition `x == h * (w * 0x100) + b * w + lo` with `lo < w`, the
/// base-256 digit of `x` at weight `w` is `b`.
proof fn lemma_digit(x: int, h: int, b: int, lo: int, w: int)
    requires
        x == h * (w * 0x100) + b * w + lo,
        0 <= lo < w,
        0 <= b < 0x100,
        0 <= h,
        w > 0,
    ensures
        (x / w) % 0x100 == b,
{
    assert(x / w == h * 0x100 + b) by (nonlinear_arith)
        requires
            x == h * (w * 0x100) + b * w + lo,
            0 <= lo < w,
            0 <= b,
            0 <= h,
            w > 0,
    ;
    assert((h * 0x100 + b) % 0x100 == b) by (nonlinear_arith)
        requires
            0 <= b < 0x100,
            0 <= h,
    ;
}

/// Recovers each byte of a 64-bit big-endian composition.
proof fn lemma_digits64(
    x: int,
    b0: int,
    b1: int,
    b2: int,
    b3: int,
    b4: int,
    b5: int,
    b6: int,
    b7: int,
)
    requires
        x == b0 * 0x100_0000_0000_0000 + b1 * 0x1_0000_0000_0000 + b2 * 0x100_0000_0000 + b3
            * 0x1_0000_0000 + b4 * 0x100_0000 + b5 * 0x1_0000 + b6 * 0x100 + b7,
        0 <= b0 < 0x100,
        0 <= b1 < 0x100,
        0 <= b2 < 0x100,
        0 <= b3 < 0x100,
        0 <= b4 < 0x100,
        0 <= b5 < 0x100,
        0 <= b6 < 0x100,
        0 <= b7 < 0x100,
    ensures
        x / 0x100_0000_0000_0000 == b0,
        (x / 0x1_0000_0000_0000) % 0x100 == b1,
        (x / 0x100_0000_0000) % 0x100 == b2,
        (x / 0x1_0000_0000) % 0x100 == b3,
        (x / 0x100_0000) % 0x100 == b4,
        (x / 0x1_0000) % 0x100 == b5,
        (x / 0x100) % 0x100 == b6,
        x % 0x100 == b7,
{
    lemma_digit(x, 0, b0, x - b0 * 0x100_0000_0000_0000, 0x100_0000_0000_0000);
    lemma_digit(x, b0, b1, x - b0 * 0x100_0000_0000_0000 - b1 * 0x1_0000_0000_0000, 0x1_0000_0000_0000);
    lemma_digit(
        x,
        b0 * 0x100 + b1,
        b2,
        b3 * 0x1_0000_0000 + b4 * 0x100_0000 + b5 * 0x1_0000 + b6 * 0x100 + b7,
        0x100_0000_0000,
    );
    lemma_digit(
        x,
        b0 * 0x1_0000 + b1 * 0x100 + b2,
        b3,
        b4 * 0x100_0000 + b5 * 0x1_0000 + b6 * 0x100 + b7,
        0x1_0000_0000,
    );
    lemma_digit(
        x,
        b0 * 0x100_0000 + b1 * 0x1_0000 + b2 * 0x100 + b3,
        b4,
        b5 * 0x1_0000 + b6 * 0x100 + b7,
        0x100_0000,
    );
    lemma_digit(
        x,
        b0 * 0x1_0000_0000 + b1 * 0x100_0000 + b2 * 0x1_0000 + b3 * 0x100 + b4,
        b5,
        b6 * 0x100 + b7,
        0x1_0000,
    );
    lemma_digit(
        x,
        b0 * 0x100_0000_0000 + b1 * 0x1_0000_0000 + b2 * 0x100_0000 + b3 * 0x1_0000 + b4 * 0x100
            + b5,
        b6,
        b7,
        0x100,
    );
    lemma_digit(
        x,
        b0 * 0x1_0000_0000_0000 + b1 * 0x100_0000_0000 + b2 * 0x100_0000_00 + b3 * 0x100_0000 + b4
            * 0x1_0000 + b5 * 0x100 + b6,
        b7,
        0,
        1,
    );
    assert(x % 0x100 == (x / 1) % 0x100);
}

/// The 16-bit value whose big-endian bytes stand at `p`.
pub open spec fn sp_u16(b: Seq<u8>, p: int) -> u16 {
    (b[p] * 0x100 + b[p + 1]) as u16
}

/// The 32-bit value whose big-endian bytes stand at `p`.
pub open spec fn sp_u32(b: Seq<u8>, p: int) -> u32 {
    (b[p] * 0x100_0000 + b[p + 1] * 0x1_0000 + b[p + 2] * 0x100 + b[p + 3]) as u32
}

fn rd_u8(b: &[u8], p: usize) -> (r: Option<(u8, usize)>)
    ensures
        match r {
            Some(t) => p < b@.len() && t.1 == p + 1 && t.0 == b@[p as int],
            None => p >= b@.len(),
        },
{
    if p < b.len() {
        Some((b[p], p + 1))
    } else {
        None
    }
}

fn rd_u16(b: &[u8], p: usize) -> (r: Option<(u16, usize)>)
    ensures
        match r {
            Some(t) => p + 2 <= b@.len() && t.1 == p + 2 && t.0 == sp_u16(b@, p as int) && be16(t.0)
                == b@.subrange(p as int, p + 2),
            None => p + 2 > b@.len(),
        },
{
    if p <= b.len() && b.len() - p >= 2 {
        let x = (b[p] as u16) * 0x100 + (b[p + 1] as u16);
        proof {
            assert(be16(x) =~= b@.subrange(p as int, p + 2));
        }
        Some((x, p + 2))
    } else {
        None
    }
}

fn rd_u32(b: &[u8], p: usize) -> (r: Option<(u32, usize)>)
    ensures
        match r {
            Some(t) => p + 4 <= b@.len() && t.1 == p + 4 && t.0 == sp_u32(b@, p as int) && be32(t.0)
                == b@.subrange(p as int, p + 4),
            None => p + 4 > b@.len(),
        },
{
    if p <= b.len() && b.len() - p >= 4 {
        let x = (b[p] as u32) * 0x100_0000 + (b[p + 1] as u32) * 0x1_0000 + (b[p + 2] as u32) * 0x100
            + (b[p + 3] as u32);
        proof {
            let b0 = b@[p as int] as int;
            let b1 = b@[p + 1] as int;
            let b2 = b@[p + 2] as int;
            let b3 = b@[p + 3] as int;
            assert(x / 0x100_0000 == b0 && (x / 0x1_0000) % 0x100 == b1 && (x / 0x100) % 0x100 == b2
                && x % 0x100 == b3) by (nonlinear_arith)
                requires
                    x == b0 * 0x100_0000 + b1 * 0x1_0000 + b2 * 0x100 + b3,
                    0 <= b0 < 0x100,
                    0 <= b1 < 0x100,
                    0 <= b2 < 0x100,
                    0 <= b3 < 0x100,
            ;
            assert(be32(x) =~= b@.subrange(p as int, p + 4));
        }
        Some((x, p + 4))
    } else {
        None
    }
}

fn rd_u64(b: &[u8], p: usize) -> (r: Option<(u64, usize)>)
    ensures
        match r {
            Some(t) => p + 8 <= b@.len() && t.1 == p + 8 && be64(t.0) == b@.subrange(p as int, p + 8),
            None => p + 8 > b@.len(),
        },
{
    if p <= b.len() && b.len() - p >= 8 {
        let x = (b[p] as u64) * 0x100_0000_0000_0000 + (b[p + 1] as u64) * 0x1_0000_0000_0000 + (b[p
            + 2] as u64) * 0x100_0000_0000 + (b[p + 3] as u64) * 0x1_0000_0000 + (b[p
            + 4] as u64) * 0x100_0000 + (b[p + 5] as u64) * 0x1_0000 + (b[p + 6] as u64) * 0x100 + (
        b[p + 7] as u64);
        proof {
            let b0 = b@[p as int] as int;
            let b1 = b@[p + 1] as int;
            let b2 = b@[p + 2] as int;
            let b3 = b@[p + 3] as int;
            let b4 = b@[p + 4] as int;
            let b5 = b@[p + 5] as int;
            let b6 = b@[p + 6] as int;
            let b7 = b@[p + 7] as int;
            lemma_digits64(x as int, b0, b1, b2, b3, b4, b5, b6, b7);
            assert(be64(x) =~= b@.subrange(p as int, p + 8));
        }
        Some((x, p + 8))
    } else {
        None
    }
}

fn rd_str(b: &[u8], p: usize) -> (r: Option<(Vec<u8>, usize)>)
    ensures
        match r {
            Some(t) => t.1 == p + 1 + t.0@.len() && t.1 <= b@.len() && wf_str(t.0@) && enc_str(t.0@)
                == b@.subrange(p as int, t.1 as int),
            None => p >= b@.len() || p + 1 + b@[p as int] > b@.len(),
        },
{
    match rd_u8(b, p) {
        None => None,
        Some((n, q)) => {
            if b.len() - q >= n as usize {
                let s = vstd::slice::slice_to_vec(vstd::slice::slice_subrange(
                    b,
                    q,
                    q + (n as usize),
                ));
                proof {
                    assert(enc_str(s@) =~= b@.subrange(p as int, q + n as int));
                }
                Some((s, q + (n as usize)))
            } else {
                None
            }
        },
    }
}

fn rd_const(b: &[u8], p: usize) -> (r: Result<(Const, usize), Error>)
    ensures
        match r {
            Ok(t) => t.1 == p + 13 && t.1 <= b@.len() && const_fits96(t.0) && enc_const(t.0)
                == b@.subrange(p as int, p + 13),
            Err(Error::BadConstantType(t)) => p < b@.len() && t == b@[p as int] && t != 0 && t != 1,
            Err(Error::IOError) => p >= b@.len() || (p < b@.len() && (b@[p as int] == 0
                || b@[p as int] == 1) && p + 13 > b@.len()),
            Err(_) => false,
        },
{
    let tag = match rd_u8(b, p) {
        Some(t) => t.0,
        None => {
            return Err(Error::IOError);
        },
    };
    if tag != 0 && tag != 1 {
        return Err(Error::BadConstantType(tag));
    }
    let hi = match rd_u32(b, p + 1) {
        Some(t) => t.0,
        None => {
            return Err(Error::IOError);
        },
    };
    let lo = match rd_u64(b, p + 5) {
        Some(t) => t.0,
        None => {
            return Err(Error::IOError);
        },
    };
    let b96: u128 = (hi as u128) * 0x1_0000_0000_0000_0000 + (lo as u128);
    proof {
        let h = hi as int;
        assert(h * 0x1_0000_0000_0000_0000 + lo < 0x1_0000_0000_0000_0000_0000_0000)
            by (nonlinear_arith)
            requires
                h < 0x1_0000_0000,
                lo <= 0xffff_ffff_ffff_ffff,
        ;
    }
    let c: Const = if tag == 0 {
        Const::Unsigned(b96)
    } else {
        if b96 >= 0x8000_0000_0000_0000_0000_0000 {
            Const::Signed(-((0x1_0000_0000_0000_0000_0000_0000u128 - b96) as i128))
        } else {
            Const::Signed(b96 as i128)
        }
    };
    proof {
        let bits96 = c.bits() % 0x1_0000_0000_0000_0000_0000_0000;
        if tag != 0 && b96 >= 0x8000_0000_0000_0000_0000_0000 {
            let v = (b96 - 0x1_0000_0000_0000_0000_0000_0000) as i128;
            assert(c == Const::Signed(v));
            assert(c.bits() == (v + 0x1_0000_0000_0000_0000_0000_0000_0000_0000) as u128);
            assert(c.bits() == 0x1_0000_0000_0000_0000_0000_0000 * 0xffff_ffff + b96);
            assert((0x1_0000_0000_0000_0000_0000_0000 * 0xffff_ffff + b96 as int) % 0x1_0000_0000_0000_0000_0000_0000
                == b96 as int % 0x1_0000_0000_0000_0000_0000_0000) by {
                vstd::arithmetic::div_mod::lemma_mod_multiples_vanish(
                    0xffff_ffff,
                    b96 as int,
                    0x1_0000_0000_0000_0000_0000_0000,
                );
            }
            assert(b96 as int % 0x1_0000_0000_0000_0000_0000_0000 == b96) by {
                vstd::arithmetic::div_mod::lemma_small_mod(
                    b96 as nat,
                    0x1_0000_0000_0000_0000_0000_0000,
                );
            }
        } else {
            assert(c.bits() == b96);
            assert(b96 as int % 0x1_0000_0000_0000_0000_0000_0000 == b96) by {
                vstd::arithmetic::div_mod::lemma_small_mod(
                    b96 as nat,
                    0x1_0000_0000_0000_0000_0000_0000,
                );
            }
        }
        assert(bits96 == b96);
        assert(b96 / 0x1_0000_0000_0000_0000 == hi && b96 % 0x1_0000_0000_0000_0000 == lo)
            by (nonlinear_arith)
            requires
                b96 == (hi as u128) * 0x1_0000_0000_0000_0000 + (lo as u128),
                lo <= 0xffff_ffff_ffff_ffff,
        ;
        assert(enc_const(c) =~= b@.subrange(p as int, p + 13));
    }
    Ok((c, p + 13))
}

fn rd_sel(b: &[u8], p: usize) -> (r: Option<(FieldSelector, usize)>)
    ensures
        match r {
            Some(t) => t.1 == p + 2 && t.1 <= b@.len() && enc_sel(t.0) == b@.subrange(p as int, p
                + 2),
            None => p + 2 > b@.len(),
        },
{
    match rd_u16(b, p) {
        Some((x, q)) => {
            let f = FieldSelector::from_u16(x);
            proof {
                assert(f.offset + f.length * 0x100 == x);
                assert(enc_sel(f) == be16(x));
            }
            Some((f, q))
        },
        None => None,
    }
}

/// A length-prefixed string fits at `p`.
pub open spec fn str_fits(b: Seq<u8>, p: int) -> bool {
    p < b.len() && p + 1 + b[p] <= b.len()
}

/// The bytes of the length-prefixed string at `p`.
pub open spec fn str_at(b: Seq<u8>, p: int) -> Seq<u8> {
    b.subrange(p + 1, p + 1 + b[p])
}

/// The position after the length-prefixed string at `p`.
pub open spec fn str_end(b: Seq<u8>, p: int) -> int {
    p + 1 + b[p]
}

/// What reading one metadata record at `p` comes to: the position after
/// it, or the exact error, following the same order of checks the reader
/// makes.
pub open spec fn meta_probe(b: Seq<u8>, p: int) -> Result<int, Error> {
    if p >= b.len() {
        Err(Error::IOError)
    } else {
        let code = b[p];
        if code > 10 {
            Err(Error::BadMetadataOpCode(code))
        } else if code == 5 || code == 8 {
            if p + 2 <= b.len() {
                Ok(p + 2)
            } else {
                Err(Error::IOError)
            }
        } else if code == 6 || code == 7 {
            if p + 5 <= b.len() {
                Ok(p + 5)
            } else {
                Err(Error::IOError)
            }
        } else {
            if !str_fits(b, p + 1) {
                Err(Error::IOError)
            } else if !vstd::utf8::valid_utf8(str_at(b, p + 1)) {
                Err(Error::FromUtf8Error)
            } else {
                let q = str_end(b, p + 1);
                if code <= 4 {
                    Ok(q)
                } else if code == 9 {
                    if q + 2 <= b.len() {
                        Ok(q + 2)
                    } else {
                        Err(Error::IOError)
                    }
                } else {
                    if q >= b.len() {
                        Err(Error::IOError)
                    } else if b[q] != 0 && b[q] != 1 {
                        Err(Error::BadConstantType(b[q]))
                    } else if q + 13 <= b.len() {
                        Ok(q + 13)
                    } else {
                        Err(Error::IOError)
                    }
                }
            }
        }
    }
}

/// What reading one instruction at `p` comes to: the position after it,
/// or the exact error.
pub open spec fn instr_probe(b: Seq<u8>, p: int) -> Result<int, Error> {
    if p >= b.len() {
        Err(Error::IOError)
    } else {
        let op = b[p];
        if op > 90 {
            Err(Error::BadInstructionOpCode(op))
        } else if op == 4 || op == 5 || op == 7 || op == 8 || op == 9 || op == 10 || op == 11 || op
            == 64 || op == 84 || op == 86 || op == 87 {
            if p + 3 <= b.len() {
                Ok(p + 3)
            } else {
                Err(Error::IOError)
            }
        } else if op == 12 || op == 58 {
            if p + 1 >= b.len() {
                Err(Error::IOError)
            } else if b[p + 1] != 0 && b[p + 1] != 1 {
                Err(Error::BadConstantType(b[p + 1]))
            } else if p + 14 <= b.len() {
                Ok(p + 14)
            } else {
                Err(Error::IOError)
            }
        } else if op == 15 {
            if p + 2 <= b.len() {
                Ok(p + 2)
            } else {
                Err(Error::IOError)
            }
        } else {
            Ok(p + 1)
        }
    }
}

fn rd_meta(b: &[u8], p: usize) -> (r: Result<(MetaRecord, usize), Error>)
    ensures
        match meta_probe(b@, p as int) {
            Ok(q) => r matches Ok(t) && p <= t.1 <= b@.len() && t.1 == q && t.0.wf()
                && t.0.utf8_ok() && enc_meta(t.0) == b@.subrange(p as int, t.1 as int),
            Err(e) => r == Err::<(MetaRecord, usize), Error>(e),
        },
{
    let op = match rd_u8(b, p) {
        Some(t) => t.0,
        None => {
            return Err(Error::IOError);
        },
    };
    if op > 10 {
        return Err(Error::BadMetadataOpCode(op));
    }
    if op <= 4 {
        return rd_meta_str(b, p, op);
    }
    if op == 9 {
        return rd_meta_field(b, p);
    }
    if op == 10 {
        return rd_meta_param(b, p);
    }
    let q = p + 1;
    match op {
        5 => {
            let (x, q2) = match rd_u8(b, q) {
                Some(t) => t,
                None => {
                    return Err(Error::IOError);
                },
            };
            let m = MetaRecord::Radius(x);
            proof {
                assert(enc_meta(m) =~= b@.subrange(p as int, q2 as int));
            }
            Ok((m, q2))
        },
        6 | 7 => {
            let (x, q2) = match rd_u32(b, q) {
                Some(t) => t,
                None => {
                    return Err(Error::IOError);
                },
            };
            let m = if op == 6 {
                MetaRecord::BgColor(x)
            } else {
                MetaRecord::FgColor(x)
            };
            proof {
                assert(enc_meta(m) =~= b@.subrange(p as int, q2 as int));
            }
            Ok((m, q2))
        },
        _ => {
            let (x, q2) = match rd_u8(b, q) {
                Some(t) => t,
                None => {
                    return Err(Error::IOError);
                },
            };
            let m = MetaRecord::Symmetries(Symmetries(x));
            proof {
                assert(enc_meta(m) =~= b@.subrange(p as int, q2 as int));
            }
            Ok((m, q2))
        },
    }
}

/// Reads one of the plain string records: a name, symbol, description,
/// author or license.
#[verifier::rlimit(100)]
fn rd_meta_str(b: &[u8], p: usize, op: u8) -> (r: Result<(MetaRecord, usize), Error>)
    requires
        p < b@.len(),
        op == b@[p as int],
        op <= 4,
    ensures
        match meta_probe(b@, p as int) {
            Ok(q) => r matches Ok(t) && p <= t.1 <= b@.len() && t.1 == q && t.0.wf()
                && t.0.utf8_ok() && enc_meta(t.0) == b@.subrange(p as int, t.1 as int),
            Err(e) => r == Err::<(MetaRecord, usize), Error>(e),
        },
{
    let _n = b.len();
    let (s, q2) = match rd_str(b, p + 1) {
        Some(t) => t,
        None => {
            proof {
                assert(!str_fits(b@, p + 1));
            }
            return Err(Error::IOError);
        },
    };
    proof {
        lemma_str_body(b@, p + 1, s@, q2 as int);
    }
    if !crate::base::utf8_ck(s.as_slice()) {
        proof {
            assert(str_fits(b@, p + 1));
            assert(!vstd::utf8::valid_utf8(str_at(b@, p + 1)));
        }
        return Err(Error::FromUtf8Error);
    }
    proof {
        assert(vstd::utf8::valid_utf8(str_at(b@, p + 1)));
    }
    let m = if op == 0 {
        MetaRecord::Name(s)
    } else if op == 1 {
        MetaRecord::Symbol(s)
    } else if op == 2 {
        MetaRecord::Desc(s)
    } else if op == 3 {
        MetaRecord::Author(s)
    } else {
        MetaRecord::License(s)
    };
    proof {
        assert(enc_meta(m) =~= b@.subrange(p as int, q2 as int));
    }
    Ok((m, q2))
}

/// Reads a field record: a name, then a selector.
#[verifier::rlimit(100)]
fn rd_meta_field(b: &[u8], p: usize) -> (r: Result<(MetaRecord, usize), Error>)
    requires
        p < b@.len(),
        b@[p as int] == 9,
    ensures
        match meta_probe(b@, p as int) {
            Ok(q) => r matches Ok(t) && p <= t.1 <= b@.len() && t.1 == q && t.0.wf()
                && t.0.utf8_ok() && enc_meta(t.0) == b@.subrange(p as int, t.1 as int),
            Err(e) => r == Err::<(MetaRecord, usize), Error>(e),
        },
{
    let _n = b.len();
    let (s, q2) = match rd_str(b, p + 1) {
        Some(t) => t,
        None => {
            proof {
                assert(!str_fits(b@, p + 1));
            }
            return Err(Error::IOError);
        },
    };
    proof {
        lemma_str_body(b@, p + 1, s@, q2 as int);
    }
    if !crate::base::utf8_ck(s.as_slice()) {
        proof {
            assert(str_fits(b@, p + 1));
            assert(!vstd::utf8::valid_utf8(str_at(b@, p + 1)));
        }
        return Err(Error::FromUtf8Error);
    }
    proof {
        assert(vstd::utf8::valid_utf8(str_at(b@, p + 1)));
    }
    let (f, q3) = match rd_sel(b, q2) {
        Some(t) => t,
        None => {
            return Err(Error::IOError);
        },
    };
    let m = MetaRecord::Field(s, f);
    proof {
        assert(enc_meta(m) =~= b@.subrange(p as int, q3 as int));
    }
    Ok((m, q3))
}

/// Reads a parameter record: a name, then a constant.
#[verifier::rlimit(100)]
fn rd_meta_param(b: &[u8], p: usize) -> (r: Result<(MetaRecord, usize), Error>)
    requires
        p < b@.len(),
        b@[p as int] == 10,
    ensures
        match meta_probe(b@, p as int) {
            Ok(q) => r matches Ok(t) && p <= t.1 <= b@.len() && t.1 == q && t.0.wf()
                && t.0.utf8_ok() && enc_meta(t.0) == b@.subrange(p as int, t.1 as int),
            Err(e) => r == Err::<(MetaRecord, usize), Error>(e),
        },
{
    let _n = b.len();
    let (s, q2) = match rd_str(b, p + 1) {
        Some(t) => t,
        None => {
            proof {
                assert(!str_fits(b@, p + 1));
            }
            return Err(Error::IOError);
        },
    };
    proof {
        lemma_str_body(b@, p + 1, s@, q2 as int);
    }
    if !crate::base::utf8_ck(s.as_slice()) {
        proof {
            assert(str_fits(b@, p + 1));
            assert(!vstd::utf8::valid_utf8(str_at(b@, p + 1)));
        }
        return Err(Error::FromUtf8Error);
    }
    proof {
        assert(vstd::utf8::valid_utf8(str_at(b@, p + 1)));
    }
    let (c, q3) = match rd_const(b, q2) {
        Ok(t) => t,
        Err(e) => {
            return Err(e);
        },
    };
    let m = MetaRecord::Parameter(s, c);
    proof {
        assert(enc_const(c)[0] == b@.subrange(q2 as int, q3 as int)[0]);
        assert(b@[q2 as int] == 0 || b@[q2 as int] == 1);
        assert(enc_meta(m) =~= b@.subrange(p as int, q3 as int));
    }
    Ok((m, q3))
}

/// A string read back from its wire form is the string the wire holds.
proof fn lemma_str_body(b: Seq<u8>, p: int, s: Seq<u8>, q: int)
    requires
        0 <= p,
        p + 1 <= q <= b.len(),
        s.len() <= 255,
        enc_str(s) == b.subrange(p, q),
        q == p + 1 + s.len(),
    ensures
        b[p] == s.len() as u8,
        s =~= str_at(b, p),
        str_fits(b, p),
        str_end(b, p) == q,
{
    assert(b.subrange(p, q)[0] == b[p]);
    assert(enc_str(s)[0] == s.len() as u8);
    assert forall|k: int| 0 <= k < s.len() implies s[k] == str_at(b, p)[k] by {
        assert(enc_str(s)[k + 1] == s[k]);
        assert(b.subrange(p, q)[k + 1] == b[p + k + 1]);
    }
}

fn rd_instr(b: &[u8], p: usize) -> (r: Result<(Instr, usize), Error>)
    ensures
        match instr_probe(b@, p as int) {
            Ok(q) => r matches Ok(t) && p <= t.1 <= b@.len() && t.1 == q && t.0.wf() && enc_instr(
                t.0,
            ) == b@.subrange(p as int, t.1 as int),
            Err(e) => r == Err::<(Instr, usize), Error>(e),
        },
{
    let op = match rd_u8(b, p) {
        Some(t) => t.0,
        None => {
            return Err(Error::IOError);
        },
    };
    if op > 90 {
        return Err(Error::BadInstructionOpCode(op));
    }
    if op == 4 || op == 5 || op == 7 || op == 8 || op == 9 || op == 10 {
        return rd_instr_sel(b, p, op);
    }
    if op == 11 || op == 64 || op == 84 || op == 86 || op == 87 {
        return rd_instr_u16(b, p, op);
    }
    if op == 12 || op == 58 {
        return rd_instr_const(b, p, op);
    }
    let q = p + 1;
    if op == 15 {
        let (x, q2) = match rd_u8(b, q) {
            Some(t) => t,
            None => {
                return Err(Error::IOError);
            },
        };
        let i = Instr::UseSymmetries(Symmetries(x));
        proof {
            assert(enc_instr(i) =~= b@.subrange(p as int, q2 as int));
        }
        return Ok((i, q2));
    }
    if 17 <= op && op <= 57 {
        let i = Instr::PushSmall(op - 17);
        proof {
            assert(enc_instr(i) =~= b@.subrange(p as int, q as int));
        }
        return Ok((i, q));
    }
    let i = instr_of_plain(op);
    proof {
        assert(enc_instr(i) =~= b@.subrange(p as int, q as int));
    }
    Ok((i, q))
}

/// Reads an instruction whose operand is a field selector.
fn rd_instr_sel(b: &[u8], p: usize, op: u8) -> (r: Result<(Instr, usize), Error>)
    requires
        p < b@.len(),
        op == b@[p as int],
        op == 4 || op == 5 || op == 7 || op == 8 || op == 9 || op == 10,
    ensures
        match instr_probe(b@, p as int) {
            Ok(q) => r matches Ok(t) && p <= t.1 <= b@.len() && t.1 == q && t.0.wf() && enc_instr(
                t.0,
            ) == b@.subrange(p as int, t.1 as int),
            Err(e) => r == Err::<(Instr, usize), Error>(e),
        },
{
    let _n = b.len();
    let (f, q2) = match rd_sel(b, p + 1) {
        Some(t) => t,
        None => {
            return Err(Error::IOError);
        },
    };
    let i = if op == 4 {
        Instr::SetField(f)
    } else if op == 5 {
        Instr::SetSiteField(f)
    } else if op == 7 {
        Instr::GetField(f)
    } else if op == 8 {
        Instr::GetSiteField(f)
    } else if op == 9 {
        Instr::GetSignedField(f)
    } else {
        Instr::GetSignedSiteField(f)
    };
    proof {
        assert(enc_instr(i) =~= b@.subrange(p as int, q2 as int));
    }
    Ok((i, q2))
}

/// Reads an instruction whose operand is a 16-bit index.
fn rd_instr_u16(b: &[u8], p: usize, op: u8) -> (r: Result<(Instr, usize), Error>)
    requires
        p < b@.len(),
        op == b@[p as int],
        op == 11 || op == 64 || op == 84 || op == 86 || op == 87,
    ensures
        match instr_probe(b@, p as int) {
            Ok(q) => r matches Ok(t) && p <= t.1 <= b@.len() && t.1 == q && t.0.wf() && enc_instr(
                t.0,
            ) == b@.subrange(p as int, t.1 as int),
            Err(e) => r == Err::<(Instr, usize), Error>(e),
        },
{
    let _n = b.len();
    let (t, q2) = match rd_u16(b, p + 1) {
        Some(t) => t,
        None => {
            return Err(Error::IOError);
        },
    };
    let i = if op == 11 {
        Instr::GetType(t)
    } else if op == 64 {
        Instr::Call(t)
    } else if op == 84 {
        Instr::Jump(t)
    } else if op == 86 {
        Instr::JumpZero(t)
    } else {
        Instr::JumpNonZero(t)
    };
    proof {
        assert(enc_instr(i) =~= b@.subrange(p as int, q2 as int));
    }
    Ok((i, q2))
}

/// Reads an instruction whose operand is an inline constant.
#[verifier::rlimit(100)]
fn rd_instr_const(b: &[u8], p: usize, op: u8) -> (r: Result<(Instr, usize), Error>)
    requires
        p < b@.len(),
        op == b@[p as int],
        op == 12 || op == 58,
    ensures
        match instr_probe(b@, p as int) {
            Ok(q) => r matches Ok(t) && p <= t.1 <= b@.len() && t.1 == q && t.0.wf() && enc_instr(
                t.0,
            ) == b@.subrange(p as int, t.1 as int),
            Err(e) => r == Err::<(Instr, usize), Error>(e),
        },
{
    let _n = b.len();
    let (c, q2) = match rd_const(b, p + 1) {
        Ok(t) => t,
        Err(e) => {
            return Err(e);
        },
    };
    let i = if op == 12 {
        Instr::GetParameter(c)
    } else {
        Instr::Push(c)
    };
    proof {
        assert(enc_const(c)[0] == b@.subrange(p + 1, q2 as int)[0]);
        assert(b@[p + 1] == 0 || b@[p + 1] == 1);
        assert(enc_instr(i) =~= b@.subrange(p as int, q2 as int));
    }
    Ok((i, q2))
}

/// The instruction a bare opcode byte stands for, for the opcodes that
/// carry no operand.
fn instr_of_plain(op: u8) -> (r: Instr)
    requires
        op <= 90,
        op != 4 && op != 5 && op != 7 && op != 8 && op != 9 && op != 10 && op != 11 && op != 64
            && op != 84 && op != 86 && op != 87 && op != 12 && op != 58 && op != 15 && !(17 <= op
            <= 57),
    ensures
        enc_instr(r) == seq![op],
        r.wf(),
{
    let i = match op {
        0 => Instr::Nop,
        1 => Instr::Exit,
        2 => Instr::SwapSites,
        3 => Instr::SetSite,
        6 => Instr::GetSite,
        13 => Instr::Scan,
        14 => Instr::SaveSymmetries,
        16 => Instr::RestoreSymmetries,
        59 => Instr::Pop,
        60 => Instr::Dup,
        61 => Instr::Over,
        62 => Instr::Swap,
        63 => Instr::Rot,
        65 => Instr::Ret,
        66 => Instr::Checksum,
        67 => Instr::Add,
        68 => Instr::Sub,
        69 => Instr::Neg,
        70 => Instr::Mod,
        71 => Instr::Mul,
        72 => Instr::Div,
        73 => Instr::Less,
        74 => Instr::LessEqual,
        75 => Instr::Or,
        76 => Instr::And,
        77 => Instr::Xor,
        78 => Instr::Equal,
        79 => Instr::BitCount,
        80 => Instr::BitScanForward,
        81 => Instr::BitScanReverse,
        82 => Instr::LShift,
        83 => Instr::RShift,
        85 => Instr::JumpRelativeOffset,
        88 => Instr::SetPaint,
        89 => Instr::GetPaint,
        _ => Instr::Rand,
    };
    proof {
        assert(enc_instr(i) =~= seq![op]);
    }
    i
}

/// The bytes of the records from position `k` on.
pub open spec fn enc_metas_from(h: Seq<MetaRecord>, k: int) -> Seq<u8>
    decreases h.len() - k,
{
    if k < 0 || k >= h.len() {
        Seq::empty()
    } else {
        enc_meta(h[k]) + enc_metas_from(h, k + 1)
    }
}

/// The bytes of the instructions from position `k` on.
pub open spec fn enc_instrs_from(c: Seq<Instr>, k: int) -> Seq<u8>
    decreases c.len() - k,
{
    if k < 0 || k >= c.len() {
        Seq::empty()
    } else {
        enc_instr(c[k]) + enc_instrs_from(c, k + 1)
    }
}

/// The record bytes split at any position.
proof fn lemma_enc_metas_split(h: Seq<MetaRecord>, k: int)
    requires
        0 <= k <= h.len(),
    ensures
        enc_metas(h) == enc_metas(h.take(k)) + enc_metas_from(h, k),
    decreases h.len() - k,
{
    if k == h.len() {
        assert(h.take(k) =~= h);
        assert(enc_metas(h) =~= enc_metas(h.take(k)) + enc_metas_from(h, k));
    } else {
        lemma_enc_metas_split(h, k + 1);
        assert(h.take(k + 1).drop_last() =~= h.take(k));
        assert(enc_metas(h.take(k + 1)) == enc_metas(h.take(k)) + enc_meta(h[k]));
        assert(enc_metas(h) =~= enc_metas(h.take(k)) + enc_metas_from(h, k));
    }
}

/// The instruction bytes split at any position.
proof fn lemma_enc_instrs_split(c: Seq<Instr>, k: int)
    requires
        0 <= k <= c.len(),
    ensures
        enc_instrs(c) == enc_instrs(c.take(k)) + enc_instrs_from(c, k),
    decreases c.len() - k,
{
    if k == c.len() {
        assert(c.take(k) =~= c);
        assert(enc_instrs(c) =~= enc_instrs(c.take(k)) + enc_instrs_from(c, k));
    } else {
        lemma_enc_instrs_split(c, k + 1);
        assert(c.take(k + 1).drop_last() =~= c.take(k));
        assert(enc_instrs(c.take(k + 1)) == enc_instrs(c.take(k)) + enc_instr(c[k]));
        assert(enc_instrs(c) =~= enc_instrs(c.take(k)) + enc_instrs_from(c, k));
    }
}

/// A two-byte record at `p` satisfies its probe.
proof fn lemma_probe_fixed2(b: Seq<u8>, p: int, code: u8)
    requires
        0 <= p,
        p + 2 <= b.len(),
        b[p] == code,
        code == 5 || code == 8,
    ensures
        meta_probe(b, p) == Ok::<int, Error>(p + 2),
{
}

/// A five-byte record at `p` satisfies its probe.
proof fn lemma_probe_fixed5(b: Seq<u8>, p: int, code: u8)
    requires
        0 <= p,
        p + 5 <= b.len(),
        b[p] == code,
        code == 6 || code == 7,
    ensures
        meta_probe(b, p) == Ok::<int, Error>(p + 5),
{
}

/// A plain string record at `p` satisfies its probe.
proof fn lemma_probe_plain_str(b: Seq<u8>, p: int, code: u8, sv: Seq<u8>)
    requires
        0 <= p,
        code <= 4,
        b[p] == code,
        sv.len() <= 255,
        vstd::utf8::valid_utf8(sv),
        p + 2 + sv.len() <= b.len(),
        b[p + 1] == sv.len() as u8,
        forall|j: int| 0 <= j < sv.len() ==> b[p + 2 + j] == sv[j],
    ensures
        meta_probe(b, p) == Ok::<int, Error>(p + 2 + sv.len()),
{
    assert(str_at(b, p + 1) =~= sv);
}

/// A field record at `p` satisfies its probe.
proof fn lemma_probe_field(b: Seq<u8>, p: int, sv: Seq<u8>)
    requires
        0 <= p,
        b[p] == 9,
        sv.len() <= 255,
        vstd::utf8::valid_utf8(sv),
        p + 2 + sv.len() + 2 <= b.len(),
        b[p + 1] == sv.len() as u8,
        forall|j: int| 0 <= j < sv.len() ==> b[p + 2 + j] == sv[j],
    ensures
        meta_probe(b, p) == Ok::<int, Error>(p + 4 + sv.len()),
{
    assert(str_at(b, p + 1) =~= sv);
}

/// A parameter record at `p` satisfies its probe.
proof fn lemma_probe_param(b: Seq<u8>, p: int, sv: Seq<u8>)
    requires
        0 <= p,
        b[p] == 10,
        sv.len() <= 255,
        vstd::utf8::valid_utf8(sv),
        p + 2 + sv.len() + 13 <= b.len(),
        b[p + 1] == sv.len() as u8,
        forall|j: int| 0 <= j < sv.len() ==> b[p + 2 + j] == sv[j],
        b[p + 2 + sv.len()] == 0 || b[p + 2 + sv.len()] == 1,
    ensures
        meta_probe(b, p) == Ok::<int, Error>(p + 15 + sv.len()),
{
    assert(str_at(b, p + 1) =~= sv);
}

/// A record's bytes at a position let the record reader through, landing
/// right after them.
#[verifier::rlimit(100)]
#[verifier::spinoff_prover]
proof fn lemma_meta_probe_enc(b: Seq<u8>, p: int, m: MetaRecord, rest: Seq<u8>)
    requires
        0 <= p <= b.len(),
        m.wf(),
        m.utf8_ok(),
        b.subrange(p, b.len() as int) == enc_meta(m) + rest,
    ensures
        meta_probe(b, p) == Ok::<int, Error>(p + enc_meta(m).len()),
{
    let suf = b.subrange(p, b.len() as int);
    let e = enc_meta(m);
    assert(suf.len() == e.len() + rest.len());
    assert forall|j: int| 0 <= j < e.len() implies b[p + j] == e[j] by {
        assert(suf[j] == e[j]);
    }
    match m {
        MetaRecord::Radius(x) => {
            assert(e =~= seq![5u8, x]);
            assert(b[p + 0] == e[0]);
            lemma_probe_fixed2(b, p, 5);
        },
        MetaRecord::Symmetries(x) => {
            assert(e =~= seq![8u8, x.0]);
            assert(b[p + 0] == e[0]);
            lemma_probe_fixed2(b, p, 8);
        },
        MetaRecord::BgColor(x) => {
            assert(e =~= seq![6u8] + be32(x));
            assert(b[p + 0] == e[0]);
            lemma_probe_fixed5(b, p, 6);
        },
        MetaRecord::FgColor(x) => {
            assert(e =~= seq![7u8] + be32(x));
            assert(b[p + 0] == e[0]);
            lemma_probe_fixed5(b, p, 7);
        },
        MetaRecord::Name(sv) => {
            lemma_meta_enc_str_parts(b, p, sv@, 0, e);
            lemma_probe_plain_str(b, p, 0, sv@);
        },
        MetaRecord::Symbol(sv) => {
            lemma_meta_enc_str_parts(b, p, sv@, 1, e);
            lemma_probe_plain_str(b, p, 1, sv@);
        },
        MetaRecord::Desc(sv) => {
            lemma_meta_enc_str_parts(b, p, sv@, 2, e);
            lemma_probe_plain_str(b, p, 2, sv@);
        },
        MetaRecord::Author(sv) => {
            lemma_meta_enc_str_parts(b, p, sv@, 3, e);
            lemma_probe_plain_str(b, p, 3, sv@);
        },
        MetaRecord::License(sv) => {
            lemma_meta_enc_str_parts(b, p, sv@, 4, e);
            lemma_probe_plain_str(b, p, 4, sv@);
        },
        MetaRecord::Field(sv, f) => {
            assert(e =~= seq![9u8] + enc_str(sv@) + enc_sel(f));
            lemma_meta_enc_str_parts(b, p, sv@, 9, e);
            lemma_probe_field(b, p, sv@);
        },
        MetaRecord::Parameter(sv, c) => {
            assert(e =~= seq![10u8] + enc_str(sv@) + enc_const(c));
            lemma_meta_enc_str_parts(b, p, sv@, 10, e);
            assert(e[2 + sv@.len() as int] == enc_const(c)[0]);
            assert(enc_const(c)[0] == 0 || enc_const(c)[0] == 1);
            lemma_probe_param(b, p, sv@);
        },
    }
}

/// Index facts of a record that starts with a code byte and a string.
proof fn lemma_meta_enc_str_parts(b: Seq<u8>, p: int, sv: Seq<u8>, code: u8, e: Seq<u8>)
    requires
        0 <= p,
        p + e.len() <= b.len(),
        e.len() >= 2 + sv.len(),
        e[0] == code,
        e[1] == sv.len() as u8,
        forall|j: int| 0 <= j < sv.len() ==> e[2 + j] == sv[j],
        forall|j: int| 0 <= j < e.len() ==> b[p + j] == e[j],
    ensures
        b[p] == code,
        b[p + 1] == sv.len() as u8,
        forall|j: int| 0 <= j < sv.len() ==> b[p + 2 + j] == sv[j],
{
    assert forall|j: int| 0 <= j < sv.len() implies b[p + 2 + j] == sv[j] by {
        assert(b[p + (2 + j)] == e[2 + j]);
    }
}

/// An instruction's bytes at a position let the instruction reader
/// through, landing right after them.
#[verifier::rlimit(100)]
#[verifier::spinoff_prover]
proof fn lemma_instr_probe_enc(b: Seq<u8>, p: int, i: Instr, rest: Seq<u8>)
    requires
        0 <= p <= b.len(),
        i.wf(),
        b.subrange(p, b.len() as int) == enc_instr(i) + rest,
    ensures
        instr_probe(b, p) == Ok::<int, Error>(p + enc_instr(i).len()),
{
    let suf = b.subrange(p, b.len() as int);
    let e = enc_instr(i);
    assert(suf.len() == e.len() + rest.len());
    assert forall|j: int| 0 <= j < e.len() implies b[p + j] == e[j] by {
        assert(suf[j] == e[j]);
    }
    match i {
        Instr::SetField(f) | Instr::SetSiteField(f) | Instr::GetField(f) | Instr::GetSiteField(f)
            | Instr::GetSignedField(f) | Instr::GetSignedSiteField(f) => {
            assert(e.len() == 3);
            assert(b[p + 0] == e[0]);
            assert(e[0] == 4 || e[0] == 5 || e[0] == 7 || e[0] == 8 || e[0] == 9 || e[0] == 10);
        },
        Instr::GetType(t) | Instr::Call(t) | Instr::Jump(t) | Instr::JumpZero(t)
            | Instr::JumpNonZero(t) => {
            assert(e.len() == 3);
            assert(b[p + 0] == e[0]);
            assert(e[0] == 11 || e[0] == 64 || e[0] == 84 || e[0] == 86 || e[0] == 87);
        },
        Instr::GetParameter(c) | Instr::Push(c) => {
            assert(e =~= seq![e[0]] + enc_const(c));
            assert(e.len() == 14);
            assert(b[p + 0] == e[0] && b[p + 1] == e[1]);
            assert(e[0] == 12 || e[0] == 58);
            assert(e[1] == enc_const(c)[0]);
            assert(enc_const(c)[0] == 0 || enc_const(c)[0] == 1);
        },
        Instr::UseSymmetries(sy) => {
            assert(e =~= seq![15u8, sy.0]);
            assert(b[p + 0] == e[0]);
        },
        Instr::PushSmall(n) => {
            assert(e =~= seq![(17 + (n % 41)) as u8]);
            assert(b[p + 0] == e[0]);
            assert(17 <= e[0] <= 57);
        },
        _ => {
            assert(e.len() == 1);
            assert(b[p + 0] == e[0]);
            assert(e[0] <= 90 && e[0] != 4 && e[0] != 5 && e[0] != 7 && e[0] != 8 && e[0] != 9
                && e[0] != 10 && e[0] != 11 && e[0] != 64 && e[0] != 84 && e[0] != 86 && e[0] != 87
                && e[0] != 12 && e[0] != 58 && e[0] != 15);
        },
    }
}

/// The fixed header facts every canonical byte image carries: the magic
/// and version words, the tag in place, the record count byte, the code
/// count word, and the overall length.
#[verifier::rlimit(100)]
#[verifier::spinoff_prover]
proof fn lemma_enc_object_prefix(b: Seq<u8>, o: ObjectFile)
    requires
        o.wf(),
        enc_object(&o) == b,
    ensures
        ({
            let tl = o.build_tag@.len() as int;
            let lm = enc_metas(o.header@).len() as int;
            let li = enc_instrs(o.code@).len() as int;
            &&& b.len() == 16 + tl + lm + li
            &&& sp_u32(b, 0) == 0x02030741
            &&& sp_u16(b, 4) == 1
            &&& sp_u16(b, 6) == 0
            &&& b[8] == o.build_tag@.len() as u8
            &&& str_fits(b, 8)
            &&& str_at(b, 8) == o.build_tag@
            &&& b[11 + tl] == o.header@.len() as u8
            &&& sp_u16(b, 14 + tl + lm) == o.code@.len() as u16
        }),
{
    let tl = o.build_tag@.len() as int;
    let lm = enc_metas(o.header@).len() as int;
    let li = enc_instrs(o.code@).len() as int;
    assert(b[0] == 0x02 && b[1] == 0x03 && b[2] == 0x07 && b[3] == 0x41);
    assert(sp_u32(b, 0) == 0x02030741);
    assert(b[4] == 0x00 && b[5] == 0x01 && b[6] == 0x00 && b[7] == 0x00);
    assert(b[8] == o.build_tag@.len() as u8);
    assert forall|j: int| 0 <= j < tl implies b[9 + j] == o.build_tag@[j] by {
        assert(enc_str(o.build_tag@)[1 + j] == o.build_tag@[j]);
    }
    assert(str_at(b, 8) =~= o.build_tag@);
    assert(b[11 + tl] == o.header@.len() as u8);
    assert(b[14 + tl + lm] == (o.code@.len() as u16 / 0x100) as u8);
    assert(b[15 + tl + lm] == (o.code@.len() as u16 % 0x100) as u8);
}

/// The byte suffix at record `k` of a canonical image: that record's
/// bytes, then everything after it.
#[verifier::rlimit(100)]
proof fn lemma_meta_suffix_at(b: Seq<u8>, o: ObjectFile, k: int)
    requires
        o.wf(),
        enc_object(&o) == b,
        0 <= k < o.header@.len(),
    ensures
        ({
            let tl = o.build_tag@.len() as int;
            let pos = 12 + tl + enc_metas(o.header@.take(k)).len();
            b.subrange(pos as int, b.len() as int) == enc_meta(o.header@[k]) + (enc_metas_from(
                o.header@,
                k + 1,
            ) + be16(o.code_index_count) + be16(o.code@.len() as u16) + enc_instrs(o.code@))
        }),
{
    let tl = o.build_tag@.len() as int;
    lemma_enc_metas_split(o.header@, k);
    lemma_enc_metas_split(o.header@, k + 1);
    assert(o.header@.take(k + 1).drop_last() =~= o.header@.take(k));
    assert(enc_metas_from(o.header@, k) == enc_meta(o.header@[k]) + enc_metas_from(
        o.header@,
        k + 1,
    ));
    let pos = 12 + tl + enc_metas(o.header@.take(k)).len() as int;
    assert(b.subrange(pos, b.len() as int) =~= enc_meta(o.header@[k]) + (enc_metas_from(
        o.header@,
        k + 1,
    ) + be16(o.code_index_count) + be16(o.code@.len() as u16) + enc_instrs(o.code@)));
}

/// The byte suffix at instruction `k` of a canonical image.
#[verifier::rlimit(100)]
proof fn lemma_instr_suffix_at(b: Seq<u8>, o: ObjectFile, k: int)
    requires
        o.wf(),
        enc_object(&o) == b,
        0 <= k < o.code@.len(),
    ensures
        ({
            let tl = o.build_tag@.len() as int;
            let lm = enc_metas(o.header@).len() as int;
            let pos = 16 + tl + lm + enc_instrs(o.code@.take(k)).len();
            b.subrange(pos as int, b.len() as int) == enc_instr(o.code@[k]) + enc_instrs_from(
                o.code@,
                k + 1,
            )
        }),
{
    let tl = o.build_tag@.len() as int;
    let lm = enc_metas(o.header@).len() as int;
    lemma_enc_instrs_split(o.code@, k);
    lemma_enc_instrs_split(o.code@, k + 1);
    assert(o.code@.take(k + 1).drop_last() =~= o.code@.take(k));
    assert(enc_instrs_from(o.code@, k) == enc_instr(o.code@[k]) + enc_instrs_from(o.code@, k + 1));
    let pos = 16 + tl + lm + enc_instrs(o.code@.take(k)).len() as int;
    assert(b.subrange(pos, b.len() as int) =~= enc_instr(o.code@[k]) + enc_instrs_from(
        o.code@,
        k + 1,
    ));
}

/// A canonical byte image carries its object's build tag in the string
/// field at position 8.
pub proof fn lemma_enc_object_tag(b: Seq<u8>, o: ObjectFile)
    requires
        o.wf(),
        enc_object(&o) == b,
    ensures
        str_at(b, 8) == o.build_tag@,
{
    lemma_enc_object_prefix(b, o);
}

/// Reads one object file from its exact byte image: the inverse of
/// [`ObjectFile::emit`].
///
/// On success the returned object is well formed, carries valid UTF-8
/// names, and re-encodes, byte for byte, to the input; bytes left over
/// past the one object are refused as truncated input in reverse. The
/// gates come in order: a stream shorter than the magic number fails as
/// truncated, and a wrong magic number, minor version or major version
/// each fail with the corresponding error before anything further is
/// read.
#[verifier::rlimit(100)]
#[verifier::spinoff_prover]
pub fn parse(b: &[u8]) -> (r: Result<ObjectFile, Error>)
    ensures
        (match r {
            Ok(o) => o.wf() && o.utf8_ok() && enc_object(&o) == b@,
            Err(_) => true,
        }),
        b@.len() < 4 ==> r == Err::<ObjectFile, Error>(Error::IOError),
        b@.len() >= 4 ==> ((sp_u32(b@, 0) != 0x02030741) <==> r == Err::<ObjectFile, Error>(
            Error::BadMagicNumber(sp_u32(b@, 0)),
        )),
        b@.len() >= 4 && sp_u32(b@, 0) == 0x02030741 && b@.len() < 6 ==> r == Err::<
            ObjectFile,
            Error,
        >(Error::IOError),
        b@.len() >= 6 && sp_u32(b@, 0) == 0x02030741 ==> ((sp_u16(b@, 4) != 1) <==> r == Err::<
            ObjectFile,
            Error,
        >(Error::BadMinorVersion(sp_u16(b@, 4)))),
        b@.len() >= 6 && sp_u32(b@, 0) == 0x02030741 && sp_u16(b@, 4) == 1 && b@.len() < 8 ==> r
            == Err::<ObjectFile, Error>(Error::IOError),
        b@.len() >= 8 && sp_u32(b@, 0) == 0x02030741 && sp_u16(b@, 4) == 1 ==> ((sp_u16(b@, 6) != 0)
            <==> r == Err::<ObjectFile, Error>(Error::BadMajorVersion(sp_u16(b@, 6)))),
        r matches Err(Error::BadMetadataOpCode(t)) ==> t > 10,
        r matches Err(Error::BadInstructionOpCode(t)) ==> t > 90,
        r matches Err(Error::BadConstantType(t)) ==> t != 0 && t != 1,
        !(r matches Err(Error::BuildTagMismatch { want: _, got: _ })) && !(r matches Err(
            Error::NoElement,
        )) && !(r matches Err(Error::UnknownElement(_))) && !(r matches Err(Error::StackUnderflow)),
        (r is Ok) <==> (exists|o: ObjectFile|
            #![auto]
            o.wf() && o.utf8_ok() && enc_object(&o) == b@),
        r matches Ok(o) ==> o.build_tag@ == str_at(b@, 8),
{
    let ghost himg = exists|o: ObjectFile| #![auto] o.wf() && o.utf8_ok() && enc_object(&o) == b@;
    let ghost go = choose|o: ObjectFile| #![auto] o.wf() && o.utf8_ok() && enc_object(&o) == b@;
    proof {
        if himg {
            lemma_enc_object_prefix(b@, go);
        }
    }
    let (magic, p1) = match rd_u32(b, 0) {
        Some(t) => t,
        None => {
            return Err(Error::IOError);
        },
    };
    if magic != MAGIC_NUMBER {
        return Err(Error::BadMagicNumber(magic));
    }
    let (minor, p2) = match rd_u16(b, p1) {
        Some(t) => t,
        None => {
            return Err(Error::IOError);
        },
    };
    if minor != MINOR_VERSION {
        return Err(Error::BadMinorVersion(minor));
    }
    let (major, p3) = match rd_u16(b, p2) {
        Some(t) => t,
        None => {
            return Err(Error::IOError);
        },
    };
    if major != MAJOR_VERSION {
        return Err(Error::BadMajorVersion(major));
    }
    let (tag, p4) = match rd_str(b, p3) {
        Some(t) => t,
        None => {
            return Err(Error::IOError);
        },
    };
    proof {
        lemma_str_body(b@, p3 as int, tag@, p4 as int);
    }
    if !crate::base::utf8_ck(tag.as_slice()) {
        return Err(Error::FromUtf8Error);
    }
    let (type_num, p5) = match rd_u16(b, p4) {
        Some(t) => t,
        None => {
            return Err(Error::IOError);
        },
    };
    let (hcount, p6) = match rd_u8(b, p5) {
        Some(t) => t,
        None => {
            return Err(Error::IOError);
        },
    };
    let mut header: Vec<MetaRecord> = Vec::new();
    let mut pos = p6;
    let mut k: usize = 0;
    while k < hcount as usize
        invariant
            b@.len() >= 8,
            sp_u32(b@, 0) == 0x02030741,
            sp_u16(b@, 4) == 1,
            sp_u16(b@, 6) == 0,
            k <= hcount,
            header@.len() == k,
            p6 <= pos <= b@.len(),
            vstd::utf8::valid_utf8(tag@),
            forall|j: int| 0 <= j < k ==> (#[trigger] header@[j]).wf(),
            forall|j: int| 0 <= j < k ==> (#[trigger] header@[j]).utf8_ok(),
            enc_metas(header@) == b@.subrange(p6 as int, pos as int),
            himg == (exists|o: ObjectFile|
                #![auto]
                o.wf() && o.utf8_ok() && enc_object(&o) == b@),
            himg ==> (go.wf() && go.utf8_ok() && enc_object(&go) == b@),
            himg ==> (hcount as int == go.header@.len() && p6 == 12 + go.build_tag@.len() && pos
                == p6 + enc_metas(go.header@.take(k as int)).len()),
        decreases hcount - k,
    {
        let (m, q) = match rd_meta(b, pos) {
            Ok(t) => t,
            Err(e) => {
                proof {
                    if himg {
                        lemma_meta_suffix_at(b@, go, k as int);
                        lemma_meta_probe_enc(
                            b@,
                            pos as int,
                            go.header@[k as int],
                            enc_metas_from(go.header@, k as int + 1) + be16(go.code_index_count)
                                + be16(go.code@.len() as u16) + enc_instrs(go.code@),
                        );
                    }
                }
                return Err(e);
            },
        };
        proof {
            if himg {
                lemma_meta_suffix_at(b@, go, k as int);
                lemma_meta_probe_enc(
                    b@,
                    pos as int,
                    go.header@[k as int],
                    enc_metas_from(go.header@, k as int + 1) + be16(go.code_index_count) + be16(
                        go.code@.len() as u16,
                    ) + enc_instrs(go.code@),
                );
                assert(go.header@.take(k as int + 1).drop_last() =~= go.header@.take(k as int));
                assert(enc_metas(go.header@.take(k as int + 1)) == enc_metas(
                    go.header@.take(k as int),
                ) + enc_meta(go.header@[k as int]));
            }
        }
        let ghost pre = header@;
        header.push(m);
        proof {
            assert(header@.drop_last() =~= pre);
            assert(header@.last() == m);
            assert(enc_metas(header@) == enc_metas(pre) + enc_meta(m));
            assert(b@.subrange(p6 as int, pos as int) + b@.subrange(pos as int, q as int)
                =~= b@.subrange(p6 as int, q as int));
        }
        pos = q;
        k += 1;
    }
    proof {
        if himg {
            assert(go.header@.take(hcount as int) =~= go.header@);
        }
    }
    let (code_index_count, p7) = match rd_u16(b, pos) {
        Some(t) => t,
        None => {
            return Err(Error::IOError);
        },
    };
    let (clen, p8) = match rd_u16(b, p7) {
        Some(t) => t,
        None => {
            return Err(Error::IOError);
        },
    };
    let mut code: Vec<Instr> = Vec::new();
    let mut pos2 = p8;
    let mut k: usize = 0;
    while k < clen as usize
        invariant
            b@.len() >= 8,
            sp_u32(b@, 0) == 0x02030741,
            sp_u16(b@, 4) == 1,
            sp_u16(b@, 6) == 0,
            k <= clen,
            code@.len() == k,
            p8 <= pos2 <= b@.len(),
            vstd::utf8::valid_utf8(tag@),
            forall|j: int| 0 <= j < header@.len() ==> (#[trigger] header@[j]).utf8_ok(),
            forall|j: int| 0 <= j < k ==> (#[trigger] code@[j]).wf(),
            enc_instrs(code@) == b@.subrange(p8 as int, pos2 as int),
            himg == (exists|o: ObjectFile|
                #![auto]
                o.wf() && o.utf8_ok() && enc_object(&o) == b@),
            himg ==> (go.wf() && go.utf8_ok() && enc_object(&go) == b@),
            himg ==> (clen as int == go.code@.len() && p8 == 16 + go.build_tag@.len() + enc_metas(
                go.header@,
            ).len() && pos2 == p8 + enc_instrs(go.code@.take(k as int)).len()),
        decreases clen - k,
    {
        let (i, q) = match rd_instr(b, pos2) {
            Ok(t) => t,
            Err(e) => {
                proof {
                    if himg {
                        lemma_instr_suffix_at(b@, go, k as int);
                        lemma_instr_probe_enc(
                            b@,
                            pos2 as int,
                            go.code@[k as int],
                            enc_instrs_from(go.code@, k as int + 1),
                        );
                    }
                }
                return Err(e);
            },
        };
        proof {
            if himg {
                lemma_instr_suffix_at(b@, go, k as int);
                lemma_instr_probe_enc(
                    b@,
                    pos2 as int,
                    go.code@[k as int],
                    enc_instrs_from(go.code@, k as int + 1),
                );
                assert(go.code@.take(k as int + 1).drop_last() =~= go.code@.take(k as int));
                assert(enc_instrs(go.code@.take(k as int + 1)) == enc_instrs(
                    go.code@.take(k as int),
                ) + enc_instr(go.code@[k as int]));
            }
        }
        let ghost pre = code@;
        code.push(i);
        proof {
            assert(code@.drop_last() =~= pre);
            assert(code@.last() == i);
            assert(enc_instrs(code@) == enc_instrs(pre) + enc_instr(i));
            assert(b@.subrange(p8 as int, pos2 as int) + b@.subrange(pos2 as int, q as int)
                =~= b@.subrange(p8 as int, q as int));
        }
        pos2 = q;
        k += 1;
    }
    proof {
        if himg {
            assert(go.code@.take(clen as int) =~= go.code@);
        }
    }
    if pos2 != b.len() {
        return Err(Error::IOError);
    }
    let o = ObjectFile { build_tag: tag, type_num, header, code_index_count, code };
    proof {
        assert(enc_object(&o) =~= b@);
        assert(o.wf() && o.utf8_ok());
        assert(exists|oo: ObjectFile| #![auto] oo.wf() && oo.utf8_ok() && enc_object(&oo) == b@)
            by {
            assert(o.wf() && o.utf8_ok() && enc_object(&o) == b@);
        }
    }
    Ok(o)
}

/// The canonical 96-bit form of a constant: the same wire bytes, with the
/// value folded into the range the wire can carry.
pub open spec fn spec_canon96(c: Const) -> Const {
    let b96 = c.bits() % 0x1_0000_0000_0000_0000_0000_0000;
    match c {
        Const::Unsigned(_) => Const::Unsigned(b96 as u128),
        Const::Signed(_) => Const::Signed(
            if b96 >= 0x8000_0000_0000_0000_0000_0000 {
                (b96 - 0x1_0000_0000_0000_0000_0000_0000) as i128
            } else {
                b96 as i128
            },
        ),
    }
}

/// Folds a constant into its canonical 96-bit form.
pub fn canon96(c: Const) -> (r: Const)
    ensures
        r == spec_canon96(c),
        const_fits96(r),
        enc_const(r) == enc_const(c),
{
    let b96 = c.as_u128_bits() % 0x1_0000_0000_0000_0000_0000_0000;
    let r = match c {
        Const::Unsigned(_) => Const::Unsigned(b96),
        Const::Signed(_) => {
            if b96 >= 0x8000_0000_0000_0000_0000_0000 {
                Const::Signed(-((0x1_0000_0000_0000_0000_0000_0000u128 - b96) as i128))
            } else {
                Const::Signed(b96 as i128)
            }
        },
    };
    proof {
        if c is Signed && b96 >= 0x8000_0000_0000_0000_0000_0000 {
            let v = (b96 - 0x1_0000_0000_0000_0000_0000_0000) as i128;
            assert(r == Const::Signed(v));
            assert(r.bits() == 0x1_0000_0000_0000_0000_0000_0000 * 0xffff_ffff + b96);
            assert((0x1_0000_0000_0000_0000_0000_0000 * 0xffff_ffff + b96 as int)
                % 0x1_0000_0000_0000_0000_0000_0000 == b96 as int
                % 0x1_0000_0000_0000_0000_0000_0000) by {
                vstd::arithmetic::div_mod::lemma_mod_multiples_vanish(
                    0xffff_ffff,
                    b96 as int,
                    0x1_0000_0000_0000_0000_0000_0000,
                );
            }
        }
        assert(b96 as int % 0x1_0000_0000_0000_0000_0000_0000 == b96) by {
            vstd::arithmetic::div_mod::lemma_small_mod(
                b96 as nat,
                0x1_0000_0000_0000_0000_0000_0000,
            );
        }
        assert(enc_const(r) =~= enc_const(c));
    }
    r
}

} // verus!
