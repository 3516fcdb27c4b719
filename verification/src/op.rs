//! Mnemonic tables: metadata directive names and instruction names as they
//! appear in source text.

use crate::base::str_eq;
use vstd::prelude::*;

verus! {

/// A metadata directive, in wire order.
#[derive(Copy, Clone, Debug, PartialEq, Eq, Structural)]
pub enum MetaOp {
    Name,
    Symbol,
    Desc,
    Author,
    License,
    Radius,
    BgColor,
    FgColor,
    Symmetries,
    Field,
    Parameter,
}

impl MetaOp {
    /// What [`MetaOp::from_str`] returns for a given directive name.
    pub open spec fn spec_of_name(s: Seq<char>) -> Option<MetaOp> {
        if s == ".name"@ {
            Some(MetaOp::Name)
        } else if s == ".symbol"@ {
            Some(MetaOp::Symbol)
        } else if s == ".desc"@ {
            Some(MetaOp::Desc)
        } else if s == ".author"@ {
            Some(MetaOp::Author)
        } else if s == ".license"@ {
            Some(MetaOp::License)
        } else if s == ".radius"@ {
            Some(MetaOp::Radius)
        } else if s == ".bgcolor"@ {
            Some(MetaOp::BgColor)
        } else if s == ".fgcolor"@ {
            Some(MetaOp::FgColor)
        } else if s == ".symmetries"@ {
            Some(MetaOp::Symmetries)
        } else if s == ".field"@ {
            Some(MetaOp::Field)
        } else if s == ".parameter"@ {
            Some(MetaOp::Parameter)
        } else {
            None
        }
    }

    /// Parses a metadata directive name.
    pub fn from_str(s: &str) -> (r: Result<MetaOp, ()>)
        ensures
            r == (match MetaOp::spec_of_name(s@) {
                Some(op) => Ok::<MetaOp, ()>(op),
                None => Err::<MetaOp, ()>(()),
            }),
    {
        if str_eq(s, ".name") {
            Ok(MetaOp::Name)
        } else if str_eq(s, ".symbol") {
            Ok(MetaOp::Symbol)
        } else if str_eq(s, ".desc") {
            Ok(MetaOp::Desc)
        } else if str_eq(s, ".author") {
            Ok(MetaOp::Author)
        } else if str_eq(s, ".license") {
            Ok(MetaOp::License)
        } else if str_eq(s, ".radius") {
            Ok(MetaOp::Radius)
        } else if str_eq(s, ".bgcolor") {
            Ok(MetaOp::BgColor)
        } else if str_eq(s, ".fgcolor") {
            Ok(MetaOp::FgColor)
        } else if str_eq(s, ".symmetries") {
            Ok(MetaOp::Symmetries)
        } else if str_eq(s, ".field") {
            Ok(MetaOp::Field)
        } else if str_eq(s, ".parameter") {
            Ok(MetaOp::Parameter)
        } else {
            Err(())
        }
    }
}

/// An instruction mnemonic of the early operand-style instruction table.
#[derive(Copy, Clone, Debug, PartialEq, Eq, Structural)]
pub enum Op {
    Nop,
    Exit,
    Copy,
    Swap,
    Scan,
    UseSymmetries,
    RestoreSymmetries,
    Push,
    Pop,
    Call,
    Ret,
    Checksum,
    Add,
    Sub,
    Neg,
    Mod,
    Mul,
    Div,
    Less,
    LessEqual,
    Or,
    And,
    Xor,
    Equal,
    BitCount,
    BitScanForward,
    BitScanReverse,
    LShift,
    RShift,
    Jump,
    JumpRelativeOffset,
    JumpZero,
    JumpNonZero,
}

impl Op {
    /// What [`Op::from_str`] returns for a given mnemonic. The mnemonics
    /// `pop`, `call` and `ret` all fold onto `Push` in this early table.
    pub open spec fn spec_of_name(s: Seq<char>) -> Option<Op> {
        if s == "nop"@ {
            Some(Op::Nop)
        } else if s == "exit"@ {
            Some(Op::Exit)
        } else if s == "copy"@ {
            Some(Op::Copy)
        } else if s == "swap"@ {
            Some(Op::Swap)
        } else if s == "scan"@ {
            Some(Op::Scan)
        } else if s == "usesymmetries"@ {
            Some(Op::UseSymmetries)
        } else if s == "restoresymmetries"@ {
            Some(Op::RestoreSymmetries)
        } else if s == "push"@ {
            Some(Op::Push)
        } else if s == "pop"@ {
            Some(Op::Push)
        } else if s == "call"@ {
            Some(Op::Push)
        } else if s == "ret"@ {
            Some(Op::Push)
        } else if s == "checksum"@ {
            Some(Op::Checksum)
        } else if s == "add"@ {
            Some(Op::Add)
        } else if s == "sub"@ {
            Some(Op::Sub)
        } else if s == "neg"@ {
            Some(Op::Neg)
        } else if s == "mod"@ {
            Some(Op::Mod)
        } else if s == "mul"@ {
            Some(Op::Mul)
        } else if s == "div"@ {
            Some(Op::Div)
        } else if s == "less"@ {
            Some(Op::Less)
        } else if s == "lessequal"@ {
            Some(Op::LessEqual)
        } else if s == "or"@ {
            Some(Op::Or)
        } else if s == "and"@ {
            Some(Op::And)
        } else if s == "xor"@ {
            Some(Op::Xor)
        } else if s == "equal"@ {
            Some(Op::Equal)
        } else if s == "bitcount"@ {
            Some(Op::BitCount)
        } else if s == "bitscanforward"@ {
            Some(Op::BitScanForward)
        } else if s == "bitscanreverse"@ {
            Some(Op::BitScanReverse)
        } else if s == "lshift"@ {
            Some(Op::LShift)
        } else if s == "rshift"@ {
            Some(Op::RShift)
        } else if s == "jump"@ {
            Some(Op::Jump)
        } else if s == "jumprelativeoffset"@ {
            Some(Op::JumpRelativeOffset)
        } else if s == "jumpzero"@ {
            Some(Op::JumpZero)
        } else if s == "jumpnonzero"@ {
            Some(Op::JumpNonZero)
        } else {
            None
        }
    }

    /// Parses an instruction mnemonic.
    pub fn from_str(s: &str) -> (r: Result<Op, ()>)
        ensures
            r == (match Op::spec_of_name(s@) {
                Some(op) => Ok::<Op, ()>(op),
                None => Err::<Op, ()>(()),
            }),
    {
        if str_eq(s, "nop") {
            Ok(Op::Nop)
        } else if str_eq(s, "exit") {
            Ok(Op::Exit)
        } else if str_eq(s, "copy") {
            Ok(Op::Copy)
        } else if str_eq(s, "swap") {
            Ok(Op::Swap)
        } else if str_eq(s, "scan") {
            Ok(Op::Scan)
        } else if str_eq(s, "usesymmetries") {
            Ok(Op::UseSymmetries)
        } else if str_eq(s, "restoresymmetries") {
            Ok(Op::RestoreSymmetries)
        } else if str_eq(s, "push") {
            Ok(Op::Push)
        } else if str_eq(s, "pop") {
            Ok(Op::Push)
        } else if str_eq(s, "call") {
            Ok(Op::Push)
        } else if str_eq(s, "ret") {
            Ok(Op::Push)
        } else if str_eq(s, "checksum") {
            Ok(Op::Checksum)
        } else if str_eq(s, "add") {
            Ok(Op::Add)
        } else if str_eq(s, "sub") {
            Ok(Op::Sub)
        } else if str_eq(s, "neg") {
            Ok(Op::Neg)
        } else if str_eq(s, "mod") {
            Ok(Op::Mod)
        } else if str_eq(s, "mul") {
            Ok(Op::Mul)
        } else if str_eq(s, "div") {
            Ok(Op::Div)
        } else if str_eq(s, "less") {
            Ok(Op::Less)
        } else if str_eq(s, "lessequal") {
            Ok(Op::LessEqual)
        } else if str_eq(s, "or") {
            Ok(Op::Or)
        } else if str_eq(s, "and") {
            Ok(Op::And)
        } else if str_eq(s, "xor") {
            Ok(Op::Xor)
        } else if str_eq(s, "equal") {
            Ok(Op::Equal)
        } else if str_eq(s, "bitcount") {
            Ok(Op::BitCount)
        } else if str_eq(s, "bitscanforward") {
            Ok(Op::BitScanForward)
        } else if str_eq(s, "bitscanreverse") {
            Ok(Op::BitScanReverse)
        } else if str_eq(s, "lshift") {
            Ok(Op::LShift)
        } else if str_eq(s, "rshift") {
            Ok(Op::RShift)
        } else if str_eq(s, "jump") {
            Ok(Op::Jump)
        } else if str_eq(s, "jumprelativeoffset") {
            Ok(Op::JumpRelativeOffset)
        } else if str_eq(s, "jumpzero") {
            Ok(Op::JumpZero)
        } else if str_eq(s, "jumpnonzero") {
            Ok(Op::JumpNonZero)
        } else {
            Err(())
        }
    }
}

} // verus!
