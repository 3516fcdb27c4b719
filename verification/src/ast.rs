//! The abstract syntax the compiler consumes: metadata directives, labels
//! and instructions, with arguments that are names before resolution and
//! resolved values afterwards.

use crate::arith::Const;
use crate::base::FieldSelector;
use crate::base::Symmetries;
use vstd::prelude::*;

verus! {

/// An argument that is a source name (`Ast`) until symbol resolution binds
/// it to a runtime value (`Runtime`).
#[derive(Clone, Debug)]
pub enum Arg<T, U> {
    Ast(T),
    Runtime(U),
}

impl<T, U> Arg<T, U> {
    pub fn get_ast(&self) -> (r: Option<&T>)
        ensures
            r == (match self {
                Arg::Ast(x) => Some(x),
                Arg::Runtime(_) => None::<&T>,
            }),
    {
        if let Arg::Ast(x) = self {
            Some(x)
        } else {
            None
        }
    }

    pub fn get_runtime(&self) -> (r: Option<&U>)
        ensures
            r == (match self {
                Arg::Runtime(x) => Some(x),
                Arg::Ast(_) => None::<&U>,
            }),
    {
        if let Arg::Runtime(x) = self {
            Some(x)
        } else {
            None
        }
    }

    /// The source name; the argument must not have been resolved yet.
    pub fn ast(&self) -> (r: &T)
        requires
            self is Ast,
        ensures
            *self == Arg::<T, U>::Ast(*r),
    {
        match self {
            Arg::Ast(x) => x,
            Arg::Runtime(_) => unreached(),
        }
    }

    /// The resolved value; the argument must have been resolved.
    pub fn runtime(&self) -> (r: &U)
        requires
            self is Runtime,
        ensures
            *self == Arg::<T, U>::Runtime(*r),
    {
        match self {
            Arg::Runtime(x) => x,
            Arg::Ast(_) => unreached(),
        }
    }
}

/// A metadata directive of an element's header.
#[derive(Clone, Debug)]
pub enum Metadata {
    Name(Vec<u8>),
    Symbol(Vec<u8>),
    Desc(Vec<u8>),
    Author(Vec<u8>),
    License(Vec<u8>),
    Radius(u8),
    BgColor(Vec<u8>),
    FgColor(Vec<u8>),
    Symmetries(Symmetries),
    Field(Vec<u8>, FieldSelector),
    Parameter(Vec<u8>, Const),
}

impl Metadata {
    /// The wire code of this directive.
    pub open spec fn spec_as_u8(&self) -> u8 {
        match self {
            Metadata::Name(_) => 0,
            Metadata::Symbol(_) => 1,
            Metadata::Desc(_) => 2,
            Metadata::Author(_) => 3,
            Metadata::License(_) => 4,
            Metadata::Radius(_) => 5,
            Metadata::BgColor(_) => 6,
            Metadata::FgColor(_) => 7,
            Metadata::Symmetries(_) => 8,
            Metadata::Field(_, _) => 9,
            Metadata::Parameter(_, _) => 10,
        }
    }

    pub fn as_u8(&self) -> (r: u8)
        ensures
            r == self.spec_as_u8(),
    {
        match self {
            Metadata::Name(_) => 0,
            Metadata::Symbol(_) => 1,
            Metadata::Desc(_) => 2,
            Metadata::Author(_) => 3,
            Metadata::License(_) => 4,
            Metadata::Radius(_) => 5,
            Metadata::BgColor(_) => 6,
            Metadata::FgColor(_) => 7,
            Metadata::Symmetries(_) => 8,
            Metadata::Field(_, _) => 9,
            Metadata::Parameter(_, _) => 10,
        }
    }
}

/// One node of a parsed source file.
#[derive(Clone, Debug)]
pub enum Node {
    Label(Vec<u8>),
    Metadata(Metadata),
    Instruction(Instruction),
}

/// An instruction as written in source: label, type, field and parameter
/// arguments are names that the compiler resolves.
#[derive(Clone, Debug)]
pub enum Instruction {
    Nop,
    Exit,
    SwapSites,
    SetSite,
    SetField(Arg<Vec<u8>, FieldSelector>),
    SetSiteField(Arg<Vec<u8>, FieldSelector>),
    GetSite,
    GetField(Arg<Vec<u8>, FieldSelector>),
    GetSiteField(Arg<Vec<u8>, FieldSelector>),
    GetSignedField(Arg<Vec<u8>, FieldSelector>),
    GetSignedSiteField(Arg<Vec<u8>, FieldSelector>),
    GetType(Arg<Vec<u8>, u16>),
    GetParameter(Arg<Vec<u8>, Const>),
    Scan,
    SaveSymmetries,
    UseSymmetries(Symmetries),
    RestoreSymmetries,
    PushSmall(u8),
    Push(Const),
    Pop,
    Dup,
    Over,
    Swap,
    Rot,
    Call(Arg<Vec<u8>, u16>),
    Ret,
    Checksum,
    Add,
    Sub,
    Neg,
    Mod,
    Mul,
    Div,
    Less,
    LessEqual,
    Or,
    And,
    Xor,
    Equal,
    BitCount,
    BitScanForward,
    BitScanReverse,
    LShift,
    RShift,
    Jump(Arg<Vec<u8>, u16>),
    JumpRelativeOffset,
    JumpZero(Arg<Vec<u8>, u16>),
    JumpNonZero(Arg<Vec<u8>, u16>),
    SetPaint,
    GetPaint,
    Rand,
}

impl Instruction {
    /// True when a small-push instruction carries a value the wire can hold.
    pub open spec fn wf(&self) -> bool {
        match self {
            Instruction::PushSmall(n) => n <= 40,
            _ => true,
        }
    }

    /// The wire opcode of this instruction. `PushSmall(n)` stands for the
    /// 41 dedicated one-byte pushes of the small constants `0 ..= 40`.
    pub open spec fn spec_as_u8(&self) -> u8 {
        match self {
            Instruction::Nop => 0,
            Instruction::Exit => 1,
            Instruction::SwapSites => 2,
            Instruction::SetSite => 3,
            Instruction::SetField(_) => 4,
            Instruction::SetSiteField(_) => 5,
            Instruction::GetSite => 6,
            Instruction::GetField(_) => 7,
            Instruction::GetSiteField(_) => 8,
            Instruction::GetSignedField(_) => 9,
            Instruction::GetSignedSiteField(_) => 10,
            Instruction::GetType(_) => 11,
            Instruction::GetParameter(_) => 12,
            Instruction::Scan => 13,
            Instruction::SaveSymmetries => 14,
            Instruction::UseSymmetries(_) => 15,
            Instruction::RestoreSymmetries => 16,
            Instruction::PushSmall(n) => (17 + (n % 41)) as u8,
            Instruction::Push(_) => 58,
            Instruction::Pop => 59,
            Instruction::Dup => 60,
            Instruction::Over => 61,
            Instruction::Swap => 62,
            Instruction::Rot => 63,
            Instruction::Call(_) => 64,
            Instruction::Ret => 65,
            Instruction::Checksum => 66,
            Instruction::Add => 67,
            Instruction::Sub => 68,
            Instruction::Neg => 69,
            Instruction::Mod => 70,
            Instruction::Mul => 71,
            Instruction::Div => 72,
            Instruction::Less => 73,
            Instruction::LessEqual => 74,
            Instruction::Or => 75,
            Instruction::And => 76,
            Instruction::Xor => 77,
            Instruction::Equal => 78,
            Instruction::BitCount => 79,
            Instruction::BitScanForward => 80,
            Instruction::BitScanReverse => 81,
            Instruction::LShift => 82,
            Instruction::RShift => 83,
            Instruction::Jump(_) => 84,
            Instruction::JumpRelativeOffset => 85,
            Instruction::JumpZero(_) => 86,
            Instruction::JumpNonZero(_) => 87,
            Instruction::SetPaint => 88,
            Instruction::GetPaint => 89,
            Instruction::Rand => 90,
        }
    }

    pub fn as_u8(&self) -> (r: u8)
        ensures
            r == self.spec_as_u8(),
    {
        match self {
            Instruction::Nop => 0,
            Instruction::Exit => 1,
            Instruction::SwapSites => 2,
            Instruction::SetSite => 3,
            Instruction::SetField(_) => 4,
            Instruction::SetSiteField(_) => 5,
            Instruction::GetSite => 6,
            Instruction::GetField(_) => 7,
            Instruction::GetSiteField(_) => 8,
            Instruction::GetSignedField(_) => 9,
            Instruction::GetSignedSiteField(_) => 10,
            Instruction::GetType(_) => 11,
            Instruction::GetParameter(_) => 12,
            Instruction::Scan => 13,
            Instruction::SaveSymmetries => 14,
            Instruction::UseSymmetries(_) => 15,
            Instruction::RestoreSymmetries => 16,
            Instruction::PushSmall(n) => 17 + (n % 41),
            Instruction::Push(_) => 58,
            Instruction::Pop => 59,
            Instruction::Dup => 60,
            Instruction::Over => 61,
            Instruction::Swap => 62,
            Instruction::Rot => 63,
            Instruction::Call(_) => 64,
            Instruction::Ret => 65,
            Instruction::Checksum => 66,
            Instruction::Add => 67,
            Instruction::Sub => 68,
            Instruction::Neg => 69,
            Instruction::Mod => 70,
            Instruction::Mul => 71,
            Instruction::Div => 72,
            Instruction::Less => 73,
            Instruction::LessEqual => 74,
            Instruction::Or => 75,
            Instruction::And => 76,
            Instruction::Xor => 77,
            Instruction::Equal => 78,
            Instruction::BitCount => 79,
            Instruction::BitScanForward => 80,
            Instruction::BitScanReverse => 81,
            Instruction::LShift => 82,
            Instruction::RShift => 83,
            Instruction::Jump(_) => 84,
            Instruction::JumpRelativeOffset => 85,
            Instruction::JumpZero(_) => 86,
            Instruction::JumpNonZero(_) => 87,
            Instruction::SetPaint => 88,
            Instruction::GetPaint => 89,
            Instruction::Rand => 90,
        }
    }
}

/// A parsed source file: metadata directives, then labels and instructions.
#[derive(Clone, Debug)]
pub struct File {
    pub header: Vec<Node>,
    pub body: Vec<Node>,
}

} // verus!
