//! The compiler's writer half: symbol resolution over a parsed file and
//! emission of the binary object image.

use crate::arith::Const;
use crate::ast::Arg;
use crate::ast::File;
use crate::ast::Instruction;
use crate::ast::Metadata;
use crate::ast::Node;
use crate::base::FieldSelector;
use crate::color::Color;
use crate::color::ParseColorError;
use crate::object::canon96;
use crate::object::enc_object;
use crate::object::Instr;
use crate::object::MetaRecord;
use crate::object::ObjectFile;
use vstd::prelude::*;

verus! {

/// Everything that can go wrong while compiling one unit.
#[derive(Clone, Debug)]
pub enum CompileError {
    IOError,
    ParseError,
    ParseColorError(ParseColorError),
    InternalError,
    InternalUnexpectedNodeType,
    InternalUnexpectedArgsCount,
    InternalUnexpectedArgType,
    MaxCodeSize,
    /// A field, type, parameter or label name that no directive bound.
    UnknownName,
}

/// The association of names to values that the symbol tables carry;
/// a later binding of the same name wins.
pub open spec fn amap<V>(s: Seq<(Vec<u8>, V)>) -> Map<Seq<u8>, V>
    decreases s.len(),
{
    if s.len() == 0 {
        Map::empty()
    } else {
        amap(s.drop_last()).insert(s.last().0@, s.last().1)
    }
}

/// No name appears twice in the table.
pub open spec fn akeys_unique<V>(s: Seq<(Vec<u8>, V)>) -> bool {
    forall|i: int, j: int| 0 <= i < j < s.len() ==> s[i].0@ != s[j].0@
}

/// Looks a name up in a table.
fn aget<V: Copy>(m: &Vec<(Vec<u8>, V)>, k: &Vec<u8>) -> (r: Option<V>)
    ensures
        r == (if amap(m@).contains_key(k@) {
            Some(amap(m@)[k@])
        } else {
            None::<V>
        }),
{
    let n = m.len();
    proof {
        assert(m@.take(n as int) =~= m@);
    }
    let mut i: usize = n;
    while i > 0
        invariant
            i <= n,
            n == m@.len(),
            !amap(m@.take(i as int)).contains_key(k@) ==> !amap(m@).contains_key(k@),
            amap(m@.take(i as int)).contains_key(k@) ==> amap(m@).contains_key(k@) && amap(
                m@.take(i as int),
            )[k@] == amap(m@)[k@],
        decreases i,
    {
        i = i - 1;
        proof {
            assert(m@.take(i + 1).drop_last() =~= m@.take(i as int));
        }
        if bytes_eq_vec(&m[i].0, k) {
            proof {
                assert(amap(m@.take(i + 1)).contains_key(k@) && amap(m@.take(i + 1))[k@]
                    == m@[i as int].1);
            }
            return Some(m[i].1);
        }
    }
    proof {
        assert(m@.take(0) =~= Seq::<(Vec<u8>, V)>::empty());
    }
    None
}

/// Binds a name, overwriting an earlier binding in place so that the table
/// length counts distinct names.
fn aput<V: Copy>(m: &mut Vec<(Vec<u8>, V)>, k: Vec<u8>, v: V)
    requires
        akeys_unique(old(m)@),
    ensures
        akeys_unique(final(m)@),
        amap(final(m)@) == amap(old(m)@).insert(k@, v),
        final(m)@.len() == old(m)@.len() + (if amap(old(m)@).contains_key(k@) {
            0int
        } else {
            1int
        }),
{
    let n = m.len();
    let mut i: usize = 0;
    while i < n
        invariant
            i <= n,
            n == m@.len(),
            m@ == old(m)@,
            akeys_unique(m@),
            forall|j: int| 0 <= j < i ==> m@[j].0@ != k@,
        decreases n - i,
    {
        if bytes_eq_vec(&m[i].0, &k) {
            proof {
                lemma_amap_present(m@, i as int);
            }
            m.set(i, (k, v));
            proof {
                lemma_amap_update(old(m)@, m@, i as int, k@, v);
            }
            return ;
        }
        i += 1;
    }
    proof {
        lemma_amap_absent(m@, k@);
        assert(m@.push((k, v)).drop_last() =~= m@);
    }
    m.push((k, v));
}

/// A name bound at some entry is present in the map.
proof fn lemma_amap_present<V>(s: Seq<(Vec<u8>, V)>, i: int)
    requires
        0 <= i < s.len(),
    ensures
        amap(s).contains_key(s[i].0@),
    decreases s.len(),
{
    if i < s.len() - 1 {
        lemma_amap_present(s.drop_last(), i);
    }
}

/// A name bound nowhere in the table is absent from its map.
proof fn lemma_amap_absent<V>(s: Seq<(Vec<u8>, V)>, k: Seq<u8>)
    requires
        forall|j: int| 0 <= j < s.len() ==> s[j].0@ != k,
    ensures
        !amap(s).contains_key(k),
    decreases s.len(),
{
    if s.len() > 0 {
        lemma_amap_absent(s.drop_last(), k);
    }
}

/// Overwriting one entry in place updates the map like an insert, when the
/// keys are unique.
proof fn lemma_amap_update<V>(s0: Seq<(Vec<u8>, V)>, s1: Seq<(Vec<u8>, V)>, i: int, k: Seq<u8>, v: V)
    requires
        akeys_unique(s0),
        0 <= i < s0.len(),
        s0[i].0@ == k,
        s1.len() == s0.len(),
        s1[i].0@ == k,
        s1[i].1 == v,
        forall|j: int| 0 <= j < s0.len() && j != i ==> s1[j] == s0[j],
    ensures
        amap(s1) == amap(s0).insert(k, v),
        akeys_unique(s1),
    decreases s0.len(),
{
    if s0.len() > 0 {
        if i == s0.len() - 1 {
            assert(s1.drop_last() =~= s0.drop_last());
            assert(amap(s1) =~= amap(s0).insert(k, v));
        } else {
            lemma_amap_update(s0.drop_last(), s1.drop_last(), i, k, v);
            assert(s0.last().0@ != k);
            assert(s1.last() == s0.last());
            assert(amap(s1) =~= amap(s0).insert(k, v));
        }
    }
}

/// Byte-for-byte equality of two byte vectors.
fn bytes_eq_vec(a: &Vec<u8>, b: &Vec<u8>) -> (r: bool)
    ensures
        r == (a@ == b@),
{
    crate::runtime::bytes_eq(a, b)
}

/// The name the `.name` directive also binds to the fresh type id.
pub open spec fn self_name() -> Seq<u8> {
    seq![0x53u8, 0x65u8, 0x6cu8, 0x66u8]
}

/// The result of indexing the header directives: the grown type table and
/// its distinct count, and the constant and field tables of this unit.
pub open spec fn pass1(
    h: Seq<Node>,
    tm0: Map<Seq<u8>, u16>,
    n0: int,
    cm0: Map<Seq<u8>, Const>,
    fm0: Map<Seq<u8>, FieldSelector>,
) -> Option<(Map<Seq<u8>, u16>, int, Map<Seq<u8>, Const>, Map<Seq<u8>, FieldSelector>)>
    decreases h.len(),
{
    if h.len() == 0 {
        Some((tm0, n0, cm0, fm0))
    } else {
        match pass1(h.drop_last(), tm0, n0, cm0, fm0) {
            None => None,
            Some((tm, n, cm, fm)) => match h.last() {
                Node::Metadata(m) => match m {
                    Metadata::Name(s) => {
                        let id = (n % 0x10000) as u16;
                        let n1 = n + (if tm.contains_key(s@) {
                            0int
                        } else {
                            1int
                        });
                        let tm1 = tm.insert(s@, id);
                        let n2 = n1 + (if tm1.contains_key(self_name()) {
                            0int
                        } else {
                            1int
                        });
                        Some((tm1.insert(self_name(), id), n2, cm, fm))
                    },
                    Metadata::Parameter(s, c) => Some((tm, n, cm.insert(s@, c), fm)),
                    Metadata::Field(s, f) => Some((tm, n, cm, fm.insert(s@, f))),
                    _ => Some((tm, n, cm, fm)),
                },
                _ => None,
            },
        }
    }
}

/// The result of indexing the body: the label table and the instruction
/// count.
pub open spec fn pass2(body: Seq<Node>, lm0: Map<Seq<u8>, u16>, ln0: int) -> Option<
    (Map<Seq<u8>, u16>, int),
>
    decreases body.len(),
{
    if body.len() == 0 {
        Some((lm0, ln0))
    } else {
        match pass2(body.drop_last(), lm0, ln0) {
            None => None,
            Some((lm, ln)) => match body.last() {
                Node::Label(s) => Some((lm.insert(s@, ln as u16), ln)),
                Node::Instruction(_) => Some((lm, ln + 1)),
                Node::Metadata(_) => None,
            },
        }
    }
}

/// One metadata directive in its wire form: color strings become their
/// 32-bit values and parameter constants fold to the 96-bit canonical
/// range.
pub open spec fn resolve_meta_spec(m: Metadata) -> Result<
    MetaRecord,
    CompileError,
> {
    match m {
        Metadata::Name(s) => if s@.len() > 255 || !vstd::utf8::valid_utf8(s@) {
            Err(CompileError::InternalError)
        } else {
            Ok(MetaRecord::Name(s))
        },
        Metadata::Symbol(s) => if s@.len() > 255 || !vstd::utf8::valid_utf8(s@) {
            Err(CompileError::InternalError)
        } else {
            Ok(MetaRecord::Symbol(s))
        },
        Metadata::Desc(s) => if s@.len() > 255 || !vstd::utf8::valid_utf8(s@) {
            Err(CompileError::InternalError)
        } else {
            Ok(MetaRecord::Desc(s))
        },
        Metadata::Author(s) => if s@.len() > 255 || !vstd::utf8::valid_utf8(s@) {
            Err(CompileError::InternalError)
        } else {
            Ok(MetaRecord::Author(s))
        },
        Metadata::License(s) => if s@.len() > 255 || !vstd::utf8::valid_utf8(s@) {
            Err(CompileError::InternalError)
        } else {
            Ok(MetaRecord::License(s))
        },
        Metadata::Radius(x) => Ok(MetaRecord::Radius(x)),
        Metadata::BgColor(s) => match Color::spec_of_hex(Color::spec_digits(s@)) {
            Ok(v) => Ok(MetaRecord::BgColor(v)),
            Err(e) => Err(CompileError::ParseColorError(e)),
        },
        Metadata::FgColor(s) => match Color::spec_of_hex(Color::spec_digits(s@)) {
            Ok(v) => Ok(MetaRecord::FgColor(v)),
            Err(e) => Err(CompileError::ParseColorError(e)),
        },
        Metadata::Symmetries(s) => Ok(MetaRecord::Symmetries(s)),
        Metadata::Field(s, f) => if s@.len() > 255 || !vstd::utf8::valid_utf8(s@) {
            Err(CompileError::InternalError)
        } else {
            Ok(MetaRecord::Field(s, f))
        },
        Metadata::Parameter(s, c) => if s@.len() > 255 || !vstd::utf8::valid_utf8(s@) {
            Err(CompileError::InternalError)
        } else {
            Ok(MetaRecord::Parameter(s, crate::object::spec_canon96(c)))
        },
    }
}

/// A name argument resolved through a table.
pub open spec fn resolve_arg<V>(a: Arg<Vec<u8>, V>, m: Map<Seq<u8>, V>) -> Result<V, CompileError> {
    match a {
        Arg::Ast(s) => if m.contains_key(s@) {
            Ok(m[s@])
        } else {
            Err(CompileError::UnknownName)
        },
        Arg::Runtime(v) => Ok(v),
    }
}

/// One instruction in its wire form: every name argument resolved through
/// the tables built by the two indexing passes.
pub open spec fn resolve_instr_spec(
    i: Instruction,
    tm: Map<Seq<u8>, u16>,
    lm: Map<Seq<u8>, u16>,
    cm: Map<Seq<u8>, Const>,
    fm: Map<Seq<u8>, FieldSelector>,
) -> Result<Instr, CompileError> {
    match i {
        Instruction::Nop => Ok(Instr::Nop),
        Instruction::Exit => Ok(Instr::Exit),
        Instruction::SwapSites => Ok(Instr::SwapSites),
        Instruction::SetSite => Ok(Instr::SetSite),
        Instruction::SetField(a) => match resolve_arg(a, fm) {
            Ok(f) => Ok(Instr::SetField(f)),
            Err(e) => Err(e),
        },
        Instruction::SetSiteField(a) => match resolve_arg(a, fm) {
            Ok(f) => Ok(Instr::SetSiteField(f)),
            Err(e) => Err(e),
        },
        Instruction::GetSite => Ok(Instr::GetSite),
        Instruction::GetField(a) => match resolve_arg(a, fm) {
            Ok(f) => Ok(Instr::GetField(f)),
            Err(e) => Err(e),
        },
        Instruction::GetSiteField(a) => match resolve_arg(a, fm) {
            Ok(f) => Ok(Instr::GetSiteField(f)),
            Err(e) => Err(e),
        },
        Instruction::GetSignedField(a) => match resolve_arg(a, fm) {
            Ok(f) => Ok(Instr::GetSignedField(f)),
            Err(e) => Err(e),
        },
        Instruction::GetSignedSiteField(a) => match resolve_arg(a, fm) {
            Ok(f) => Ok(Instr::GetSignedSiteField(f)),
            Err(e) => Err(e),
        },
        Instruction::GetType(a) => match resolve_arg(a, tm) {
            Ok(t) => Ok(Instr::GetType(t)),
            Err(e) => Err(e),
        },
        Instruction::GetParameter(a) => match resolve_arg(a, cm) {
            Ok(c) => Ok(Instr::GetParameter(crate::object::spec_canon96(c))),
            Err(e) => Err(e),
        },
        Instruction::Scan => Ok(Instr::Scan),
        Instruction::SaveSymmetries => Ok(Instr::SaveSymmetries),
        Instruction::UseSymmetries(s) => Ok(Instr::UseSymmetries(s)),
        Instruction::RestoreSymmetries => Ok(Instr::RestoreSymmetries),
        Instruction::PushSmall(n) => Ok(Instr::PushSmall((n % 41) as u8)),
        Instruction::Push(c) => Ok(Instr::Push(crate::object::spec_canon96(c))),
        Instruction::Pop => Ok(Instr::Pop),
        Instruction::Dup => Ok(Instr::Dup),
        Instruction::Over => Ok(Instr::Over),
        Instruction::Swap => Ok(Instr::Swap),
        Instruction::Rot => Ok(Instr::Rot),
        Instruction::Call(a) => match resolve_arg(a, lm) {
            Ok(t) => Ok(Instr::Call(t)),
            Err(e) => Err(e),
        },
        Instruction::Ret => Ok(Instr::Ret),
        Instruction::Checksum => Ok(Instr::Checksum),
        Instruction::Add => Ok(Instr::Add),
        Instruction::Sub => Ok(Instr::Sub),
        Instruction::Neg => Ok(Instr::Neg),
        Instruction::Mod => Ok(Instr::Mod),
        Instruction::Mul => Ok(Instr::Mul),
        Instruction::Div => Ok(Instr::Div),
        Instruction::Less => Ok(Instr::Less),
        Instruction::LessEqual => Ok(Instr::LessEqual),
        Instruction::Or => Ok(Instr::Or),
        Instruction::And => Ok(Instr::And),
        Instruction::Xor => Ok(Instr::Xor),
        Instruction::Equal => Ok(Instr::Equal),
        Instruction::BitCount => Ok(Instr::BitCount),
        Instruction::BitScanForward => Ok(Instr::BitScanForward),
        Instruction::BitScanReverse => Ok(Instr::BitScanReverse),
        Instruction::LShift => Ok(Instr::LShift),
        Instruction::RShift => Ok(Instr::RShift),
        Instruction::Jump(a) => match resolve_arg(a, lm) {
            Ok(t) => Ok(Instr::Jump(t)),
            Err(e) => Err(e),
        },
        Instruction::JumpRelativeOffset => Ok(Instr::JumpRelativeOffset),
        Instruction::JumpZero(a) => match resolve_arg(a, lm) {
            Ok(t) => Ok(Instr::JumpZero(t)),
            Err(e) => Err(e),
        },
        Instruction::JumpNonZero(a) => match resolve_arg(a, lm) {
            Ok(t) => Ok(Instr::JumpNonZero(t)),
            Err(e) => Err(e),
        },
        Instruction::SetPaint => Ok(Instr::SetPaint),
        Instruction::GetPaint => Ok(Instr::GetPaint),
        Instruction::Rand => Ok(Instr::Rand),
    }
}

/// The wire form of every header directive, in order.
pub open spec fn resolve_header(h: Seq<Node>) -> Result<
    Seq<MetaRecord>,
    CompileError,
>
    decreases h.len(),
{
    if h.len() == 0 {
        Ok(Seq::empty())
    } else {
        match resolve_header(h.drop_last()) {
            Err(e) => Err(e),
            Ok(rs) => match h.last() {
                Node::Metadata(m) => match resolve_meta_spec(m) {
                    Ok(r) => Ok(rs.push(r)),
                    Err(e) => Err(e),
                },
                _ => Err(CompileError::InternalUnexpectedNodeType),
            },
        }
    }
}

/// The wire form of every instruction of the body, in order, labels
/// dropped.
pub open spec fn resolve_body(
    body: Seq<Node>,
    tm: Map<Seq<u8>, u16>,
    lm: Map<Seq<u8>, u16>,
    cm: Map<Seq<u8>, Const>,
    fm: Map<Seq<u8>, FieldSelector>,
) -> Result<Seq<Instr>, CompileError>
    decreases body.len(),
{
    if body.len() == 0 {
        Ok(Seq::empty())
    } else {
        match resolve_body(body.drop_last(), tm, lm, cm, fm) {
            Err(e) => Err(e),
            Ok(is) => match body.last() {
                Node::Label(_) => Ok(is),
                Node::Instruction(i) => match resolve_instr_spec(i, tm, lm, cm, fm) {
                    Ok(r) => Ok(is.push(r)),
                    Err(e) => Err(e),
                },
                Node::Metadata(_) => Err(CompileError::InternalUnexpectedNodeType),
            },
        }
    }
}

/// The three standard field selectors every unit starts with.
pub open spec fn base_fields() -> Map<Seq<u8>, FieldSelector> {
    Map::empty().insert(
        seq![0x74u8, 0x79u8, 0x70u8, 0x65u8],
        FieldSelector { offset: 80u8, length: 16u8 },
    ).insert(
        seq![0x68u8, 0x65u8, 0x61u8, 0x64u8, 0x65u8, 0x72u8],
        FieldSelector { offset: 71u8, length: 25u8 },
    ).insert(seq![0x64u8, 0x61u8, 0x74u8, 0x61u8], FieldSelector { offset: 0u8, length: 71u8 })
}

/// The one resolved record a header node stands for.
pub open spec fn meta_rec_matches(m: Metadata, r: MetaRecord) -> bool {
    match (m, r) {
        (Metadata::Name(s), MetaRecord::Name(t)) => t@ == s@,
        (Metadata::Symbol(s), MetaRecord::Symbol(t)) => t@ == s@,
        (Metadata::Desc(s), MetaRecord::Desc(t)) => t@ == s@,
        (Metadata::Author(s), MetaRecord::Author(t)) => t@ == s@,
        (Metadata::License(s), MetaRecord::License(t)) => t@ == s@,
        (Metadata::Radius(x), MetaRecord::Radius(y)) => x == y,
        (Metadata::BgColor(s), MetaRecord::BgColor(v)) => Color::spec_of_hex(
            Color::spec_digits(s@),
        ) == Ok::<u32, ParseColorError>(v),
        (Metadata::FgColor(s), MetaRecord::FgColor(v)) => Color::spec_of_hex(
            Color::spec_digits(s@),
        ) == Ok::<u32, ParseColorError>(v),
        (Metadata::Symmetries(x), MetaRecord::Symmetries(y)) => x == y,
        (Metadata::Field(s, f), MetaRecord::Field(t, g)) => t@ == s@ && g == f,
        (Metadata::Parameter(s, c), MetaRecord::Parameter(t, d)) => t@ == s@ && d
            == crate::object::spec_canon96(c),
        _ => false,
    }
}

/// Every header node resolved to its record, in order.
pub open spec fn resolve_header_rel(h: Seq<Node>, out: Seq<MetaRecord>) -> bool {
    &&& out.len() == h.len()
    &&& forall|i: int|
        0 <= i < h.len() ==> ((#[trigger] h[i]) is Metadata && meta_rec_matches(
            h[i]->Metadata_0,
            out[i],
        ))
}

/// What a successful compilation produced: the indexing passes went
/// through, the object's type id is the one `Self` ended bound to, its
/// header and code are the resolved forms of the file's, and the wire
/// constraints hold.
pub open spec fn compiled_object_matches(
    o: ObjectFile,
    header: Seq<Node>,
    body: Seq<Node>,
    tm0: Map<Seq<u8>, u16>,
    n0: int,
    tag: Seq<u8>,
) -> bool {
    &&& pass1(header, tm0, n0, Map::empty(), base_fields()) matches Some((tm, n, cm, fm)) && {
        &&& tm.contains_key(self_name())
        &&& o.type_num == tm[self_name()]
        &&& pass2(body, Map::empty(), 0) matches Some((lm, ln)) && {
            &&& resolve_body(body, tm, lm, cm, fm) == Ok::<Seq<Instr>, CompileError>(o.code@)
            &&& o.code@.len() == ln
        }
    }
    &&& resolve_header_rel(header, o.header@)
    &&& o.build_tag@ == tag
    &&& o.code_index_count == 0
    &&& o.wf()
    &&& o.utf8_ok()
}

/// A file the compiler owes an object for: every directive indexes and
/// resolves, every label and instruction indexes and resolves, and the
/// `Self` alias ended bound.
pub open spec fn compile_ok(
    header: Seq<Node>,
    body: Seq<Node>,
    tm0: Map<Seq<u8>, u16>,
    n0: int,
) -> bool {
    &&& pass1(header, tm0, n0, Map::empty(), base_fields()) matches Some(t4) && {
        &&& t4.0.contains_key(self_name())
        &&& pass2(body, Map::empty(), 0) matches Some(p2) && resolve_body(
            body,
            t4.0,
            p2.0,
            t4.2,
            t4.3,
        ) is Ok
    }
    &&& resolve_header(header) is Ok
}

/// A failed prefix fails the whole first pass.
proof fn lemma_pass1_none(
    h: Seq<Node>,
    j: int,
    tm0: Map<Seq<u8>, u16>,
    n0: int,
    cm0: Map<Seq<u8>, Const>,
    fm0: Map<Seq<u8>, FieldSelector>,
)
    requires
        0 <= j <= h.len(),
        pass1(h.take(j), tm0, n0, cm0, fm0) is None,
    ensures
        pass1(h, tm0, n0, cm0, fm0) is None,
    decreases h.len() - j,
{
    if j < h.len() {
        assert(h.take(j + 1).drop_last() =~= h.take(j));
        lemma_pass1_none(h, j + 1, tm0, n0, cm0, fm0);
    } else {
        assert(h.take(j) =~= h);
    }
}

/// A failed prefix fails the whole second pass.
proof fn lemma_pass2_none(body: Seq<Node>, j: int, lm0: Map<Seq<u8>, u16>, ln0: int)
    requires
        0 <= j <= body.len(),
        pass2(body.take(j), lm0, ln0) is None,
    ensures
        pass2(body, lm0, ln0) is None,
    decreases body.len() - j,
{
    if j < body.len() {
        assert(body.take(j + 1).drop_last() =~= body.take(j));
        lemma_pass2_none(body, j + 1, lm0, ln0);
    } else {
        assert(body.take(j) =~= body);
    }
}

/// One unresolvable directive fails the whole header resolution.
proof fn lemma_resolve_header_err(h: Seq<Node>, i: int)
    requires
        0 <= i < h.len(),
        match h[i] {
            Node::Metadata(m) => resolve_meta_spec(m) is Err,
            _ => true,
        },
    ensures
        resolve_header(h) is Err,
    decreases h.len(),
{
    if i < h.len() - 1 {
        lemma_resolve_header_err(h.drop_last(), i);
        assert(h.drop_last()[i] == h[i]);
    }
}

/// One unresolvable body node fails the whole body resolution.
proof fn lemma_resolve_body_err(
    body: Seq<Node>,
    i: int,
    tm: Map<Seq<u8>, u16>,
    lm: Map<Seq<u8>, u16>,
    cm: Map<Seq<u8>, Const>,
    fm: Map<Seq<u8>, FieldSelector>,
)
    requires
        0 <= i < body.len(),
        match body[i] {
            Node::Instruction(instr) => resolve_instr_spec(instr, tm, lm, cm, fm) is Err,
            Node::Metadata(_) => true,
            Node::Label(_) => false,
        },
    ensures
        resolve_body(body, tm, lm, cm, fm) is Err,
    decreases body.len(),
{
    if i < body.len() - 1 {
        lemma_resolve_body_err(body.drop_last(), i, tm, lm, cm, fm);
        assert(body.drop_last()[i] == body[i]);
    }
}

/// A record name the wire cannot carry: over the one-byte length prefix
/// or not well-formed UTF-8.
pub open spec fn meta_name_bad(m: Metadata) -> bool {
    match m {
        Metadata::Name(s) => s@.len() > 255 || !vstd::utf8::valid_utf8(s@),
        Metadata::Symbol(s) => s@.len() > 255 || !vstd::utf8::valid_utf8(s@),
        Metadata::Desc(s) => s@.len() > 255 || !vstd::utf8::valid_utf8(s@),
        Metadata::Author(s) => s@.len() > 255 || !vstd::utf8::valid_utf8(s@),
        Metadata::License(s) => s@.len() > 255 || !vstd::utf8::valid_utf8(s@),
        Metadata::Field(s, _) => s@.len() > 255 || !vstd::utf8::valid_utf8(s@),
        Metadata::Parameter(s, _) => s@.len() > 255 || !vstd::utf8::valid_utf8(s@),
        _ => false,
    }
}

/// A color directive whose text fails to parse with the given error.
pub open spec fn meta_color_err(m: Metadata, e: ParseColorError) -> bool {
    match m {
        Metadata::BgColor(s) => Color::spec_of_hex(Color::spec_digits(s@)) == Err::<
            u32,
            ParseColorError,
        >(e),
        Metadata::FgColor(s) => Color::spec_of_hex(Color::spec_digits(s@)) == Err::<
            u32,
            ParseColorError,
        >(e),
        _ => false,
    }
}

/// The only error symbol resolution produces is an unknown name.
proof fn lemma_resolve_instr_err(
    i: Instruction,
    tm: Map<Seq<u8>, u16>,
    lm: Map<Seq<u8>, u16>,
    cm: Map<Seq<u8>, Const>,
    fm: Map<Seq<u8>, FieldSelector>,
)
    ensures
        resolve_instr_spec(i, tm, lm, cm, fm) matches Err(e) ==> e == CompileError::UnknownName,
{
}

/// The compiler: the build tag it stamps into every object and the type
/// name table that grows across the units it compiles.
pub struct Compiler {
    pub build_tag: Vec<u8>,
    pub type_map: Vec<(Vec<u8>, u16)>,
}

impl Compiler {
    /// The type table is a well-formed name table and the build tag fits
    /// the wire's one-byte length prefix.
    pub open spec fn wf(&self) -> bool {
        akeys_unique(self.type_map@) && self.build_tag@.len() <= 255
    }

    /// The bindings the type table holds.
    pub open spec fn types(&self) -> Map<Seq<u8>, u16> {
        amap(self.type_map@)
    }

    /// The number of distinct type names bound so far.
    pub open spec fn type_count(&self) -> int {
        self.type_map@.len() as int
    }

    /// A fresh compiler with the given build tag and the implicit `Empty`
    /// element bound to type id 0.
    pub fn new(build_tag: Vec<u8>) -> (r: Compiler)
        requires
            build_tag@.len() <= 255,
        ensures
            r.wf(),
            r.build_tag@ == build_tag@,
            r.types() == Map::<Seq<u8>, u16>::empty().insert(
                seq![0x45u8, 0x6du8, 0x70u8, 0x74u8, 0x79u8],
                0u16,
            ),
            r.type_count() == 1,
    {
        Compiler { build_tag, type_map: Compiler::new_type_map() }
    }

    /// A fresh type table holding only the implicit `Empty` binding.
    pub fn new_type_map() -> (r: Vec<(Vec<u8>, u16)>)
        ensures
            akeys_unique(r@),
            amap(r@) == Map::<Seq<u8>, u16>::empty().insert(
                seq![0x45u8, 0x6du8, 0x70u8, 0x74u8, 0x79u8],
                0u16,
            ),
            r@.len() == 1,
    {
        let mut type_map: Vec<(Vec<u8>, u16)> = Vec::new();
        proof {
            assert(amap(type_map@) =~= Map::<Seq<u8>, u16>::empty());
        }
        let name = vec![0x45u8, 0x6du8, 0x70u8, 0x74u8, 0x79u8];
        proof {
            assert(name@ =~= seq![0x45u8, 0x6du8, 0x70u8, 0x74u8, 0x79u8]);
        }
        aput(&mut type_map, name, 0);
        type_map
    }

    /// A fresh field table holding the standard `type`, `header` and
    /// `data` selectors.
    pub fn new_field_map() -> (r: Vec<(Vec<u8>, FieldSelector)>)
        ensures
            akeys_unique(r@),
            amap(r@) == base_fields(),
    {
        let mut m: Vec<(Vec<u8>, FieldSelector)> = Vec::new();
        proof {
            assert(amap(m@) =~= Map::<Seq<u8>, FieldSelector>::empty());
        }
        let tn = vec![0x74u8, 0x79u8, 0x70u8, 0x65u8];
        let hn = vec![0x68u8, 0x65u8, 0x61u8, 0x64u8, 0x65u8, 0x72u8];
        let dn = vec![0x64u8, 0x61u8, 0x74u8, 0x61u8];
        proof {
            assert(tn@ =~= seq![0x74u8, 0x79u8, 0x70u8, 0x65u8]);
            assert(hn@ =~= seq![0x68u8, 0x65u8, 0x61u8, 0x64u8, 0x65u8, 0x72u8]);
            assert(dn@ =~= seq![0x64u8, 0x61u8, 0x74u8, 0x61u8]);
        }
        aput(&mut m, tn, FieldSelector::sel_type());
        aput(&mut m, hn, FieldSelector::sel_header());
        aput(&mut m, dn, FieldSelector::sel_data());
        m
    }
}

/// The byte name `Self`.
fn self_name_vec() -> (r: Vec<u8>)
    ensures
        r@ == self_name(),
{
    let v = vec![0x53u8, 0x65u8, 0x6cu8, 0x66u8];
    proof {
        assert(v@ =~= self_name());
    }
    v
}

/// Applies one header directive to the symbol tables: `.name` binds a
/// fresh type id (and `Self`), `.parameter` and `.field` bind their name,
/// everything else binds nothing. A non-directive node is refused.
fn index_metadata_node(
    n: &Node,
    type_map: &mut Vec<(Vec<u8>, u16)>,
    const_map: &mut Vec<(Vec<u8>, Const)>,
    field_map: &mut Vec<(Vec<u8>, FieldSelector)>,
) -> (r: Result<(), CompileError>)
    requires
        akeys_unique(old(type_map)@),
        akeys_unique(old(const_map)@),
        akeys_unique(old(field_map)@),
    ensures
        akeys_unique(final(type_map)@),
        akeys_unique(final(const_map)@),
        akeys_unique(final(field_map)@),
        (match *n {
            Node::Metadata(m) => r is Ok && ({
                let tm = amap(old(type_map)@);
                let n0 = old(type_map)@.len() as int;
                match m {
                    Metadata::Name(s) => {
                        let id = (n0 % 0x10000) as u16;
                        let n1 = n0 + (if tm.contains_key(s@) {
                            0int
                        } else {
                            1int
                        });
                        let tm1 = tm.insert(s@, id);
                        let n2 = n1 + (if tm1.contains_key(self_name()) {
                            0int
                        } else {
                            1int
                        });
                        &&& amap(final(type_map)@) == tm1.insert(self_name(), id)
                        &&& final(type_map)@.len() == n2
                        &&& *final(const_map) == *old(const_map)
                        &&& *final(field_map) == *old(field_map)
                    },
                    Metadata::Parameter(s, c) => amap(final(const_map)@) == amap(
                        old(const_map)@,
                    ).insert(s@, c) && *final(type_map) == *old(type_map) && *final(field_map)
                        == *old(field_map),
                    Metadata::Field(s, f) => amap(final(field_map)@) == amap(
                        old(field_map)@,
                    ).insert(s@, f) && *final(type_map) == *old(type_map) && *final(const_map)
                        == *old(const_map),
                    _ => *final(type_map) == *old(type_map) && *final(const_map) == *old(const_map)
                        && *final(field_map) == *old(field_map),
                }
            }),
            _ => r == Err::<(), CompileError>(CompileError::InternalUnexpectedNodeType)
                && *final(type_map) == *old(type_map) && *final(const_map) == *old(const_map)
                && *final(field_map) == *old(field_map),
        }),
{
    match n {
        Node::Metadata(m) => {
            match m {
                Metadata::Name(s) => {
                    let id = (type_map.len() % 0x10000) as u16;
                    aput(type_map, s.clone(), id);
                    aput(type_map, self_name_vec(), id);
                },
                Metadata::Parameter(s, c) => {
                    aput(const_map, s.clone(), *c);
                },
                Metadata::Field(s, f) => {
                    aput(field_map, s.clone(), *f);
                },
                _ => {},
            }
            Ok(())
        },
        _ => Err(CompileError::InternalUnexpectedNodeType),
    }
}

/// Counts one body node: a label binds the index of the next instruction,
/// an instruction advances that index. A directive in the body is refused.
fn index_code_node(ln: &mut u16, n: &Node, label_map: &mut Vec<(Vec<u8>, u16)>) -> (r: Result<
    (),
    CompileError,
>)
    requires
        akeys_unique(old(label_map)@),
        *old(ln) < 0xFFFF,
    ensures
        akeys_unique(final(label_map)@),
        (match *n {
            Node::Metadata(_) => r == Err::<(), CompileError>(CompileError::InternalUnexpectedNodeType)
                && *final(label_map) == *old(label_map) && *final(ln) == *old(ln),
            Node::Label(s) => r is Ok && amap(final(label_map)@) == amap(old(label_map)@).insert(
                s@,
                *old(ln),
            ) && *final(ln) == *old(ln),
            Node::Instruction(_) => r is Ok && *final(label_map) == *old(label_map) && *final(ln)
                == *old(ln) + 1,
        }),
{
    match n {
        Node::Label(s) => {
            aput(label_map, s.clone(), *ln);
            Ok(())
        },
        Node::Instruction(_) => {
            *ln = *ln + 1;
            Ok(())
        },
        Node::Metadata(_) => Err(CompileError::InternalUnexpectedNodeType),
    }
}

/// Resolves one name argument through its table.
fn resolve_in<V: Copy>(a: &Arg<Vec<u8>, V>, m: &Vec<(Vec<u8>, V)>) -> (r: Result<V, CompileError>)
    ensures
        r == resolve_arg(*a, amap(m@)),
{
    match a {
        Arg::Ast(s) => match aget(m, s) {
            Some(v) => Ok(v),
            None => Err(CompileError::UnknownName),
        },
        Arg::Runtime(v) => Ok(*v),
    }
}

/// Resolves one instruction to its wire form.
fn resolve_instruction(
    i: &Instruction,
    type_map: &Vec<(Vec<u8>, u16)>,
    label_map: &Vec<(Vec<u8>, u16)>,
    const_map: &Vec<(Vec<u8>, Const)>,
    field_map: &Vec<(Vec<u8>, FieldSelector)>,
) -> (r: Result<Instr, CompileError>)
    ensures
        r == resolve_instr_spec(*i, amap(type_map@), amap(label_map@), amap(const_map@), amap(field_map@)),
{
    match i {
        Instruction::Nop => Ok(Instr::Nop),
        Instruction::Exit => Ok(Instr::Exit),
        Instruction::SwapSites => Ok(Instr::SwapSites),
        Instruction::SetSite => Ok(Instr::SetSite),
        Instruction::SetField(a) => match resolve_in(a, field_map) {
            Ok(f) => Ok(Instr::SetField(f)),
            Err(e) => Err(e),
        },
        Instruction::SetSiteField(a) => match resolve_in(a, field_map) {
            Ok(f) => Ok(Instr::SetSiteField(f)),
            Err(e) => Err(e),
        },
        Instruction::GetSite => Ok(Instr::GetSite),
        Instruction::GetField(a) => match resolve_in(a, field_map) {
            Ok(f) => Ok(Instr::GetField(f)),
            Err(e) => Err(e),
        },
        Instruction::GetSiteField(a) => match resolve_in(a, field_map) {
            Ok(f) => Ok(Instr::GetSiteField(f)),
            Err(e) => Err(e),
        },
        Instruction::GetSignedField(a) => match resolve_in(a, field_map) {
            Ok(f) => Ok(Instr::GetSignedField(f)),
            Err(e) => Err(e),
        },
        Instruction::GetSignedSiteField(a) => match resolve_in(a, field_map) {
            Ok(f) => Ok(Instr::GetSignedSiteField(f)),
            Err(e) => Err(e),
        },
        Instruction::GetType(a) => match resolve_in(a, type_map) {
            Ok(t) => Ok(Instr::GetType(t)),
            Err(e) => Err(e),
        },
        Instruction::GetParameter(a) => match resolve_in(a, const_map) {
            Ok(c) => Ok(Instr::GetParameter(canon96(c))),
            Err(e) => Err(e),
        },
        Instruction::Scan => Ok(Instr::Scan),
        Instruction::SaveSymmetries => Ok(Instr::SaveSymmetries),
        Instruction::UseSymmetries(s) => Ok(Instr::UseSymmetries(*s)),
        Instruction::RestoreSymmetries => Ok(Instr::RestoreSymmetries),
        Instruction::PushSmall(n) => Ok(Instr::PushSmall(n % 41)),
        Instruction::Push(c) => Ok(Instr::Push(canon96(*c))),
        Instruction::Pop => Ok(Instr::Pop),
        Instruction::Dup => Ok(Instr::Dup),
        Instruction::Over => Ok(Instr::Over),
        Instruction::Swap => Ok(Instr::Swap),
        Instruction::Rot => Ok(Instr::Rot),
        Instruction::Call(a) => match resolve_in(a, label_map) {
            Ok(t) => Ok(Instr::Call(t)),
            Err(e) => Err(e),
        },
        Instruction::Ret => Ok(Instr::Ret),
        Instruction::Checksum => Ok(Instr::Checksum),
        Instruction::Add => Ok(Instr::Add),
        Instruction::Sub => Ok(Instr::Sub),
        Instruction::Neg => Ok(Instr::Neg),
        Instruction::Mod => Ok(Instr::Mod),
        Instruction::Mul => Ok(Instr::Mul),
        Instruction::Div => Ok(Instr::Div),
        Instruction::Less => Ok(Instr::Less),
        Instruction::LessEqual => Ok(Instr::LessEqual),
        Instruction::Or => Ok(Instr::Or),
        Instruction::And => Ok(Instr::And),
        Instruction::Xor => Ok(Instr::Xor),
        Instruction::Equal => Ok(Instr::Equal),
        Instruction::BitCount => Ok(Instr::BitCount),
        Instruction::BitScanForward => Ok(Instr::BitScanForward),
        Instruction::BitScanReverse => Ok(Instr::BitScanReverse),
        Instruction::LShift => Ok(Instr::LShift),
        Instruction::RShift => Ok(Instr::RShift),
        Instruction::Jump(a) => match resolve_in(a, label_map) {
            Ok(t) => Ok(Instr::Jump(t)),
            Err(e) => Err(e),
        },
        Instruction::JumpRelativeOffset => Ok(Instr::JumpRelativeOffset),
        Instruction::JumpZero(a) => match resolve_in(a, label_map) {
            Ok(t) => Ok(Instr::JumpZero(t)),
            Err(e) => Err(e),
        },
        Instruction::JumpNonZero(a) => match resolve_in(a, label_map) {
            Ok(t) => Ok(Instr::JumpNonZero(t)),
            Err(e) => Err(e),
        },
        Instruction::SetPaint => Ok(Instr::SetPaint),
        Instruction::GetPaint => Ok(Instr::GetPaint),
        Instruction::Rand => Ok(Instr::Rand),
    }
}

/// Resolves one header directive to its wire record; names longer than the
/// one-byte length prefix are refused.
fn resolve_meta(m: &Metadata) -> (r: Result<MetaRecord, CompileError>)
    ensures
        (match r {
            Ok(rec) => meta_rec_matches(*m, rec) && rec.wf() && rec.utf8_ok(),
            Err(CompileError::ParseColorError(e)) => (m matches Metadata::BgColor(s)
                && Color::spec_of_hex(Color::spec_digits(s@)) == Err::<u32, ParseColorError>(e)) || (
            m matches Metadata::FgColor(s) && Color::spec_of_hex(Color::spec_digits(s@)) == Err::<
                u32,
                ParseColorError,
            >(e)),
            Err(CompileError::InternalError) => meta_name_bad(*m),
            Err(_) => false,
        }),
        r is Err <==> (match *m {
            Metadata::Name(s) => s@.len() > 255 || !vstd::utf8::valid_utf8(s@),
            Metadata::Symbol(s) => s@.len() > 255 || !vstd::utf8::valid_utf8(s@),
            Metadata::Desc(s) => s@.len() > 255 || !vstd::utf8::valid_utf8(s@),
            Metadata::Author(s) => s@.len() > 255 || !vstd::utf8::valid_utf8(s@),
            Metadata::License(s) => s@.len() > 255 || !vstd::utf8::valid_utf8(s@),
            Metadata::BgColor(s) => Color::spec_of_hex(Color::spec_digits(s@)) is Err,
            Metadata::FgColor(s) => Color::spec_of_hex(Color::spec_digits(s@)) is Err,
            Metadata::Field(s, _) => s@.len() > 255 || !vstd::utf8::valid_utf8(s@),
            Metadata::Parameter(s, _) => s@.len() > 255 || !vstd::utf8::valid_utf8(s@),
            _ => false,
        }),
{
    match m {
        Metadata::Name(s) => if s.len() <= 255 && crate::base::utf8_ck(s.as_slice()) {
            Ok(MetaRecord::Name(s.clone()))
        } else {
            Err(CompileError::InternalError)
        },
        Metadata::Symbol(s) => if s.len() <= 255 && crate::base::utf8_ck(s.as_slice()) {
            Ok(MetaRecord::Symbol(s.clone()))
        } else {
            Err(CompileError::InternalError)
        },
        Metadata::Desc(s) => if s.len() <= 255 && crate::base::utf8_ck(s.as_slice()) {
            Ok(MetaRecord::Desc(s.clone()))
        } else {
            Err(CompileError::InternalError)
        },
        Metadata::Author(s) => if s.len() <= 255 && crate::base::utf8_ck(s.as_slice()) {
            Ok(MetaRecord::Author(s.clone()))
        } else {
            Err(CompileError::InternalError)
        },
        Metadata::License(s) => if s.len() <= 255 && crate::base::utf8_ck(s.as_slice()) {
            Ok(MetaRecord::License(s.clone()))
        } else {
            Err(CompileError::InternalError)
        },
        Metadata::Radius(x) => Ok(MetaRecord::Radius(*x)),
        Metadata::BgColor(s) => match color_of_bytes(s) {
            Ok(v) => Ok(MetaRecord::BgColor(v)),
            Err(e) => Err(CompileError::ParseColorError(e)),
        },
        Metadata::FgColor(s) => match color_of_bytes(s) {
            Ok(v) => Ok(MetaRecord::FgColor(v)),
            Err(e) => Err(CompileError::ParseColorError(e)),
        },
        Metadata::Symmetries(x) => Ok(MetaRecord::Symmetries(*x)),
        Metadata::Field(s, f) => if s.len() <= 255 && crate::base::utf8_ck(s.as_slice()) {
            Ok(MetaRecord::Field(s.clone(), *f))
        } else {
            Err(CompileError::InternalError)
        },
        Metadata::Parameter(s, c) => if s.len() <= 255 && crate::base::utf8_ck(s.as_slice()) {
            Ok(MetaRecord::Parameter(s.clone(), canon96(*c)))
        } else {
            Err(CompileError::InternalError)
        },
    }
}

/// Parses a color held as source bytes.
fn color_of_bytes(s: &Vec<u8>) -> (r: Result<u32, ParseColorError>)
    ensures
        r == Color::spec_of_hex(Color::spec_digits(s@)),
{
    let d: &[u8] = if s.len() > 0 && s[0] == 0x23 {
        vstd::slice::slice_subrange(s.as_slice(), 1, s.len())
    } else {
        s.as_slice()
    };
    proof {
        assert(d@ =~= Color::spec_digits(s@));
    }
    match Color::from_hex_digits(d) {
        Ok(c) => Ok(c.bits()),
        Err(e) => Err(e),
    }
}

impl Compiler {
    /// Compiles one parsed file to its object form: indexes the header
    /// directives and the body labels, then resolves every directive and
    /// instruction. The body must fit the 16-bit code space with one slot
    /// to spare.
    pub fn compile_to_object(&mut self, file: &File) -> (r: Result<ObjectFile, CompileError>)
        requires
            old(self).wf(),
        ensures
            final(self).wf(),
            final(self).build_tag@ == old(self).build_tag@,
            file.body@.len() > 65534 ==> r == Err::<ObjectFile, CompileError>(
                CompileError::MaxCodeSize,
            ) && *final(self) == *old(self),
            r matches Ok(o) ==> compiled_object_matches(
                o,
                file.header@,
                file.body@,
                amap(old(self).type_map@),
                old(self).type_map@.len() as int,
                old(self).build_tag@,
            ) && o.header@.len() == file.header@.len(),
            (file.header@.len() <= 255 && file.body@.len() <= 65534 && vstd::utf8::valid_utf8(
                old(self).build_tag@,
            ) && compile_ok(
                file.header@,
                file.body@,
                amap(old(self).type_map@),
                old(self).type_map@.len() as int,
            )) ==> r is Ok,
            (r == Err::<ObjectFile, CompileError>(CompileError::MaxCodeSize)) <==> file.body@.len()
                > 65534,
            r matches Err(CompileError::InternalError) ==> (file.header@.len() > 255
                || !vstd::utf8::valid_utf8(old(self).build_tag@) || exists|i: int|
                0 <= i < file.header@.len() && (#[trigger] file.header@[i]) is Metadata
                    && meta_name_bad(file.header@[i]->Metadata_0)),
            r matches Err(CompileError::ParseColorError(e)) ==> exists|i: int|
                0 <= i < file.header@.len() && (#[trigger] file.header@[i]) is Metadata
                    && meta_color_err(file.header@[i]->Metadata_0, e),
            r matches Err(CompileError::InternalUnexpectedNodeType) ==> ((exists|i: int|
                0 <= i < file.header@.len() && !((#[trigger] file.header@[i]) is Metadata))
                || (exists|i: int|
                0 <= i < file.body@.len() && (#[trigger] file.body@[i]) is Metadata)),
            r matches Err(CompileError::UnknownName) ==> (match pass1(
                file.header@,
                amap(old(self).type_map@),
                old(self).type_map@.len() as int,
                Map::empty(),
                base_fields(),
            ) {
                Some(t4) => !t4.0.contains_key(self_name()) || (pass2(
                    file.body@,
                    Map::empty(),
                    0,
                ) matches Some(p2) && exists|i: int|
                    0 <= i < file.body@.len() && (#[trigger] file.body@[i]) is Instruction
                        && resolve_instr_spec(
                        file.body@[i]->Instruction_0,
                        t4.0,
                        p2.0,
                        t4.2,
                        t4.3,
                    ) == Err::<Instr, CompileError>(CompileError::UnknownName)),
                None => false,
            }),
            !(r matches Err(CompileError::IOError)) && !(r matches Err(CompileError::ParseError))
                && !(r matches Err(CompileError::InternalUnexpectedArgsCount)) && !(r matches Err(
                CompileError::InternalUnexpectedArgType,
            )),
    {
        if file.body.len() > 65534 {
            return Err(CompileError::MaxCodeSize);
        }
        if file.header.len() > 255 {
            return Err(CompileError::InternalError);
        }
        if !crate::base::utf8_ck(self.build_tag.as_slice()) {
            return Err(CompileError::InternalError);
        }
        let ghost tm0 = amap(self.type_map@);
        let ghost n0 = self.type_map@.len() as int;
        let mut const_map: Vec<(Vec<u8>, Const)> = Vec::new();
        let mut field_map: Vec<(Vec<u8>, FieldSelector)> = Compiler::new_field_map();
        proof {
            assert(amap(const_map@) =~= Map::<Seq<u8>, Const>::empty());
            assert(file.header@.take(0) =~= Seq::<Node>::empty());
        }
        let hn = file.header.len();
        let mut i: usize = 0;
        while i < hn
            invariant
                hn == file.header@.len(),
                i <= hn,
                file.body@.len() <= 65534,
                self.wf(),
                vstd::utf8::valid_utf8(self.build_tag@),
                self.build_tag@ == old(self).build_tag@,
                akeys_unique(const_map@),
                akeys_unique(field_map@),
                pass1(file.header@.take(i as int), tm0, n0, Map::empty(), base_fields()) == Some(
                    (
                        amap(self.type_map@),
                        self.type_map@.len() as int,
                        amap(const_map@),
                        amap(field_map@),
                    ),
                ),
                tm0 == amap(old(self).type_map@),
                n0 == old(self).type_map@.len() as int,
            decreases hn - i,
        {
            let nd = &file.header[i];
            let res = index_metadata_node(nd, &mut self.type_map, &mut const_map, &mut field_map);
            proof {
                assert(file.header@.take(i + 1).drop_last() =~= file.header@.take(i as int));
                assert(file.header@.take(i + 1).last() == file.header@[i as int]);
            }
            match res {
                Ok(_) => {},
                Err(e) => {
                    proof {
                        assert(pass1(
                            file.header@.take(i + 1),
                            tm0,
                            n0,
                            Map::empty(),
                            base_fields(),
                        ) is None);
                        lemma_pass1_none(file.header@, i + 1, tm0, n0, Map::empty(), base_fields());
                    }
                    return Err(e);
                },
            }
            i += 1;
        }
        proof {
            assert(file.header@.take(hn as int) =~= file.header@);
        }
        let mut label_map: Vec<(Vec<u8>, u16)> = Vec::new();
        let mut ln: u16 = 0;
        proof {
            assert(amap(label_map@) =~= Map::<Seq<u8>, u16>::empty());
            assert(file.body@.take(0) =~= Seq::<Node>::empty());
        }
        let bn = file.body.len();
        let mut i: usize = 0;
        while i < bn
            invariant
                bn == file.body@.len(),
                bn <= 65534,
                i <= bn,
                ln <= i,
                self.wf(),
                vstd::utf8::valid_utf8(self.build_tag@),
                self.build_tag@ == old(self).build_tag@,
                akeys_unique(label_map@),
                pass2(file.body@.take(i as int), Map::empty(), 0) == Some(
                    (amap(label_map@), ln as int),
                ),
            decreases bn - i,
        {
            let nd = &file.body[i];
            let res = index_code_node(&mut ln, nd, &mut label_map);
            proof {
                assert(file.body@.take(i + 1).drop_last() =~= file.body@.take(i as int));
                assert(file.body@.take(i + 1).last() == file.body@[i as int]);
            }
            match res {
                Ok(_) => {},
                Err(e) => {
                    proof {
                        assert(pass2(file.body@.take(i + 1), Map::empty(), 0) is None);
                        lemma_pass2_none(file.body@, i + 1, Map::empty(), 0);
                    }
                    return Err(e);
                },
            }
            i += 1;
        }
        proof {
            assert(file.body@.take(bn as int) =~= file.body@);
        }
        let type_num = match aget(&self.type_map, &self_name_vec()) {
            Some(t) => t,
            None => {
                return Err(CompileError::UnknownName);
            },
        };
        let mut header: Vec<MetaRecord> = Vec::new();
        let mut i: usize = 0;
        while i < hn
            invariant
                hn == file.header@.len(),
                i <= hn,
                file.body@.len() <= 65534,
                self.wf(),
                self.build_tag@ == old(self).build_tag@,
                header@.len() == i,
                vstd::utf8::valid_utf8(self.build_tag@),
                resolve_header_rel(file.header@.take(i as int), header@),
                forall|j: int| 0 <= j < i ==> (#[trigger] header@[j]).wf(),
                forall|j: int| 0 <= j < i ==> (#[trigger] header@[j]).utf8_ok(),
            decreases hn - i,
        {
            let nd = &file.header[i];
            match nd {
                Node::Metadata(m) => {
                    match resolve_meta(m) {
                        Ok(rec) => {
                            proof {
                                assert(*nd == Node::Metadata(*m));
                            }
                            let ghost pre = header@;
                            header.push(rec);
                            proof {
                                let h1 = file.header@.take(i + 1);
                                assert forall|j: int| 0 <= j < i + 1 implies ((#[trigger] h1[j]) is Metadata
                                    && meta_rec_matches(h1[j]->Metadata_0, header@[j])) by {
                                    assert(h1[j] == file.header@[j]);
                                    if j < i {
                                        assert(header@[j] == pre[j]);
                                        assert(file.header@.take(i as int)[j] == file.header@[j]);
                                    } else {
                                        assert(header@[j] == rec);
                                        assert(file.header@[j] == Node::Metadata(*m));
                                        assert(meta_rec_matches(*m, rec));
                                    }
                                }
                                assert(resolve_header_rel(h1, header@));
                            }
                        },
                        Err(e) => {
                            proof {
                                assert(resolve_meta_spec(file.header@[i as int]->Metadata_0) is Err);
                                lemma_resolve_header_err(file.header@, i as int);
                            }
                            return Err(e);
                        },
                    }
                },
                _ => {
                    proof {
                        lemma_resolve_header_err(file.header@, i as int);
                    }
                    return Err(CompileError::InternalUnexpectedNodeType);
                },
            }
            i += 1;
        }
        let mut code: Vec<Instr> = Vec::new();
        let mut i: usize = 0;
        proof {
            assert(resolve_body(
                file.body@.take(0),
                amap(self.type_map@),
                amap(label_map@),
                amap(const_map@),
                amap(field_map@),
            ) == Ok::<Seq<Instr>, CompileError>(code@)) by {
                assert(file.body@.take(0) =~= Seq::<Node>::empty());
                assert(code@ =~= Seq::<Instr>::empty());
            }
        }
        while i < bn
            invariant
                bn == file.body@.len(),
                bn <= 65534,
                i <= bn,
                self.wf(),
                vstd::utf8::valid_utf8(self.build_tag@),
                self.build_tag@ == old(self).build_tag@,
                akeys_unique(label_map@),
                pass1(file.header@, amap(old(self).type_map@), old(self).type_map@.len() as int, Map::empty(), base_fields()) == Some(
                    (
                        amap(self.type_map@),
                        self.type_map@.len() as int,
                        amap(const_map@),
                        amap(field_map@),
                    ),
                ),
                pass2(file.body@, Map::empty(), 0) == Some((amap(label_map@), ln as int)),
                code@.len() <= i,
                forall|j: int| 0 <= j < code@.len() ==> (#[trigger] code@[j]).wf(),
                resolve_body(
                    file.body@.take(i as int),
                    amap(self.type_map@),
                    amap(label_map@),
                    amap(const_map@),
                    amap(field_map@),
                ) == Ok::<Seq<Instr>, CompileError>(code@),
            decreases bn - i,
        {
            let nd = &file.body[i];
            proof {
                assert(file.body@.take(i + 1).drop_last() =~= file.body@.take(i as int));
                assert(file.body@.take(i + 1).last() == file.body@[i as int]);
            }
            match nd {
                Node::Label(_) => {},
                Node::Instruction(instr) => {
                    match resolve_instruction(
                        instr,
                        &self.type_map,
                        &label_map,
                        &const_map,
                        &field_map,
                    ) {
                        Ok(w) => {
                            proof {
                                lemma_resolved_wf(
                                    *instr,
                                    amap(self.type_map@),
                                    amap(label_map@),
                                    amap(const_map@),
                                    amap(field_map@),
                                );
                            }
                            code.push(w);
                        },
                        Err(e) => {
                            proof {
                                lemma_resolve_body_err(
                                    file.body@,
                                    i as int,
                                    amap(self.type_map@),
                                    amap(label_map@),
                                    amap(const_map@),
                                    amap(field_map@),
                                );
                            }
                            return Err(e);
                        },
                    }
                },
                Node::Metadata(_) => {
                    proof {
                        lemma_resolve_body_err(
                            file.body@,
                            i as int,
                            amap(self.type_map@),
                            amap(label_map@),
                            amap(const_map@),
                            amap(field_map@),
                        );
                    }
                    return Err(CompileError::InternalUnexpectedNodeType);
                },
            }
            i += 1;
        }
        proof {
            assert(file.body@.take(bn as int) =~= file.body@);
            lemma_resolve_body_len(
                file.body@,
                amap(self.type_map@),
                amap(label_map@),
                amap(const_map@),
                amap(field_map@),
            );
        }
        let tag = clone_bytes(&self.build_tag);
        let o = ObjectFile { build_tag: tag, type_num, header, code_index_count: 0, code };
        proof {
            assert(pass1(file.header@, tm0, n0, Map::empty(), base_fields()) == Some(
                (
                    amap(self.type_map@),
                    self.type_map@.len() as int,
                    amap(const_map@),
                    amap(field_map@),
                ),
            ));
            assert(amap(self.type_map@).contains_key(self_name()) && o.type_num == amap(
                self.type_map@,
            )[self_name()]);
            assert(pass2(file.body@, Map::empty(), 0) == Some((amap(label_map@), ln as int)));
            assert(resolve_body(
                file.body@,
                amap(self.type_map@),
                amap(label_map@),
                amap(const_map@),
                amap(field_map@),
            ) == Ok::<Seq<Instr>, CompileError>(o.code@));
            assert(file.header@.take(hn as int) =~= file.header@);
            assert(resolve_header_rel(file.header@, o.header@));
            assert(o.wf());
            assert(o.utf8_ok());
        }
        Ok(o)
    }

    /// Compiles one parsed file and appends the object's byte image to the
    /// writer.
    pub fn compile_to_writer(&mut self, w: &mut Vec<u8>, file: &File) -> (r: Result<
        (),
        CompileError,
    >)
        requires
            old(self).wf(),
        ensures
            final(self).wf(),
            final(self).build_tag@ == old(self).build_tag@,
            r is Err ==> *final(w) == *old(w),
            (file.header@.len() <= 255 && file.body@.len() <= 65534 && vstd::utf8::valid_utf8(
                old(self).build_tag@,
            ) && compile_ok(
                file.header@,
                file.body@,
                amap(old(self).type_map@),
                old(self).type_map@.len() as int,
            )) ==> r is Ok,
            r is Ok ==> exists|o: ObjectFile|
                #![auto]
                compiled_object_matches(
                    o,
                    file.header@,
                    file.body@,
                    amap(old(self).type_map@),
                    old(self).type_map@.len() as int,
                    old(self).build_tag@,
                ) && final(w)@ == old(w)@ + enc_object(&o),
    {
        let o = match self.compile_to_object(file) {
            Ok(o) => o,
            Err(e) => {
                return Err(e);
            },
        };
        let bytes = o.emit();
        let n = bytes.len();
        let mut i: usize = 0;
        while i < n
            invariant
                n == bytes@.len(),
                i <= n,
                w@ == old(w)@ + bytes@.take(i as int),
            decreases n - i,
        {
            w.push(bytes[i]);
            proof {
                assert(old(w)@ + bytes@.take(i as int) + seq![bytes@[i as int]] =~= old(w)@
                    + bytes@.take(i + 1));
            }
            i += 1;
        }
        proof {
            assert(bytes@.take(n as int) =~= bytes@);
        }
        Ok(())
    }
}

/// Clones a byte vector.
fn clone_bytes(s: &Vec<u8>) -> (r: Vec<u8>)
    ensures
        r@ == s@,
{
    let mut v: Vec<u8> = Vec::new();
    let n = s.len();
    let mut i: usize = 0;
    while i < n
        invariant
            n == s@.len(),
            i <= n,
            v@ == s@.take(i as int),
        decreases n - i,
    {
        v.push(s[i]);
        proof {
            assert(s@.take(i as int) + seq![s@[i as int]] =~= s@.take(i + 1));
        }
        i += 1;
    }
    proof {
        assert(s@.take(n as int) =~= s@);
    }
    v
}

/// A resolved instruction is well formed on the wire.
proof fn lemma_resolved_wf(
    i: Instruction,
    tm: Map<Seq<u8>, u16>,
    lm: Map<Seq<u8>, u16>,
    cm: Map<Seq<u8>, Const>,
    fm: Map<Seq<u8>, FieldSelector>,
)
    ensures
        resolve_instr_spec(i, tm, lm, cm, fm) matches Ok(w) ==> w.wf(),
{
}

/// A resolved body has exactly as many instructions as the second pass
/// counted.
proof fn lemma_resolve_body_len(
    body: Seq<Node>,
    tm: Map<Seq<u8>, u16>,
    lm: Map<Seq<u8>, u16>,
    cm: Map<Seq<u8>, Const>,
    fm: Map<Seq<u8>, FieldSelector>,
)
    ensures
        (match (resolve_body(body, tm, lm, cm, fm), pass2(body, Map::empty(), 0)) {
            (Ok(res), Some(p)) => res.len() == p.1,
            _ => true,
        }),
    decreases body.len(),
{
    if body.len() > 0 {
        lemma_resolve_body_len(body.drop_last(), tm, lm, cm, fm);
    }
}

} // verus!
