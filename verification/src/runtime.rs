//! The runtime: object loading keyed by type id, and the stack virtual
//! machine that drives an event window.

use crate::arith::Const;
use crate::base::FieldSelector;
use crate::base::Symmetries;
use crate::color::Color;
use crate::mfm::EventWindow;
use crate::mfm::Metadata;
use crate::mfm::Rand;
use crate::object::Instr;
use crate::object::MetaRecord;
use crate::object::ObjectFile;
use std::collections::HashMap;
use vstd::prelude::*;

verus! {

broadcast use vstd::std_specs::hash::group_hash_axioms, vstd::std_specs::hash::axiom_u16_obeys_hash_table_key_model;

/// Everything that can go wrong while loading an object or running a
/// program.
#[derive(Clone, Debug)]
pub enum Error {
    /// The input ended before the structure it should hold, or holds bytes
    /// past it.
    IOError,
    /// A build tag or a metadata name is not well-formed UTF-8.
    FromUtf8Error,
    BadMagicNumber(u32),
    BadMinorVersion(u16),
    BadMajorVersion(u16),
    BuildTagMismatch { want: Vec<u8>, got: Vec<u8> },
    BadMetadataOpCode(u8),
    BadConstantType(u8),
    BadInstructionOpCode(u8),
    NoElement,
    UnknownElement(u16),
    StackUnderflow,
    /// A division or remainder instruction met a zero divisor.
    DivisionByZero,
    /// A relative jump instruction met the disallowed zero offset.
    ZeroJumpOffset,
    /// The step budget handed to `execute` ran out before the program
    /// halted.
    StepLimit,
}

/// The operations a cursor implementation offers its instruction
/// handlers, as the interface was first sketched.
pub trait RuntimeImpl {
    fn pop() -> Option<Const>;

    fn pop_site() -> Option<usize>;

    fn push(x: Const);

    fn save_symmetries();

    fn use_symmetries(x: Symmetries);

    fn restore_symmetries();

    fn get(i: usize) -> Option<Const>;
}

/// The transient state of one element execution: instruction pointer,
/// current orientation, saved orientations, call frames and operand stack.
#[derive(Clone, Debug)]
pub struct Cursor {
    pub ip: usize,
    pub symmetry: Symmetries,
    pub symmetries_stack: Vec<Symmetries>,
    pub call_stack: Vec<usize>,
    pub op_stack: Vec<Const>,
}

impl Cursor {
    /// A cursor is well formed when its orientations are all single flags.
    pub open spec fn wf(&self) -> bool {
        &&& self.symmetry.is_single()
        &&& forall|i: int|
            0 <= i < self.symmetries_stack@.len() ==> (#[trigger] self.symmetries_stack@[i]).is_single()
    }

    /// A cursor at instruction 0 in the base orientation.
    pub fn new() -> (r: Cursor)
        ensures
            r.wf(),
            r.ip == 0,
            r.symmetry.0 == 1,
            r.symmetries_stack@.len() == 0,
            r.call_stack@.len() == 0,
            r.op_stack@.len() == 0,
    {
        Cursor::with_symmetry(Symmetries(0x01))
    }

    /// A cursor at instruction 0 with a pre-selected orientation.
    pub fn with_symmetry(s: Symmetries) -> (r: Cursor)
        requires
            s.is_single(),
        ensures
            r.wf(),
            r.ip == 0,
            r.symmetry == s,
            r.symmetries_stack@.len() == 0,
            r.call_stack@.len() == 0,
            r.op_stack@.len() == 0,
    {
        Cursor {
            ip: 0,
            symmetry: s,
            symmetries_stack: Vec::new(),
            call_stack: Vec::new(),
            op_stack: Vec::new(),
        }
    }

    /// Removes and returns the top operand; the stack must not be empty.
    pub fn pop(&mut self) -> (r: Const)
        requires
            old(self).op_stack@.len() >= 1,
        ensures
            r == old(self).op_stack@.last(),
            final(self).op_stack@ == old(self).op_stack@.drop_last(),
            final(self).ip == old(self).ip,
            final(self).symmetry == old(self).symmetry,
            final(self).symmetries_stack@ == old(self).symmetries_stack@,
            final(self).call_stack@ == old(self).call_stack@,
    {
        match self.op_stack.pop() {
            Some(v) => v,
            None => unreached(),
        }
    }

    /// Pops an operand and reads it as a physical site index: its low
    /// byte, mapped through the cursor's orientation when it names a
    /// window site.
    pub fn pop_site(&mut self) -> (r: usize)
        requires
            old(self).op_stack@.len() >= 1,
            old(self).wf(),
        ensures
            r == spec_site_of(old(self).op_stack@.last(), old(self).symmetry),
            final(self).op_stack@ == old(self).op_stack@.drop_last(),
            final(self).ip == old(self).ip,
            final(self).symmetry == old(self).symmetry,
            final(self).symmetries_stack@ == old(self).symmetries_stack@,
            final(self).call_stack@ == old(self).call_stack@,
    {
        let v = self.pop();
        let i = v.to_u8();
        if i < 41 {
            crate::mfm::map_site(i, self.symmetry) as usize
        } else {
            i as usize
        }
    }

    /// Empties the cursor for a fresh run under orientation `s`.
    pub fn reset(&mut self, s: Symmetries)
        requires
            s.is_single(),
        ensures
            final(self).wf(),
            final(self).ip == 0,
            final(self).symmetry == s,
            final(self).symmetries_stack@.len() == 0,
            final(self).call_stack@.len() == 0,
            final(self).op_stack@.len() == 0,
    {
        self.ip = 0;
        self.symmetry = s;
        self.symmetries_stack.clear();
        self.call_stack.clear();
        self.op_stack.clear();
    }
}

/// Byte-for-byte equality of two byte vectors.
pub fn bytes_eq(a: &Vec<u8>, b: &Vec<u8>) -> (r: bool)
    ensures
        r == (a@ == b@),
{
    if a.len() != b.len() {
        return false;
    }
    let n = a.len();
    let mut i: usize = 0;
    while i < n
        invariant
            n == a@.len() == b@.len(),
            i <= n,
            forall|j: int| 0 <= j < i ==> a@[j] == b@[j],
        decreases n - i,
    {
        if a[i] != b[i] {
            return false;
        }
        i += 1;
    }
    proof {
        assert(a@ =~= b@);
    }
    true
}

/// The last name record of a header, scanning from the end.
pub open spec fn last_name(h: Seq<MetaRecord>) -> Option<Seq<u8>>
    decreases h.len(),
{
    if h.len() == 0 {
        None
    } else {
        match h.last() {
            MetaRecord::Name(s) => Some(s@),
            _ => last_name(h.drop_last()),
        }
    }
}

pub open spec fn last_symbol(h: Seq<MetaRecord>) -> Option<Seq<u8>>
    decreases h.len(),
{
    if h.len() == 0 {
        None
    } else {
        match h.last() {
            MetaRecord::Symbol(s) => Some(s@),
            _ => last_symbol(h.drop_last()),
        }
    }
}

pub open spec fn last_radius(h: Seq<MetaRecord>) -> Option<u8>
    decreases h.len(),
{
    if h.len() == 0 {
        None
    } else {
        match h.last() {
            MetaRecord::Radius(x) => Some(x),
            _ => last_radius(h.drop_last()),
        }
    }
}

pub open spec fn last_bg_color(h: Seq<MetaRecord>) -> Option<u32>
    decreases h.len(),
{
    if h.len() == 0 {
        None
    } else {
        match h.last() {
            MetaRecord::BgColor(x) => Some(x),
            _ => last_bg_color(h.drop_last()),
        }
    }
}

pub open spec fn last_fg_color(h: Seq<MetaRecord>) -> Option<u32>
    decreases h.len(),
{
    if h.len() == 0 {
        None
    } else {
        match h.last() {
            MetaRecord::FgColor(x) => Some(x),
            _ => last_fg_color(h.drop_last()),
        }
    }
}

pub open spec fn last_symmetries(h: Seq<MetaRecord>) -> Option<u8>
    decreases h.len(),
{
    if h.len() == 0 {
        None
    } else {
        match h.last() {
            MetaRecord::Symmetries(s) => Some(s.0),
            _ => last_symmetries(h.drop_last()),
        }
    }
}

/// All description strings of a header, in order.
pub open spec fn descs_of(h: Seq<MetaRecord>) -> Seq<Seq<u8>>
    decreases h.len(),
{
    if h.len() == 0 {
        Seq::empty()
    } else {
        match h.last() {
            MetaRecord::Desc(s) => descs_of(h.drop_last()).push(s@),
            _ => descs_of(h.drop_last()),
        }
    }
}

pub open spec fn authors_of(h: Seq<MetaRecord>) -> Seq<Seq<u8>>
    decreases h.len(),
{
    if h.len() == 0 {
        Seq::empty()
    } else {
        match h.last() {
            MetaRecord::Author(s) => authors_of(h.drop_last()).push(s@),
            _ => authors_of(h.drop_last()),
        }
    }
}

pub open spec fn licenses_of(h: Seq<MetaRecord>) -> Seq<Seq<u8>>
    decreases h.len(),
{
    if h.len() == 0 {
        Seq::empty()
    } else {
        match h.last() {
            MetaRecord::License(s) => licenses_of(h.drop_last()).push(s@),
            _ => licenses_of(h.drop_last()),
        }
    }
}

/// All named fields of a header, in order.
pub open spec fn fields_of(h: Seq<MetaRecord>) -> Seq<(Seq<u8>, FieldSelector)>
    decreases h.len(),
{
    if h.len() == 0 {
        Seq::empty()
    } else {
        match h.last() {
            MetaRecord::Field(s, f) => fields_of(h.drop_last()).push((s@, f)),
            _ => fields_of(h.drop_last()),
        }
    }
}

/// All named parameters of a header, in order.
pub open spec fn params_of(h: Seq<MetaRecord>) -> Seq<(Seq<u8>, Const)>
    decreases h.len(),
{
    if h.len() == 0 {
        Seq::empty()
    } else {
        match h.last() {
            MetaRecord::Parameter(s, c) => params_of(h.drop_last()).push((s@, c)),
            _ => params_of(h.drop_last()),
        }
    }
}

/// The metadata record that a header folds to, field by field.
pub open spec fn meta_matches_header(m: Metadata, h: Seq<MetaRecord>, type_num: u16) -> bool {
    &&& m.name@ == match last_name(h) {
        Some(s) => s,
        None => seq![0x3fu8, 0x3fu8, 0x3fu8],
    }
    &&& m.symbol@ == match last_symbol(h) {
        Some(s) => s,
        None => seq![0x3fu8],
    }
    &&& m.radius == match last_radius(h) {
        Some(x) => x,
        None => 0u8,
    }
    &&& m.bg_color.0 == match last_bg_color(h) {
        Some(x) => x,
        None => 0u32,
    }
    &&& m.fg_color.0 == match last_fg_color(h) {
        Some(x) => x,
        None => 0xffff_ffffu32,
    }
    &&& m.symmetries.0 == match last_symmetries(h) {
        Some(x) => x,
        None => 0u8,
    }
    &&& m.descs@.map_values(|v: Vec<u8>| v@) == descs_of(h)
    &&& m.authors@.map_values(|v: Vec<u8>| v@) == authors_of(h)
    &&& m.licenses@.map_values(|v: Vec<u8>| v@) == licenses_of(h)
    &&& m.field_map@.map_values(|p: (Vec<u8>, FieldSelector)| (p.0@, p.1)) == fields_of(h)
    &&& m.parameter_map@.map_values(|p: (Vec<u8>, Const)| (p.0@, p.1)) == params_of(h)
    &&& m.type_num == type_num
}

/// Folds a parsed header into one metadata record.
fn fold_metadata(o: &ObjectFile) -> (m: Metadata)
    ensures
        meta_matches_header(m, o.header@, o.type_num),
{
    let mut m = Metadata::new();
    m.type_num = o.type_num;
    let n = o.header.len();
    let mut i: usize = 0;
    proof {
        assert(o.header@.take(0) =~= Seq::<MetaRecord>::empty());
        assert(m.descs@.map_values(|v: Vec<u8>| v@) =~= descs_of(o.header@.take(0)));
        assert(m.authors@.map_values(|v: Vec<u8>| v@) =~= authors_of(o.header@.take(0)));
        assert(m.licenses@.map_values(|v: Vec<u8>| v@) =~= licenses_of(o.header@.take(0)));
        assert(m.field_map@.map_values(|p: (Vec<u8>, FieldSelector)| (p.0@, p.1)) =~= fields_of(
            o.header@.take(0),
        ));
        assert(m.parameter_map@.map_values(|p: (Vec<u8>, Const)| (p.0@, p.1)) =~= params_of(
            o.header@.take(0),
        ));
    }
    while i < n
        invariant
            n == o.header@.len(),
            i <= n,
            meta_matches_header(m, o.header@.take(i as int), o.type_num),
        decreases n - i,
    {
        let ghost pre = o.header@.take(i as int);
        let ghost prem = m;
        let rec = &o.header[i];
        match rec {
            MetaRecord::Name(s) => m.name = s.clone(),
            MetaRecord::Symbol(s) => m.symbol = s.clone(),
            MetaRecord::Desc(s) => m.descs.push(s.clone()),
            MetaRecord::Author(s) => m.authors.push(s.clone()),
            MetaRecord::License(s) => m.licenses.push(s.clone()),
            MetaRecord::Radius(x) => m.radius = *x,
            MetaRecord::BgColor(x) => m.bg_color = Color(*x),
            MetaRecord::FgColor(x) => m.fg_color = Color(*x),
            MetaRecord::Symmetries(s) => m.symmetries = *s,
            MetaRecord::Field(s, f) => m.field_map.push((s.clone(), *f)),
            MetaRecord::Parameter(s, c) => m.parameter_map.push((s.clone(), *c)),
        }
        proof {
            let cur = o.header@.take(i + 1);
            assert(cur.drop_last() =~= pre);
            assert(cur.last() == o.header@[i as int]);
            match o.header@[i as int] {
                MetaRecord::Desc(s) => {
                    assert(m.descs@.map_values(|v: Vec<u8>| v@) =~= descs_of(pre).push(s@));
                },
                MetaRecord::Author(s) => {
                    assert(m.authors@.map_values(|v: Vec<u8>| v@) =~= authors_of(pre).push(s@));
                },
                MetaRecord::License(s) => {
                    assert(m.licenses@.map_values(|v: Vec<u8>| v@) =~= licenses_of(pre).push(s@));
                },
                MetaRecord::Field(s, f) => {
                    assert(m.field_map@.map_values(|p: (Vec<u8>, FieldSelector)| (p.0@, p.1))
                        =~= fields_of(pre).push((s@, f)));
                },
                MetaRecord::Parameter(s, c) => {
                    assert(m.parameter_map@.map_values(|p: (Vec<u8>, Const)| (p.0@, p.1))
                        =~= params_of(pre).push((s@, c)));
                },
                _ => {},
            }
        }
        i += 1;
    }
    proof {
        assert(o.header@.take(n as int) =~= o.header@);
    }
    m
}

/// The loaded programs and metadata of one runtime, keyed by type id, plus
/// the build tag pinned by the first successful load.
pub struct Runtime {
    pub tag: Option<Vec<u8>>,
    pub code_map: HashMap<u16, Vec<Instr>>,
    pub type_map: HashMap<u16, Metadata>,
}

impl Runtime {
    /// A runtime holding only the implicit `Empty` element of type id 0.
    pub fn new() -> (r: Runtime)
        ensures
            r.tag is None,
            r.code_map@.dom() =~= set![0u16],
            r.code_map@[0]@.len() == 0,
            r.type_map@.dom() =~= set![0u16],
            r.type_map@[0].type_num == 0,
            r.type_map@[0].name@ == seq![0x45u8, 0x6du8, 0x70u8, 0x74u8, 0x79u8],
            r.type_map@[0].symbol@ == seq![0x2eu8],
    {
        let mut type_map: HashMap<u16, Metadata> = HashMap::new();
        let mut empty = Metadata::new();
        let name = vec![0x45u8, 0x6du8, 0x70u8, 0x74u8, 0x79u8];
        let symbol = vec![0x2eu8];
        proof {
            assert(name@ =~= seq![0x45u8, 0x6du8, 0x70u8, 0x74u8, 0x79u8]);
            assert(symbol@ =~= seq![0x2eu8]);
        }
        empty.name = name;
        empty.symbol = symbol;
        type_map.insert(0, empty);
        let mut code_map: HashMap<u16, Vec<Instr>> = HashMap::new();
        code_map.insert(0, Vec::new());
        Runtime { tag: None, code_map, type_map }
    }

    /// Registers one parsed object: pins the build tag on the first load,
    /// rejects a differing tag on any later one, and otherwise folds the
    /// header into a metadata record and stores it with the code under the
    /// object's type id.
    pub fn load_object(&mut self, o: ObjectFile) -> (r: Result<Metadata, Error>)
        ensures
            (match old(self).tag {
                Some(t) => (t@ != o.build_tag@ <==> (r matches Err(Error::BuildTagMismatch {
                    want: w,
                    got: g,
                }) && w@ == t@ && g@ == o.build_tag@)) && (t@ == o.build_tag@ ==> r is Ok),
                None => r is Ok,
            }),
            r matches Err(e) ==> (e matches Error::BuildTagMismatch { want: _, got: _ })
                && *final(self) == *old(self),
            r matches Ok(m) ==> {
                &&& meta_matches_header(m, o.header@, o.type_num)
                &&& final(self).code_map@ == old(self).code_map@.insert(o.type_num, o.code)
                &&& final(self).type_map@.dom() == old(self).type_map@.dom().insert(o.type_num)
                &&& meta_matches_header(
                    final(self).type_map@[o.type_num],
                    o.header@,
                    o.type_num,
                )
                &&& final(self).tag matches Some(t) && t@ == o.build_tag@
            },
    {
        match &self.tag {
            Some(t) => {
                if !bytes_eq(t, &o.build_tag) {
                    let want = t.clone();
                    proof {
                        assert(want@ == t@);
                    }
                    return Err(Error::BuildTagMismatch { want, got: o.build_tag });
                }
            },
            None => {},
        }
        let m = fold_metadata(&o);
        let m2 = fold_metadata(&o);
        self.tag = Some(o.build_tag);
        self.type_map.insert(o.type_num, m2);
        self.code_map.insert(o.type_num, o.code);
        Ok(m)
    }

    /// Reads one object from its byte image and registers it: the version
    /// and opcode gates of [`crate::object::parse`] first, then the build
    /// tag gate of [`Runtime::load_object`]. On any error the runtime is
    /// left as it was.
    pub fn load_from_slice(&mut self, b: &[u8]) -> (r: Result<Metadata, Error>)
        ensures
            r is Err ==> *final(self) == *old(self),
            b@.len() < 4 ==> r == Err::<Metadata, Error>(Error::IOError),
            b@.len() >= 4 ==> ((crate::object::sp_u32(b@, 0) != 0x02030741) <==> r == Err::<
                Metadata,
                Error,
            >(Error::BadMagicNumber(crate::object::sp_u32(b@, 0)))),
            b@.len() >= 4 && crate::object::sp_u32(b@, 0) == 0x02030741 && b@.len() < 6 ==> r
                == Err::<Metadata, Error>(Error::IOError),
            b@.len() >= 6 && crate::object::sp_u32(b@, 0) == 0x02030741 ==> ((crate::object::sp_u16(
                b@,
                4,
            ) != 1) <==> r == Err::<Metadata, Error>(
                Error::BadMinorVersion(crate::object::sp_u16(b@, 4)),
            )),
            b@.len() >= 6 && crate::object::sp_u32(b@, 0) == 0x02030741 && crate::object::sp_u16(
                b@,
                4,
            ) == 1 && b@.len() < 8 ==> r == Err::<Metadata, Error>(Error::IOError),
            b@.len() >= 8 && crate::object::sp_u32(b@, 0) == 0x02030741 && crate::object::sp_u16(
                b@,
                4,
            ) == 1 ==> ((crate::object::sp_u16(b@, 6) != 0) <==> r == Err::<Metadata, Error>(
                Error::BadMajorVersion(crate::object::sp_u16(b@, 6)),
            )),
            r matches Err(Error::BadMetadataOpCode(t)) ==> t > 10,
            r matches Err(Error::BadInstructionOpCode(t)) ==> t > 90,
            r matches Err(Error::BadConstantType(t)) ==> t != 0 && t != 1,
            r matches Err(Error::BuildTagMismatch { want: w, got: _ }) ==> (old(
                self,
            ).tag matches Some(t) && w@ == t@),
            (exists|o: ObjectFile|
                #![auto]
                o.wf() && o.utf8_ok() && crate::object::enc_object(&o) == b@ && (match old(
                    self,
                ).tag {
                    Some(t) => t@ == o.build_tag@,
                    None => true,
                })) ==> r is Ok,
            r matches Ok(m) ==> exists|o: ObjectFile|
                #![auto]
                {
                    &&& o.wf()
                    &&& o.utf8_ok()
                    &&& crate::object::enc_object(&o) == b@
                    &&& meta_matches_header(m, o.header@, o.type_num)
                    &&& final(self).code_map@ == old(self).code_map@.insert(o.type_num, o.code)
                    &&& final(self).type_map@.dom() == old(self).type_map@.dom().insert(o.type_num)
                    &&& meta_matches_header(
                        final(self).type_map@[o.type_num],
                        o.header@,
                        o.type_num,
                    )
                    &&& final(self).tag matches Some(t) && t@ == o.build_tag@
                    &&& (match old(self).tag {
                        Some(t0) => t0@ == o.build_tag@,
                        None => true,
                    })
                },
    {
        let ghost hyp = exists|o: ObjectFile|
            #![auto]
            o.wf() && o.utf8_ok() && crate::object::enc_object(&o) == b@ && (match self.tag {
                Some(t) => t@ == o.build_tag@,
                None => true,
            });
        let ghost wo = choose|o: ObjectFile|
            #![auto]
            o.wf() && o.utf8_ok() && crate::object::enc_object(&o) == b@ && (match self.tag {
                Some(t) => t@ == o.build_tag@,
                None => true,
            });
        let o = match crate::object::parse(b) {
            Ok(o) => o,
            Err(e) => {
                proof {
                    if hyp {
                        assert(wo.wf() && wo.utf8_ok() && crate::object::enc_object(&wo) == b@);
                    }
                }
                return Err(e);
            },
        };
        proof {
            if hyp {
                assert(wo.wf() && wo.utf8_ok() && crate::object::enc_object(&wo) == b@);
                crate::object::lemma_enc_object_tag(b@, wo);
                assert(o.build_tag@ == wo.build_tag@);
            }
        }
        let ghost go = o;
        let m = match self.load_object(o) {
            Ok(m) => m,
            Err(e) => {
                return Err(e);
            },
        };
        proof {
            assert(go.wf() && go.utf8_ok() && crate::object::enc_object(&go) == b@);
        }
        Ok(m)
    }
}

/// What one instruction did with the cursor.
#[derive(Clone, Debug)]
pub enum StepResult {
    /// Go on at the cursor's (already updated) instruction pointer.
    Continue,
    /// The program is finished.
    Halt,
    /// The program is broken; nothing further runs.
    Fail(Error),
}

/// The site value at index `i`, zero outside the window.
pub open spec fn site_get(sites: Seq<Const>, i: int) -> Const {
    if 0 <= i < 41 {
        sites[i]
    } else {
        Const::Unsigned(0)
    }
}

/// The window contents after writing `v` at index `i`; out-of-window
/// writes are dropped.
pub open spec fn site_set(sites: Seq<Const>, i: int, v: Const) -> Seq<Const> {
    if 0 <= i < 41 {
        sites.update(i, v)
    } else {
        sites
    }
}

/// The window contents after swapping two sites; degenerate swaps are
/// dropped.
pub open spec fn site_swap(sites: Seq<Const>, i: int, j: int) -> Seq<Const> {
    if 0 <= i < 41 && 0 <= j < 41 && i != j {
        sites.update(i, sites[j]).update(j, sites[i])
    } else {
        sites
    }
}

/// How a popped value names a physical site: its low byte, mapped through
/// the cursor's orientation when it is a window index.
pub open spec fn spec_site_of(v: Const, sym: Symmetries) -> int {
    let i = v.bits() % 0x100;
    if i < 41 && sym.is_single() {
        crate::mfm::map_site_spec(i as int, sym.0)
    } else {
        i as int
    }
}

/// A right shift whose amount may reach past the width: the sign is kept.
pub open spec fn shr_sat(a: Const, s: u8) -> Const {
    if s < 128 {
        match a {
            Const::Unsigned(x) => Const::Unsigned(x >> s),
            Const::Signed(x) => Const::Signed(x >> s),
        }
    } else {
        match a {
            Const::Unsigned(_) => Const::Unsigned(0),
            Const::Signed(x) => Const::Signed(
                if x < 0 {
                    -1i128
                } else {
                    0i128
                },
            ),
        }
    }
}

/// A left shift whose amount may reach past the width.
pub open spec fn shl_sat(a: Const, s: u8) -> Const {
    if s < 128 {
        match a {
            Const::Unsigned(x) => Const::Unsigned(x << s),
            Const::Signed(x) => Const::Signed(x << s),
        }
    } else {
        match a {
            Const::Unsigned(_) => Const::Unsigned(0),
            Const::Signed(_) => Const::Signed(0),
        }
    }
}

/// The type id carried by a center atom: the `TYPE` field of its value.
pub open spec fn center_type(a: Const) -> u16 {
    (a.spec_apply(FieldSelector { offset: 80u8, length: 16u8 }).bits() % 0x1_0000) as u16
}

/// The cursor fields untouched by plain stack work.
pub open spec fn frame_keeps(c: Cursor, f: Cursor) -> bool {
    &&& f.symmetry == c.symmetry
    &&& f.symmetries_stack@ == c.symmetries_stack@
    &&& f.call_stack@ == c.call_stack@
}

/// A step that pushes one value and falls through.
pub open spec fn pushes(c: Cursor, f: Cursor, v: Const) -> bool {
    &&& frame_keeps(c, f)
    &&& f.ip == c.ip + 1
    &&& f.op_stack@ == c.op_stack@.push(v)
}

/// A step that pops one value, pushes one result and falls through.
pub open spec fn unop(c: Cursor, f: Cursor, v: Const) -> bool {
    &&& frame_keeps(c, f)
    &&& f.ip == c.ip + 1
    &&& f.op_stack@ == c.op_stack@.drop_last().push(v)
}

/// A step that pops two values, pushes one result and falls through.
pub open spec fn binop(c: Cursor, f: Cursor, v: Const) -> bool {
    &&& frame_keeps(c, f)
    &&& f.ip == c.ip + 1
    &&& f.op_stack@ == c.op_stack@.drop_last().drop_last().push(v)
}

/// The comparison result an instruction pushes: 1 or 0, unsigned.
pub open spec fn flag_of(b: bool) -> Const {
    if b {
        Const::Unsigned(1)
    } else {
        Const::Unsigned(0)
    }
}

/// Executes one instruction against the window. The returned value says
/// whether execution goes on, halted, or failed; [`step_rel`] states the
/// exact stack, window and control effect of every instruction.
#[verifier::rlimit(100)]
pub fn step<T: EventWindow + Rand>(
    ew: &mut T,
    cursor: &mut Cursor,
    instr: &Instr,
    code_len: usize,
) -> (r: StepResult)
    requires
        old(ew).ew_wf(),
        old(cursor).wf(),
        old(cursor).ip < code_len,
        code_len <= 0xFFFF,
        instr.wf(),
    ensures
        final(ew).ew_wf(),
        final(cursor).wf(),
        step_rel(
            *old(cursor),
            old(ew).sites(),
            old(ew).paint(),
            *instr,
            r,
            *final(cursor),
            final(ew).sites(),
            final(ew).paint(),
        ),
        r matches StepResult::Fail(e) ==> ((e matches Error::StackUnderflow) || (
        e matches Error::DivisionByZero) || (e matches Error::ZeroJumpOffset) || (
        e matches Error::BadInstructionOpCode(_))),
{
    proof {
        reveal(step_rel);
    }
    match instr {
        Instr::Nop => {
            cursor.ip = cursor.ip + 1;
            StepResult::Continue
        },
        Instr::Exit => StepResult::Halt,
        Instr::SwapSites => {
            if cursor.op_stack.len() < 2 {
                return StepResult::Fail(Error::StackUnderflow);
            }
            let jj = cursor.pop_site();
            let ii = cursor.pop_site();
            ew.swap(ii, jj);
            cursor.ip = cursor.ip + 1;
            StepResult::Continue
        },
        Instr::SetSite => {
            if cursor.op_stack.len() < 2 {
                return StepResult::Fail(Error::StackUnderflow);
            }
            let v = cursor.pop();
            let ii = cursor.pop_site();
            ew.set(ii, v);
            cursor.ip = cursor.ip + 1;
            StepResult::Continue
        },
        Instr::SetField(fs) => {
            if cursor.op_stack.len() < 2 {
                return StepResult::Fail(Error::StackUnderflow);
            }
            let v = cursor.pop();
            let mut a = cursor.pop();
            a.store(v, fs);
            cursor.op_stack.push(a);
            cursor.ip = cursor.ip + 1;
            StepResult::Continue
        },
        Instr::SetSiteField(fs) => {
            if cursor.op_stack.len() < 2 {
                return StepResult::Fail(Error::StackUnderflow);
            }
            let v = cursor.pop();
            let ii = cursor.pop_site();
            let mut a = ew.get(ii);
            a.store(v, fs);
            ew.set(ii, a);
            cursor.ip = cursor.ip + 1;
            StepResult::Continue
        },
        Instr::GetSite => {
            if cursor.op_stack.len() < 1 {
                return StepResult::Fail(Error::StackUnderflow);
            }
            let ii = cursor.pop_site();
            let v = ew.get(ii);
            cursor.op_stack.push(v);
            cursor.ip = cursor.ip + 1;
            StepResult::Continue
        },
        Instr::GetField(fs) => {
            if cursor.op_stack.len() < 1 {
                return StepResult::Fail(Error::StackUnderflow);
            }
            let a = cursor.pop();
            cursor.op_stack.push(a.apply(fs));
            cursor.ip = cursor.ip + 1;
            StepResult::Continue
        },
        Instr::GetSiteField(fs) => {
            if cursor.op_stack.len() < 1 {
                return StepResult::Fail(Error::StackUnderflow);
            }
            let ii = cursor.pop_site();
            cursor.op_stack.push(ew.get(ii).apply(fs));
            cursor.ip = cursor.ip + 1;
            StepResult::Continue
        },
        Instr::GetSignedField(fs) => {
            if cursor.op_stack.len() < 1 {
                return StepResult::Fail(Error::StackUnderflow);
            }
            let a = cursor.pop();
            let x = a.apply(fs);
            cursor.op_stack.push(Const::Signed(x.to_i128()));
            cursor.ip = cursor.ip + 1;
            StepResult::Continue
        },
        Instr::GetSignedSiteField(fs) => {
            if cursor.op_stack.len() < 1 {
                return StepResult::Fail(Error::StackUnderflow);
            }
            let ii = cursor.pop_site();
            let x = ew.get(ii).apply(fs);
            cursor.op_stack.push(Const::Signed(x.to_i128()));
            cursor.ip = cursor.ip + 1;
            StepResult::Continue
        },
        Instr::GetType(t) => {
            cursor.op_stack.push(Const::from_u16(*t));
            cursor.ip = cursor.ip + 1;
            StepResult::Continue
        },
        Instr::GetParameter(c) => {
            cursor.op_stack.push(*c);
            cursor.ip = cursor.ip + 1;
            StepResult::Continue
        },
        Instr::Scan => StepResult::Fail(Error::BadInstructionOpCode(13)),
        Instr::SaveSymmetries => {
            let s = cursor.symmetry;
            cursor.symmetries_stack.push(s);
            cursor.ip = cursor.ip + 1;
            StepResult::Continue
        },
        Instr::UseSymmetries(s) => {
            let r32 = ew.rand_u32();
            cursor.symmetry = crate::mfm::select_symmetries(r32, *s);
            cursor.ip = cursor.ip + 1;
            StepResult::Continue
        },
        Instr::RestoreSymmetries => {
            if cursor.symmetries_stack.len() == 0 {
                return StepResult::Fail(Error::StackUnderflow);
            }
            match cursor.symmetries_stack.pop() {
                Some(s) => {
                    cursor.symmetry = s;
                    cursor.ip = cursor.ip + 1;
                    StepResult::Continue
                },
                None => unreached(),
            }
        },
        Instr::PushSmall(n) => {
            cursor.op_stack.push(Const::from_u8(*n));
            cursor.ip = cursor.ip + 1;
            StepResult::Continue
        },
        Instr::Push(c) => {
            cursor.op_stack.push(*c);
            cursor.ip = cursor.ip + 1;
            StepResult::Continue
        },
        Instr::Pop => {
            if cursor.op_stack.len() < 1 {
                return StepResult::Fail(Error::StackUnderflow);
            }
            let _ = cursor.pop();
            cursor.ip = cursor.ip + 1;
            StepResult::Continue
        },
        Instr::Dup => {
            if cursor.op_stack.len() < 1 {
                return StepResult::Fail(Error::StackUnderflow);
            }
            let t = cursor.op_stack[cursor.op_stack.len() - 1];
            cursor.op_stack.push(t);
            cursor.ip = cursor.ip + 1;
            StepResult::Continue
        },
        Instr::Over => {
            if cursor.op_stack.len() < 2 {
                return StepResult::Fail(Error::StackUnderflow);
            }
            let t = cursor.op_stack[cursor.op_stack.len() - 2];
            cursor.op_stack.push(t);
            cursor.ip = cursor.ip + 1;
            StepResult::Continue
        },
        Instr::Swap => {
            if cursor.op_stack.len() < 2 {
                return StepResult::Fail(Error::StackUnderflow);
            }
            let n = cursor.op_stack.len();
            let a = cursor.op_stack[n - 2];
            let b = cursor.op_stack[n - 1];
            cursor.op_stack.set(n - 2, b);
            cursor.op_stack.set(n - 1, a);
            cursor.ip = cursor.ip + 1;
            StepResult::Continue
        },
        Instr::Rot => {
            if cursor.op_stack.len() < 3 {
                return StepResult::Fail(Error::StackUnderflow);
            }
            let n = cursor.op_stack.len();
            let x = cursor.op_stack[n - 3];
            let y = cursor.op_stack[n - 2];
            let z = cursor.op_stack[n - 1];
            cursor.op_stack.set(n - 3, z);
            cursor.op_stack.set(n - 2, x);
            cursor.op_stack.set(n - 1, y);
            cursor.ip = cursor.ip + 1;
            StepResult::Continue
        },
        Instr::Call(t) => {
            let here = cursor.ip;
            cursor.call_stack.push(here);
            cursor.ip = *t as usize;
            StepResult::Continue
        },
        Instr::Ret => {
            if cursor.call_stack.len() == 0 {
                return StepResult::Halt;
            }
            match cursor.call_stack.pop() {
                Some(ip0) => {
                    if ip0 >= 0xFFFF {
                        StepResult::Halt
                    } else {
                        cursor.ip = ip0 + 1;
                        StepResult::Continue
                    }
                },
                None => unreached(),
            }
        },
        Instr::Checksum => StepResult::Fail(Error::BadInstructionOpCode(66)),
        Instr::Add => {
            if cursor.op_stack.len() < 2 {
                return StepResult::Fail(Error::StackUnderflow);
            }
            let b = cursor.pop();
            let a = cursor.pop();
            cursor.op_stack.push(a.add(b));
            cursor.ip = cursor.ip + 1;
            StepResult::Continue
        },
        Instr::Sub => {
            if cursor.op_stack.len() < 2 {
                return StepResult::Fail(Error::StackUnderflow);
            }
            let b = cursor.pop();
            let a = cursor.pop();
            cursor.op_stack.push(a.sub(b));
            cursor.ip = cursor.ip + 1;
            StepResult::Continue
        },
        Instr::Neg => {
            if cursor.op_stack.len() < 1 {
                return StepResult::Fail(Error::StackUnderflow);
            }
            let a = cursor.pop();
            cursor.op_stack.push(a.neg());
            cursor.ip = cursor.ip + 1;
            StepResult::Continue
        },
        Instr::Mod => {
            if cursor.op_stack.len() < 2 {
                return StepResult::Fail(Error::StackUnderflow);
            }
            if cursor.op_stack[cursor.op_stack.len() - 1].is_zero() {
                return StepResult::Fail(Error::DivisionByZero);
            }
            let b = cursor.pop();
            let a = cursor.pop();
            cursor.op_stack.push(a.rem(b));
            cursor.ip = cursor.ip + 1;
            StepResult::Continue
        },
        Instr::Mul => {
            if cursor.op_stack.len() < 2 {
                return StepResult::Fail(Error::StackUnderflow);
            }
            let b = cursor.pop();
            let a = cursor.pop();
            cursor.op_stack.push(a.mul(b));
            cursor.ip = cursor.ip + 1;
            StepResult::Continue
        },
        Instr::Div => {
            if cursor.op_stack.len() < 2 {
                return StepResult::Fail(Error::StackUnderflow);
            }
            if cursor.op_stack[cursor.op_stack.len() - 1].is_zero() {
                return StepResult::Fail(Error::DivisionByZero);
            }
            let b = cursor.pop();
            let a = cursor.pop();
            cursor.op_stack.push(a.div(b));
            cursor.ip = cursor.ip + 1;
            StepResult::Continue
        },
        Instr::Less => {
            if cursor.op_stack.len() < 2 {
                return StepResult::Fail(Error::StackUnderflow);
            }
            let b = cursor.pop();
            let a = cursor.pop();
            cursor.op_stack.push(flag_value(a < b));
            cursor.ip = cursor.ip + 1;
            StepResult::Continue
        },
        Instr::LessEqual => {
            if cursor.op_stack.len() < 2 {
                return StepResult::Fail(Error::StackUnderflow);
            }
            let b = cursor.pop();
            let a = cursor.pop();
            cursor.op_stack.push(flag_value(!(b < a)));
            cursor.ip = cursor.ip + 1;
            StepResult::Continue
        },
        Instr::Or => {
            if cursor.op_stack.len() < 2 {
                return StepResult::Fail(Error::StackUnderflow);
            }
            let b = cursor.pop();
            let a = cursor.pop();
            cursor.op_stack.push(a.bitor(b));
            cursor.ip = cursor.ip + 1;
            StepResult::Continue
        },
        Instr::And => {
            if cursor.op_stack.len() < 2 {
                return StepResult::Fail(Error::StackUnderflow);
            }
            let b = cursor.pop();
            let a = cursor.pop();
            cursor.op_stack.push(a.bitand(b));
            cursor.ip = cursor.ip + 1;
            StepResult::Continue
        },
        Instr::Xor => {
            if cursor.op_stack.len() < 2 {
                return StepResult::Fail(Error::StackUnderflow);
            }
            let b = cursor.pop();
            let a = cursor.pop();
            cursor.op_stack.push(a.bitxor(b));
            cursor.ip = cursor.ip + 1;
            StepResult::Continue
        },
        Instr::Equal => {
            if cursor.op_stack.len() < 2 {
                return StepResult::Fail(Error::StackUnderflow);
            }
            let b = cursor.pop();
            let a = cursor.pop();
            cursor.op_stack.push(flag_value(a == b));
            cursor.ip = cursor.ip + 1;
            StepResult::Continue
        },
        Instr::BitCount => {
            if cursor.op_stack.len() < 1 {
                return StepResult::Fail(Error::StackUnderflow);
            }
            let a = cursor.pop();
            cursor.op_stack.push(Const::from_u32(a.count_ones()));
            cursor.ip = cursor.ip + 1;
            StepResult::Continue
        },
        Instr::BitScanForward => {
            if cursor.op_stack.len() < 1 {
                return StepResult::Fail(Error::StackUnderflow);
            }
            let a = cursor.pop();
            cursor.op_stack.push(Const::from_u32(a.bitscanforward()));
            cursor.ip = cursor.ip + 1;
            StepResult::Continue
        },
        Instr::BitScanReverse => {
            if cursor.op_stack.len() < 1 {
                return StepResult::Fail(Error::StackUnderflow);
            }
            let a = cursor.pop();
            cursor.op_stack.push(Const::from_u32(a.bitscanreverse()));
            cursor.ip = cursor.ip + 1;
            StepResult::Continue
        },
        Instr::LShift => {
            if cursor.op_stack.len() < 2 {
                return StepResult::Fail(Error::StackUnderflow);
            }
            let b = cursor.pop();
            let a = cursor.pop();
            let sh = b.to_u8();
            let v = if sh < 128 {
                a.shr(sh)
            } else {
                match a {
                    Const::Unsigned(_) => Const::Unsigned(0),
                    Const::Signed(x) => Const::Signed(
                        if x < 0 {
                            -1
                        } else {
                            0
                        },
                    ),
                }
            };
            cursor.op_stack.push(v);
            cursor.ip = cursor.ip + 1;
            StepResult::Continue
        },
        Instr::RShift => {
            if cursor.op_stack.len() < 2 {
                return StepResult::Fail(Error::StackUnderflow);
            }
            let b = cursor.pop();
            let a = cursor.pop();
            let sh = b.to_u8();
            let v = if sh < 128 {
                a.shl(sh)
            } else {
                match a {
                    Const::Unsigned(_) => Const::Unsigned(0),
                    Const::Signed(_) => Const::Signed(0),
                }
            };
            cursor.op_stack.push(v);
            cursor.ip = cursor.ip + 1;
            StepResult::Continue
        },
        Instr::Jump(t) => {
            cursor.ip = *t as usize;
            StepResult::Continue
        },
        Instr::JumpRelativeOffset => {
            if cursor.op_stack.len() < 1 {
                return StepResult::Fail(Error::StackUnderflow);
            }
            if cursor.op_stack[cursor.op_stack.len() - 1].is_zero() {
                return StepResult::Fail(Error::ZeroJumpOffset);
            }
            let d = cursor.pop();
            let target: usize = match d {
                Const::Unsigned(x) => {
                    if x > 0xFFFF {
                        0xFFFF
                    } else if cursor.ip + (x as usize) > 0xFFFF {
                        0xFFFF
                    } else {
                        cursor.ip + (x as usize)
                    }
                },
                Const::Signed(v) => {
                    if v >= 0 {
                        if v > 0xFFFF {
                            0xFFFF
                        } else if cursor.ip + (v as usize) > 0xFFFF {
                            0xFFFF
                        } else {
                            cursor.ip + (v as usize)
                        }
                    } else {
                        let m: u128 = ((-(v + 1)) as u128) + 1;
                        if m <= cursor.ip as u128 {
                            cursor.ip - (m as usize)
                        } else {
                            0xFFFF
                        }
                    }
                },
            };
            cursor.ip = target;
            StepResult::Continue
        },
        Instr::JumpZero(t) => {
            if cursor.op_stack.len() < 1 {
                return StepResult::Fail(Error::StackUnderflow);
            }
            let x = cursor.pop();
            if x.is_zero() {
                cursor.ip = *t as usize;
            } else {
                cursor.ip = cursor.ip + 1;
            }
            StepResult::Continue
        },
        Instr::JumpNonZero(t) => {
            if cursor.op_stack.len() < 1 {
                return StepResult::Fail(Error::StackUnderflow);
            }
            let x = cursor.pop();
            if !x.is_zero() {
                cursor.ip = *t as usize;
            } else {
                cursor.ip = cursor.ip + 1;
            }
            StepResult::Continue
        },
        Instr::SetPaint => {
            if cursor.op_stack.len() < 1 {
                return StepResult::Fail(Error::StackUnderflow);
            }
            let c = cursor.pop();
            ew.set_paint(Color(c.to_u32()));
            cursor.ip = cursor.ip + 1;
            StepResult::Continue
        },
        Instr::GetPaint => {
            let p = ew.get_paint();
            cursor.op_stack.push(Const::from_u32(p.bits()));
            cursor.ip = cursor.ip + 1;
            StepResult::Continue
        },
        Instr::Rand => {
            let v = ew.rand();
            cursor.op_stack.push(v);
            proof {
                assert(cursor.op_stack@.drop_last() =~= old(cursor).op_stack@);
            }
            cursor.ip = cursor.ip + 1;
            StepResult::Continue
        },
    }
}

/// The 0-or-1 constant a comparison pushes.
fn flag_value(b: bool) -> (r: Const)
    ensures
        r == flag_of(b),
{
    if b {
        Const::Unsigned(1)
    } else {
        Const::Unsigned(0)
    }
}


/// Where a relative jump lands: the offset is added to or subtracted from
/// the instruction pointer, clamping at the `0xFFFF` end mark.
pub open spec fn rel_target(ip: int, d: Const) -> int {
    let v = d.ival();
    if v >= 0 {
        if ip + v > 0xFFFF {
            0xFFFF
        } else {
            ip + v
        }
    } else {
        if ip + v >= 0 {
            ip + v
        } else {
            0xFFFF
        }
    }
}

/// The window kept as it was.
pub open spec fn ew_same(s0: Seq<Const>, p0: u32, s1: Seq<Const>, p1: u32) -> bool {
    s1 == s0 && p1 == p0
}

/// A failing step: the error is reported and nothing changes.
pub open spec fn stuck(
    r: StepResult,
    c0: Cursor,
    c1: Cursor,
    s0: Seq<Const>,
    p0: u32,
    s1: Seq<Const>,
    p1: u32,
    e: Error,
) -> bool {
    &&& r matches StepResult::Fail(err) && err == e
    &&& c1 == c0
    &&& ew_same(s0, p0, s1, p1)
}

/// What a two-operand arithmetic instruction pushes for operands `a`
/// above `b`; instructions without two operands keep `a`.
pub open spec fn binop_result(i: Instr, a: Const, b: Const) -> Const {
    match i {
        Instr::Add => a.spec_add(b),
        Instr::Sub => a.spec_sub(b),
        Instr::Mul => a.spec_mul(b),
        Instr::Less => flag_of(a.ival() < b.ival()),
        Instr::LessEqual => flag_of(a.ival() <= b.ival()),
        Instr::Or => a.spec_bitor(b),
        Instr::And => a.spec_bitand(b),
        Instr::Xor => a.spec_bitxor(b),
        Instr::Equal => flag_of(a.ival() == b.ival()),
        Instr::LShift => shr_sat(a, (b.bits() % 0x100) as u8),
        Instr::RShift => shl_sat(a, (b.bits() % 0x100) as u8),
        _ => a,
    }
}

/// What a one-operand bit instruction pushes for operand `a`; other
/// instructions keep `a`.
pub open spec fn unop_result(i: Instr, a: Const) -> Const {
    match i {
        Instr::Neg => a.spec_neg(),
        Instr::BitCount => Const::Unsigned(crate::arith::popcount(a.bits()) as u128),
        Instr::BitScanForward => Const::Unsigned(crate::arith::trailing_zero_count(a.bits()) as u128),
        Instr::BitScanReverse => Const::Unsigned(crate::arith::leading_zero_count(a.bits()) as u128),
        _ => a,
    }
}

/// A two-operand arithmetic step: underflow fails, otherwise the two top
/// values combine by the instruction's operation.
pub open spec fn binop_case(
    r: StepResult,
    c0: Cursor,
    c1: Cursor,
    s0: Seq<Const>,
    p0: u32,
    s1: Seq<Const>,
    p1: u32,
    i: Instr,
) -> bool {
    if c0.op_stack@.len() < 2 {
        stuck(r, c0, c1, s0, p0, s1, p1, Error::StackUnderflow)
    } else {
        let b = c0.op_stack@.last();
        let a = c0.op_stack@[c0.op_stack@.len() - 2];
        (r matches StepResult::Continue) && binop(c0, c1, binop_result(i, a, b)) && ew_same(
            s0,
            p0,
            s1,
            p1,
        )
    }
}

/// A one-operand arithmetic step.
pub open spec fn unop_case(
    r: StepResult,
    c0: Cursor,
    c1: Cursor,
    s0: Seq<Const>,
    p0: u32,
    s1: Seq<Const>,
    p1: u32,
    i: Instr,
) -> bool {
    if c0.op_stack@.len() < 1 {
        stuck(r, c0, c1, s0, p0, s1, p1, Error::StackUnderflow)
    } else {
        (r matches StepResult::Continue) && unop(c0, c1, unop_result(i, c0.op_stack@.last()))
            && ew_same(s0, p0, s1, p1)
    }
}

/// A division or remainder step: a zero divisor fails, otherwise as a
/// two-operand step.
pub open spec fn divmod_case(
    r: StepResult,
    c0: Cursor,
    c1: Cursor,
    s0: Seq<Const>,
    p0: u32,
    s1: Seq<Const>,
    p1: u32,
    is_div: bool,
) -> bool {
    if c0.op_stack@.len() < 2 {
        stuck(r, c0, c1, s0, p0, s1, p1, Error::StackUnderflow)
    } else if c0.op_stack@.last().ival() == 0 {
        stuck(r, c0, c1, s0, p0, s1, p1, Error::DivisionByZero)
    } else {
        let b = c0.op_stack@.last();
        let a = c0.op_stack@[c0.op_stack@.len() - 2];
        (r matches StepResult::Continue) && binop(
            c0,
            c1,
            if is_div {
                a.spec_div(b)
            } else {
                a.spec_rem(b)
            },
        ) && ew_same(s0, p0, s1, p1)
    }
}

/// The exact effect of one instruction: relates the cursor, window
/// contents and paint before a step to those after it, and the step's
/// reported outcome.
#[verifier::opaque]
pub open spec fn step_rel(
    c0: Cursor,
    s0: Seq<Const>,
    p0: u32,
    instr: Instr,
    r: StepResult,
    c1: Cursor,
    s1: Seq<Const>,
    p1: u32,
) -> bool {
    (match instr {
            Instr::Nop => (r matches StepResult::Continue) && frame_keeps(
                c0,
                c1,
            ) && c1.ip == c0.ip + 1 && c1.op_stack@ == c0.op_stack@ && ew_same(s0, p0, s1, p1),
            Instr::Exit => (r matches StepResult::Halt) && c1 == c0
                && ew_same(s0, p0, s1, p1),
            Instr::SwapSites => if c0.op_stack@.len() < 2 {
                stuck(r, c0, c1, s0, p0, s1, p1, Error::StackUnderflow)
            } else {
                let jj = spec_site_of(c0.op_stack@.last(), c0.symmetry);
                let ii = spec_site_of(
                    c0.op_stack@[c0.op_stack@.len() - 2],
                    c0.symmetry,
                );
                (r matches StepResult::Continue) && frame_keeps(c0, c1)
                    && c1.ip == c0.ip + 1 && c1.op_stack@ == c0.op_stack@.drop_last().drop_last() && s1 == site_swap(
                    s0,
                    ii,
                    jj,
                ) && p1 == p0
            },
            Instr::SetSite => if c0.op_stack@.len() < 2 {
                stuck(r, c0, c1, s0, p0, s1, p1, Error::StackUnderflow)
            } else {
                let v = c0.op_stack@.last();
                let ii = spec_site_of(
                    c0.op_stack@[c0.op_stack@.len() - 2],
                    c0.symmetry,
                );
                (r matches StepResult::Continue) && frame_keeps(c0, c1)
                    && c1.ip == c0.ip + 1 && c1.op_stack@ == c0.op_stack@.drop_last().drop_last() && s1 == site_set(
                    s0,
                    ii,
                    v,
                ) && p1 == p0
            },
            Instr::SetField(fs) => if c0.op_stack@.len() < 2 {
                stuck(r, c0, c1, s0, p0, s1, p1, Error::StackUnderflow)
            } else {
                let v = c0.op_stack@.last();
                let a = c0.op_stack@[c0.op_stack@.len() - 2];
                (r matches StepResult::Continue) && binop(
                    c0,
                    c1,
                    a.spec_store(v, fs),
                ) && ew_same(s0, p0, s1, p1)
            },
            Instr::SetSiteField(fs) => if c0.op_stack@.len() < 2 {
                stuck(r, c0, c1, s0, p0, s1, p1, Error::StackUnderflow)
            } else {
                let v = c0.op_stack@.last();
                let ii = spec_site_of(
                    c0.op_stack@[c0.op_stack@.len() - 2],
                    c0.symmetry,
                );
                let merged = site_get(s0, ii).spec_store(v, fs);
                (r matches StepResult::Continue) && frame_keeps(c0, c1)
                    && c1.ip == c0.ip + 1 && c1.op_stack@ == c0.op_stack@.drop_last().drop_last() && s1 == site_set(
                    s0,
                    ii,
                    merged,
                ) && p1 == p0
            },
            Instr::GetSite => if c0.op_stack@.len() < 1 {
                stuck(r, c0, c1, s0, p0, s1, p1, Error::StackUnderflow)
            } else {
                let ii = spec_site_of(c0.op_stack@.last(), c0.symmetry);
                (r matches StepResult::Continue) && unop(
                    c0,
                    c1,
                    site_get(s0, ii),
                ) && ew_same(s0, p0, s1, p1)
            },
            Instr::GetField(fs) => if c0.op_stack@.len() < 1 {
                stuck(r, c0, c1, s0, p0, s1, p1, Error::StackUnderflow)
            } else {
                (r matches StepResult::Continue) && unop(
                    c0,
                    c1,
                    c0.op_stack@.last().spec_apply(fs),
                ) && ew_same(s0, p0, s1, p1)
            },
            Instr::GetSiteField(fs) => if c0.op_stack@.len() < 1 {
                stuck(r, c0, c1, s0, p0, s1, p1, Error::StackUnderflow)
            } else {
                let ii = spec_site_of(c0.op_stack@.last(), c0.symmetry);
                (r matches StepResult::Continue) && unop(
                    c0,
                    c1,
                    site_get(s0, ii).spec_apply(fs),
                ) && ew_same(s0, p0, s1, p1)
            },
            Instr::GetSignedField(fs) => if c0.op_stack@.len() < 1 {
                stuck(r, c0, c1, s0, p0, s1, p1, Error::StackUnderflow)
            } else {
                (r matches StepResult::Continue) && unop(
                    c0,
                    c1,
                    Const::Signed(
                        crate::arith::i128_of_u128(
                            c0.op_stack@.last().spec_apply(fs).bits(),
                        ),
                    ),
                ) && ew_same(s0, p0, s1, p1)
            },
            Instr::GetSignedSiteField(fs) => if c0.op_stack@.len() < 1 {
                stuck(r, c0, c1, s0, p0, s1, p1, Error::StackUnderflow)
            } else {
                let ii = spec_site_of(c0.op_stack@.last(), c0.symmetry);
                (r matches StepResult::Continue) && unop(
                    c0,
                    c1,
                    Const::Signed(
                        crate::arith::i128_of_u128(
                            site_get(s0, ii).spec_apply(fs).bits(),
                        ),
                    ),
                ) && ew_same(s0, p0, s1, p1)
            },
            Instr::GetType(t) => (r matches StepResult::Continue) && pushes(
                c0,
                c1,
                Const::Unsigned(t as u128),
            ) && ew_same(s0, p0, s1, p1),
            Instr::GetParameter(c) => (r matches StepResult::Continue) && pushes(
                c0,
                c1,
                c,
            ) && ew_same(s0, p0, s1, p1),
            Instr::Scan => stuck(r, c0, c1, s0, p0, s1, p1, Error::BadInstructionOpCode(13)),
            Instr::SaveSymmetries => (r matches StepResult::Continue) && c1.ip == c0.ip + 1 && c1.symmetry == c0.symmetry && c1.symmetries_stack@ == c0.symmetries_stack@.push(c0.symmetry)
                && c1.call_stack@ == c0.call_stack@ && c1.op_stack@
                == c0.op_stack@ && ew_same(s0, p0, s1, p1),
            Instr::UseSymmetries(s) => (r matches StepResult::Continue) && c1.ip == c0.ip + 1 && c1.symmetry.is_single() && (s.0 != 0 ==> c1.symmetry.0 & s.0 == c1.symmetry.0) && (s.0 == 0 ==> c1.symmetry.0 == 1) && c1.symmetries_stack@ == c0.symmetries_stack@
                && c1.call_stack@ == c0.call_stack@ && c1.op_stack@
                == c0.op_stack@ && s1 == s0 && p1 == p0,
            Instr::RestoreSymmetries => if c0.symmetries_stack@.len() == 0 {
                stuck(r, c0, c1, s0, p0, s1, p1, Error::StackUnderflow)
            } else {
                (r matches StepResult::Continue) && c1.ip == c0.ip + 1 && c1.symmetry == c0.symmetries_stack@.last() && c1.symmetries_stack@ == c0.symmetries_stack@.drop_last() && c1.call_stack@ == c0.call_stack@ && c1.op_stack@ == c0.op_stack@ && ew_same(s0, p0, s1, p1)
            },
            Instr::PushSmall(n) => (r matches StepResult::Continue) && pushes(
                c0,
                c1,
                Const::Unsigned(n as u128),
            ) && ew_same(s0, p0, s1, p1),
            Instr::Push(c) => (r matches StepResult::Continue) && pushes(
                c0,
                c1,
                c,
            ) && ew_same(s0, p0, s1, p1),
            Instr::Pop => if c0.op_stack@.len() < 1 {
                stuck(r, c0, c1, s0, p0, s1, p1, Error::StackUnderflow)
            } else {
                (r matches StepResult::Continue) && frame_keeps(c0, c1)
                    && c1.ip == c0.ip + 1 && c1.op_stack@ == c0.op_stack@.drop_last() && ew_same(s0, p0, s1, p1)
            },
            Instr::Dup => if c0.op_stack@.len() < 1 {
                stuck(r, c0, c1, s0, p0, s1, p1, Error::StackUnderflow)
            } else {
                (r matches StepResult::Continue) && pushes(
                    c0,
                    c1,
                    c0.op_stack@.last(),
                ) && ew_same(s0, p0, s1, p1)
            },
            Instr::Over => if c0.op_stack@.len() < 2 {
                stuck(r, c0, c1, s0, p0, s1, p1, Error::StackUnderflow)
            } else {
                (r matches StepResult::Continue) && pushes(
                    c0,
                    c1,
                    c0.op_stack@[c0.op_stack@.len() - 2],
                ) && ew_same(s0, p0, s1, p1)
            },
            Instr::Swap => if c0.op_stack@.len() < 2 {
                stuck(r, c0, c1, s0, p0, s1, p1, Error::StackUnderflow)
            } else {
                let n = c0.op_stack@.len();
                (r matches StepResult::Continue) && frame_keeps(c0, c1)
                    && c1.ip == c0.ip + 1 && c1.op_stack@ == c0.op_stack@.update(n - 2, c0.op_stack@[n - 1]).update(
                    n - 1,
                    c0.op_stack@[n - 2],
                ) && ew_same(s0, p0, s1, p1)
            },
            Instr::Rot => if c0.op_stack@.len() < 3 {
                stuck(r, c0, c1, s0, p0, s1, p1, Error::StackUnderflow)
            } else {
                let n = c0.op_stack@.len();
                (r matches StepResult::Continue) && frame_keeps(c0, c1)
                    && c1.ip == c0.ip + 1 && c1.op_stack@ == c0.op_stack@.update(n - 3, c0.op_stack@[n - 1]).update(
                    n - 2,
                    c0.op_stack@[n - 3],
                ).update(n - 1, c0.op_stack@[n - 2]) && ew_same(s0, p0, s1, p1)
            },
            Instr::Call(t) => (r matches StepResult::Continue) && c1.ip == t && c1.symmetry == c0.symmetry && c1.symmetries_stack@ == c0.symmetries_stack@ && c1.call_stack@ == c0.call_stack@.push(
                c0.ip,
            ) && c1.op_stack@ == c0.op_stack@ && ew_same(s0, p0, s1, p1),
            Instr::Ret => if c0.call_stack@.len() == 0 {
                (r matches StepResult::Halt) && c1 == c0 && ew_same(s0, p0, s1, p1)
            } else if c0.call_stack@.last() >= 0xFFFF {
                (r matches StepResult::Halt) && c1.call_stack@ == c0.call_stack@.drop_last() && c1.ip == c0.ip && c1.symmetry == c0.symmetry && c1.symmetries_stack@ == c0.symmetries_stack@ && c1.op_stack@ == c0.op_stack@ && ew_same(s0, p0, s1, p1)
            } else {
                (r matches StepResult::Continue) && c1.ip == c0.call_stack@.last() + 1 && c1.call_stack@ == c0.call_stack@.drop_last() && c1.symmetry == c0.symmetry
                    && c1.symmetries_stack@ == c0.symmetries_stack@ && c1.op_stack@ == c0.op_stack@ && ew_same(s0, p0, s1, p1)
            },
            Instr::Checksum => stuck(r, c0, c1, s0, p0, s1, p1, Error::BadInstructionOpCode(66)),
            Instr::Add => binop_case(r, c0, c1, s0, p0, s1, p1, instr),
            Instr::Sub => binop_case(r, c0, c1, s0, p0, s1, p1, instr),
            Instr::Neg => if c0.op_stack@.len() < 1 {
                stuck(r, c0, c1, s0, p0, s1, p1, Error::StackUnderflow)
            } else {
                (r matches StepResult::Continue) && unop(
                    c0,
                    c1,
                    c0.op_stack@.last().spec_neg(),
                ) && ew_same(s0, p0, s1, p1)
            },
            Instr::Mod => divmod_case(r, c0, c1, s0, p0, s1, p1, false),
            Instr::Mul => binop_case(r, c0, c1, s0, p0, s1, p1, instr),
            Instr::Div => divmod_case(r, c0, c1, s0, p0, s1, p1, true),
            Instr::Less => binop_case(r, c0, c1, s0, p0, s1, p1, instr),
            Instr::LessEqual => binop_case(r, c0, c1, s0, p0, s1, p1, instr),
            Instr::Or => binop_case(r, c0, c1, s0, p0, s1, p1, instr),
            Instr::And => binop_case(r, c0, c1, s0, p0, s1, p1, instr),
            Instr::Xor => binop_case(r, c0, c1, s0, p0, s1, p1, instr),
            Instr::Equal => binop_case(r, c0, c1, s0, p0, s1, p1, instr),
            Instr::BitCount => unop_case(r, c0, c1, s0, p0, s1, p1, instr),
            Instr::BitScanForward => unop_case(r, c0, c1, s0, p0, s1, p1, instr),
            Instr::BitScanReverse => unop_case(r, c0, c1, s0, p0, s1, p1, instr),
            Instr::LShift => binop_case(r, c0, c1, s0, p0, s1, p1, instr),
            Instr::RShift => binop_case(r, c0, c1, s0, p0, s1, p1, instr),
            Instr::Jump(t) => (r matches StepResult::Continue) && c1.ip == t && c1.symmetry == c0.symmetry && c1.symmetries_stack@ == c0.symmetries_stack@ && c1.call_stack@ == c0.call_stack@ && c1.op_stack@ == c0.op_stack@ && ew_same(s0, p0, s1, p1),
            Instr::JumpRelativeOffset => if c0.op_stack@.len() < 1 {
                stuck(r, c0, c1, s0, p0, s1, p1, Error::StackUnderflow)
            } else if c0.op_stack@.last().ival() == 0 {
                stuck(r, c0, c1, s0, p0, s1, p1, Error::ZeroJumpOffset)
            } else {
                (r matches StepResult::Continue) && frame_keeps(c0, c1)
                    && c1.op_stack@ == c0.op_stack@.drop_last() && c1.ip == rel_target(c0.ip as int, c0.op_stack@.last()) && ew_same(s0, p0, s1, p1)
            },
            Instr::JumpZero(t) => if c0.op_stack@.len() < 1 {
                stuck(r, c0, c1, s0, p0, s1, p1, Error::StackUnderflow)
            } else {
                (r matches StepResult::Continue) && frame_keeps(c0, c1)
                    && c1.op_stack@ == c0.op_stack@.drop_last() && c1.ip == (if c0.op_stack@.last().ival() == 0 {
                    t as int
                } else {
                    c0.ip + 1
                }) && ew_same(s0, p0, s1, p1)
            },
            Instr::JumpNonZero(t) => if c0.op_stack@.len() < 1 {
                stuck(r, c0, c1, s0, p0, s1, p1, Error::StackUnderflow)
            } else {
                (r matches StepResult::Continue) && frame_keeps(c0, c1)
                    && c1.op_stack@ == c0.op_stack@.drop_last() && c1.ip == (if c0.op_stack@.last().ival() != 0 {
                    t as int
                } else {
                    c0.ip + 1
                }) && ew_same(s0, p0, s1, p1)
            },
            Instr::SetPaint => if c0.op_stack@.len() < 1 {
                stuck(r, c0, c1, s0, p0, s1, p1, Error::StackUnderflow)
            } else {
                (r matches StepResult::Continue) && frame_keeps(c0, c1)
                    && c1.ip == c0.ip + 1 && c1.op_stack@ == c0.op_stack@.drop_last() && s1 == s0 && p1
                    == c0.op_stack@.last().bits() % 0x1_0000_0000
            },
            Instr::GetPaint => (r matches StepResult::Continue) && pushes(
                c0,
                c1,
                Const::Unsigned(p0 as u128),
            ) && ew_same(s0, p0, s1, p1),
            Instr::Rand => (r matches StepResult::Continue) && frame_keeps(
                c0,
                c1,
            ) && c1.ip == c0.ip + 1 && c1.op_stack@.len() == c0.op_stack@.len() + 1 && c1.op_stack@.drop_last() == c0.op_stack@
                && (c1.op_stack@.last() is Unsigned) && c1.op_stack@.last().bits() < 0x1_0000_0000_0000_0000_0000_0000 && s1
                == s0 && p1 == p0,
        })
}

/// The spec-level machine state one event works on: the cursor fields
/// beside the window's 41 sites and paint value.
pub struct VmState {
    pub ip: int,
    pub symmetry: Symmetries,
    pub sym_stack: Seq<Symmetries>,
    pub call_stack: Seq<usize>,
    pub op_stack: Seq<Const>,
    pub sites: Seq<Const>,
    pub paint: u32,
}

/// What one step may draw from the window's generator: the orientation a
/// `UseSymmetries` selects and the constant a `Rand` pushes.
pub struct VmDraw {
    pub sym: Symmetries,
    pub val: Const,
}

/// A draw the window interface can produce: a single orientation flag and
/// an unsigned 96-bit constant.
pub open spec fn draw_wf(d: VmDraw) -> bool {
    d.sym.is_single() && d.val is Unsigned && d.val.bits() < 0x1_0000_0000_0000_0000_0000_0000
}

pub open spec fn draws_wf(ds: Seq<VmDraw>) -> bool {
    forall|i: int| 0 <= i < ds.len() ==> draw_wf(#[trigger] ds[i])
}

/// The machine state a cursor and window stand for.
pub open spec fn state_of(c: Cursor, sites: Seq<Const>, paint: u32) -> VmState {
    VmState {
        ip: c.ip as int,
        symmetry: c.symmetry,
        sym_stack: c.symmetries_stack@,
        call_stack: c.call_stack@,
        op_stack: c.op_stack@,
        sites,
        paint,
    }
}

/// What one spec-level step did.
pub enum StepOut {
    Next(VmState),
    Halted(VmState),
    Failed(Error, VmState),
}

/// Casts a step's reported outcome and final state into [`StepOut`] form.
pub open spec fn out_of(r: StepResult, fin: VmState) -> StepOut {
    match r {
        StepResult::Continue => StepOut::Next(fin),
        StepResult::Halt => StepOut::Halted(fin),
        StepResult::Fail(e) => StepOut::Failed(e, fin),
    }
}

/// The orientation a draw selects from a set: the drawn flag when it is a
/// member, the base orientation for the empty set, and the set's lowest
/// flag as the fallback for a draw outside it.
pub open spec fn chosen_sym(d: Symmetries, set: Symmetries) -> Symmetries {
    if set.0 == 0 {
        Symmetries(0x01)
    } else if d.is_single() && d.0 & set.0 == d.0 {
        d
    } else {
        Symmetries(1u8 << (crate::mfm::nth_set_bit(set.0, 0) % 8) as u8)
    }
}

/// One instruction of the spec-level machine, given the draw it may use.
/// Each case restates [`step_rel`] as a function of the starting state.
#[verifier::opaque]
pub open spec fn vm_step(s: VmState, i: Instr, d: VmDraw) -> StepOut {
    let n = s.op_stack.len() as int;
    match i {
        Instr::Nop => StepOut::Next(VmState { ip: s.ip + 1, ..s }),
        Instr::Exit => StepOut::Halted(s),
        Instr::SwapSites => if n < 2 {
            StepOut::Failed(Error::StackUnderflow, s)
        } else {
            let jj = spec_site_of(s.op_stack.last(), s.symmetry);
            let ii = spec_site_of(s.op_stack[n - 2], s.symmetry);
            StepOut::Next(
                VmState {
                    ip: s.ip + 1,
                    op_stack: s.op_stack.drop_last().drop_last(),
                    sites: site_swap(s.sites, ii, jj),
                    ..s
                },
            )
        },
        Instr::SetSite => if n < 2 {
            StepOut::Failed(Error::StackUnderflow, s)
        } else {
            let v = s.op_stack.last();
            let ii = spec_site_of(s.op_stack[n - 2], s.symmetry);
            StepOut::Next(
                VmState {
                    ip: s.ip + 1,
                    op_stack: s.op_stack.drop_last().drop_last(),
                    sites: site_set(s.sites, ii, v),
                    ..s
                },
            )
        },
        Instr::SetField(fs) => if n < 2 {
            StepOut::Failed(Error::StackUnderflow, s)
        } else {
            let v = s.op_stack.last();
            let a = s.op_stack[n - 2];
            StepOut::Next(
                VmState {
                    ip: s.ip + 1,
                    op_stack: s.op_stack.drop_last().drop_last().push(a.spec_store(v, fs)),
                    ..s
                },
            )
        },
        Instr::SetSiteField(fs) => if n < 2 {
            StepOut::Failed(Error::StackUnderflow, s)
        } else {
            let v = s.op_stack.last();
            let ii = spec_site_of(s.op_stack[n - 2], s.symmetry);
            let merged = site_get(s.sites, ii).spec_store(v, fs);
            StepOut::Next(
                VmState {
                    ip: s.ip + 1,
                    op_stack: s.op_stack.drop_last().drop_last(),
                    sites: site_set(s.sites, ii, merged),
                    ..s
                },
            )
        },
        Instr::GetSite => if n < 1 {
            StepOut::Failed(Error::StackUnderflow, s)
        } else {
            let ii = spec_site_of(s.op_stack.last(), s.symmetry);
            StepOut::Next(
                VmState {
                    ip: s.ip + 1,
                    op_stack: s.op_stack.drop_last().push(site_get(s.sites, ii)),
                    ..s
                },
            )
        },
        Instr::GetField(fs) => if n < 1 {
            StepOut::Failed(Error::StackUnderflow, s)
        } else {
            StepOut::Next(
                VmState {
                    ip: s.ip + 1,
                    op_stack: s.op_stack.drop_last().push(s.op_stack.last().spec_apply(fs)),
                    ..s
                },
            )
        },
        Instr::GetSiteField(fs) => if n < 1 {
            StepOut::Failed(Error::StackUnderflow, s)
        } else {
            let ii = spec_site_of(s.op_stack.last(), s.symmetry);
            StepOut::Next(
                VmState {
                    ip: s.ip + 1,
                    op_stack: s.op_stack.drop_last().push(site_get(s.sites, ii).spec_apply(fs)),
                    ..s
                },
            )
        },
        Instr::GetSignedField(fs) => if n < 1 {
            StepOut::Failed(Error::StackUnderflow, s)
        } else {
            StepOut::Next(
                VmState {
                    ip: s.ip + 1,
                    op_stack: s.op_stack.drop_last().push(
                        Const::Signed(
                            crate::arith::i128_of_u128(s.op_stack.last().spec_apply(fs).bits()),
                        ),
                    ),
                    ..s
                },
            )
        },
        Instr::GetSignedSiteField(fs) => if n < 1 {
            StepOut::Failed(Error::StackUnderflow, s)
        } else {
            let ii = spec_site_of(s.op_stack.last(), s.symmetry);
            StepOut::Next(
                VmState {
                    ip: s.ip + 1,
                    op_stack: s.op_stack.drop_last().push(
                        Const::Signed(
                            crate::arith::i128_of_u128(
                                site_get(s.sites, ii).spec_apply(fs).bits(),
                            ),
                        ),
                    ),
                    ..s
                },
            )
        },
        Instr::GetType(t) => StepOut::Next(
            VmState { ip: s.ip + 1, op_stack: s.op_stack.push(Const::Unsigned(t as u128)), ..s },
        ),
        Instr::GetParameter(c) => StepOut::Next(
            VmState { ip: s.ip + 1, op_stack: s.op_stack.push(c), ..s },
        ),
        Instr::Scan => StepOut::Failed(Error::BadInstructionOpCode(13), s),
        Instr::SaveSymmetries => StepOut::Next(
            VmState { ip: s.ip + 1, sym_stack: s.sym_stack.push(s.symmetry), ..s },
        ),
        Instr::UseSymmetries(set) => StepOut::Next(
            VmState { ip: s.ip + 1, symmetry: chosen_sym(d.sym, set), ..s },
        ),
        Instr::RestoreSymmetries => if s.sym_stack.len() == 0 {
            StepOut::Failed(Error::StackUnderflow, s)
        } else {
            StepOut::Next(
                VmState {
                    ip: s.ip + 1,
                    symmetry: s.sym_stack.last(),
                    sym_stack: s.sym_stack.drop_last(),
                    ..s
                },
            )
        },
        Instr::PushSmall(v) => StepOut::Next(
            VmState { ip: s.ip + 1, op_stack: s.op_stack.push(Const::Unsigned(v as u128)), ..s },
        ),
        Instr::Push(c) => StepOut::Next(
            VmState { ip: s.ip + 1, op_stack: s.op_stack.push(c), ..s },
        ),
        Instr::Pop => if n < 1 {
            StepOut::Failed(Error::StackUnderflow, s)
        } else {
            StepOut::Next(VmState { ip: s.ip + 1, op_stack: s.op_stack.drop_last(), ..s })
        },
        Instr::Dup => if n < 1 {
            StepOut::Failed(Error::StackUnderflow, s)
        } else {
            StepOut::Next(
                VmState { ip: s.ip + 1, op_stack: s.op_stack.push(s.op_stack.last()), ..s },
            )
        },
        Instr::Over => if n < 2 {
            StepOut::Failed(Error::StackUnderflow, s)
        } else {
            StepOut::Next(
                VmState { ip: s.ip + 1, op_stack: s.op_stack.push(s.op_stack[n - 2]), ..s },
            )
        },
        Instr::Swap => if n < 2 {
            StepOut::Failed(Error::StackUnderflow, s)
        } else {
            StepOut::Next(
                VmState {
                    ip: s.ip + 1,
                    op_stack: s.op_stack.update(n - 2, s.op_stack[n - 1]).update(
                        n - 1,
                        s.op_stack[n - 2],
                    ),
                    ..s
                },
            )
        },
        Instr::Rot => if n < 3 {
            StepOut::Failed(Error::StackUnderflow, s)
        } else {
            StepOut::Next(
                VmState {
                    ip: s.ip + 1,
                    op_stack: s.op_stack.update(n - 3, s.op_stack[n - 1]).update(
                        n - 2,
                        s.op_stack[n - 3],
                    ).update(n - 1, s.op_stack[n - 2]),
                    ..s
                },
            )
        },
        Instr::Call(t) => StepOut::Next(
            VmState { ip: t as int, call_stack: s.call_stack.push(s.ip as usize), ..s },
        ),
        Instr::Ret => if s.call_stack.len() == 0 {
            StepOut::Halted(s)
        } else if s.call_stack.last() >= 0xFFFF {
            StepOut::Halted(VmState { call_stack: s.call_stack.drop_last(), ..s })
        } else {
            StepOut::Next(
                VmState {
                    ip: s.call_stack.last() + 1,
                    call_stack: s.call_stack.drop_last(),
                    ..s
                },
            )
        },
        Instr::Checksum => StepOut::Failed(Error::BadInstructionOpCode(66), s),
        Instr::Add | Instr::Sub | Instr::Mul | Instr::Less | Instr::LessEqual | Instr::Or
            | Instr::And | Instr::Xor | Instr::Equal | Instr::LShift | Instr::RShift => if n < 2 {
            StepOut::Failed(Error::StackUnderflow, s)
        } else {
            StepOut::Next(
                VmState {
                    ip: s.ip + 1,
                    op_stack: s.op_stack.drop_last().drop_last().push(
                        binop_result(i, s.op_stack[n - 2], s.op_stack.last()),
                    ),
                    ..s
                },
            )
        },
        Instr::Neg | Instr::BitCount | Instr::BitScanForward | Instr::BitScanReverse => if n < 1 {
            StepOut::Failed(Error::StackUnderflow, s)
        } else {
            StepOut::Next(
                VmState {
                    ip: s.ip + 1,
                    op_stack: s.op_stack.drop_last().push(unop_result(i, s.op_stack.last())),
                    ..s
                },
            )
        },
        Instr::Mod | Instr::Div => if n < 2 {
            StepOut::Failed(Error::StackUnderflow, s)
        } else if s.op_stack.last().ival() == 0 {
            StepOut::Failed(Error::DivisionByZero, s)
        } else {
            let b = s.op_stack.last();
            let a = s.op_stack[n - 2];
            StepOut::Next(
                VmState {
                    ip: s.ip + 1,
                    op_stack: s.op_stack.drop_last().drop_last().push(
                        if i is Div {
                            a.spec_div(b)
                        } else {
                            a.spec_rem(b)
                        },
                    ),
                    ..s
                },
            )
        },
        Instr::Jump(t) => StepOut::Next(VmState { ip: t as int, ..s }),
        Instr::JumpRelativeOffset => if n < 1 {
            StepOut::Failed(Error::StackUnderflow, s)
        } else if s.op_stack.last().ival() == 0 {
            StepOut::Failed(Error::ZeroJumpOffset, s)
        } else {
            StepOut::Next(
                VmState {
                    ip: rel_target(s.ip, s.op_stack.last()),
                    op_stack: s.op_stack.drop_last(),
                    ..s
                },
            )
        },
        Instr::JumpZero(t) => if n < 1 {
            StepOut::Failed(Error::StackUnderflow, s)
        } else {
            StepOut::Next(
                VmState {
                    ip: if s.op_stack.last().ival() == 0 {
                        t as int
                    } else {
                        s.ip + 1
                    },
                    op_stack: s.op_stack.drop_last(),
                    ..s
                },
            )
        },
        Instr::JumpNonZero(t) => if n < 1 {
            StepOut::Failed(Error::StackUnderflow, s)
        } else {
            StepOut::Next(
                VmState {
                    ip: if s.op_stack.last().ival() != 0 {
                        t as int
                    } else {
                        s.ip + 1
                    },
                    op_stack: s.op_stack.drop_last(),
                    ..s
                },
            )
        },
        Instr::SetPaint => if n < 1 {
            StepOut::Failed(Error::StackUnderflow, s)
        } else {
            StepOut::Next(
                VmState {
                    ip: s.ip + 1,
                    op_stack: s.op_stack.drop_last(),
                    paint: (s.op_stack.last().bits() % 0x1_0000_0000) as u32,
                    ..s
                },
            )
        },
        Instr::GetPaint => StepOut::Next(
            VmState {
                ip: s.ip + 1,
                op_stack: s.op_stack.push(Const::Unsigned(s.paint as u128)),
                ..s
            },
        ),
        Instr::Rand => StepOut::Next(
            VmState { ip: s.ip + 1, op_stack: s.op_stack.push(d.val), ..s },
        ),
    }
}

/// Resolves a run past the end of the code as the implicit return does:
/// call frames are popped, end marks and frames resuming past the end are
/// skipped, and the first frame resuming inside the code is taken.
pub open spec fn vm_fall(s: VmState, n: int) -> VmState
    decreases s.call_stack.len(),
{
    if s.ip < n {
        s
    } else if s.call_stack.len() == 0 {
        s
    } else {
        let ip0 = s.call_stack.last();
        let s1 = VmState { call_stack: s.call_stack.drop_last(), ..s };
        if ip0 >= 0xFFFF {
            vm_fall(s1, n)
        } else if ip0 + 1 >= n {
            vm_fall(s1, n)
        } else {
            VmState { ip: ip0 + 1, ..s1 }
        }
    }
}

/// The spec-level run: falls off the end or steps one instruction with
/// the next draw, until the program halts, fails, or the step budget runs
/// out. Returns the outcome and the final state.
pub open spec fn vm_run(code: Seq<Instr>, s: VmState, draws: Seq<VmDraw>, fuel: nat) -> (
    Result<(), Error>,
    VmState,
)
    decreases fuel,
{
    let s1 = vm_fall(s, code.len() as int);
    if s1.ip >= code.len() {
        (Ok(()), s1)
    } else if fuel == 0 {
        (Err(Error::StepLimit), s1)
    } else {
        match vm_step(s1, code[s1.ip], draws[0]) {
            StepOut::Next(s2) => vm_run(code, s2, draws.drop_first(), (fuel - 1) as nat),
            StepOut::Halted(s2) => (Ok(()), s2),
            StepOut::Failed(e, s2) => (Err(e), s2),
        }
    }
}

/// Every executed step is one spec-level step under some well-formed
/// draw.
#[verifier::rlimit(100)]
#[verifier::spinoff_prover]
proof fn lemma_step_to_vm(
    c0: Cursor,
    s0: Seq<Const>,
    p0: u32,
    i: Instr,
    r: StepResult,
    c1: Cursor,
    s1: Seq<Const>,
    p1: u32,
)
    requires
        step_rel(c0, s0, p0, i, r, c1, s1, p1),
        c0.wf(),
        i.wf(),
    ensures
        exists|d: VmDraw|
            #[trigger] draw_wf(d) && vm_step(state_of(c0, s0, p0), i, d) == out_of(
                r,
                state_of(c1, s1, p1),
            ),
{
    reveal(step_rel);
    reveal(vm_step);
    let pre = state_of(c0, s0, p0);
    let post = state_of(c1, s1, p1);
    let d = match i {
        Instr::UseSymmetries(_) => VmDraw { sym: c1.symmetry, val: Const::Unsigned(0) },
        Instr::Rand => VmDraw {
            sym: Symmetries(0x01),
            val: if c1.op_stack@.len() > 0 {
                c1.op_stack@.last()
            } else {
                Const::Unsigned(0)
            },
        },
        _ => VmDraw { sym: Symmetries(0x01), val: Const::Unsigned(0) },
    };
    assert(draw_wf(d));
    match i {
        Instr::Nop => {
            assert(vm_step(pre, i, d) == out_of(r, post));
        },
        Instr::Exit => {
            assert(vm_step(pre, i, d) == out_of(r, post));
        },
        Instr::SwapSites => {
            assert(vm_step(pre, i, d) == out_of(r, post));
        },
        Instr::SetSite => {
            assert(vm_step(pre, i, d) == out_of(r, post));
        },
        Instr::SetField(_) => {
            assert(vm_step(pre, i, d) == out_of(r, post));
        },
        Instr::SetSiteField(_) => {
            assert(vm_step(pre, i, d) == out_of(r, post));
        },
        Instr::GetSite => {
            assert(vm_step(pre, i, d) == out_of(r, post));
        },
        Instr::GetField(_) => {
            assert(vm_step(pre, i, d) == out_of(r, post));
        },
        Instr::GetSiteField(_) => {
            assert(vm_step(pre, i, d) == out_of(r, post));
        },
        Instr::GetSignedField(_) => {
            assert(vm_step(pre, i, d) == out_of(r, post));
        },
        Instr::GetSignedSiteField(_) => {
            assert(vm_step(pre, i, d) == out_of(r, post));
        },
        Instr::GetType(_) => {
            assert(vm_step(pre, i, d) == out_of(r, post));
        },
        Instr::GetParameter(_) => {
            assert(vm_step(pre, i, d) == out_of(r, post));
        },
        Instr::Scan => {
            assert(vm_step(pre, i, d) == out_of(r, post));
        },
        Instr::SaveSymmetries => {
            assert(vm_step(pre, i, d) == out_of(r, post));
        },
        Instr::UseSymmetries(_) => {
            assert(vm_step(pre, i, d) == out_of(r, post));
        },
        Instr::RestoreSymmetries => {
            assert(vm_step(pre, i, d) == out_of(r, post));
        },
        Instr::PushSmall(_) => {
            assert(vm_step(pre, i, d) == out_of(r, post));
        },
        Instr::Push(_) => {
            assert(vm_step(pre, i, d) == out_of(r, post));
        },
        Instr::Pop => {
            assert(vm_step(pre, i, d) == out_of(r, post));
        },
        Instr::Dup => {
            assert(vm_step(pre, i, d) == out_of(r, post));
        },
        Instr::Over => {
            assert(vm_step(pre, i, d) == out_of(r, post));
        },
        Instr::Swap => {
            assert(vm_step(pre, i, d) == out_of(r, post));
        },
        Instr::Rot => {
            assert(vm_step(pre, i, d) == out_of(r, post));
        },
        Instr::Call(_) => {
            assert(vm_step(pre, i, d) == out_of(r, post));
        },
        Instr::Ret => {
            assert(vm_step(pre, i, d) == out_of(r, post));
        },
        Instr::Checksum => {
            assert(vm_step(pre, i, d) == out_of(r, post));
        },
        Instr::Add => {
            assert(vm_step(pre, i, d) == out_of(r, post));
        },
        Instr::Sub => {
            assert(vm_step(pre, i, d) == out_of(r, post));
        },
        Instr::Neg => {
            assert(vm_step(pre, i, d) == out_of(r, post));
        },
        Instr::Mod => {
            assert(vm_step(pre, i, d) == out_of(r, post));
        },
        Instr::Mul => {
            assert(vm_step(pre, i, d) == out_of(r, post));
        },
        Instr::Div => {
            assert(vm_step(pre, i, d) == out_of(r, post));
        },
        Instr::Less => {
            assert(vm_step(pre, i, d) == out_of(r, post));
        },
        Instr::LessEqual => {
            assert(vm_step(pre, i, d) == out_of(r, post));
        },
        Instr::Or => {
            assert(vm_step(pre, i, d) == out_of(r, post));
        },
        Instr::And => {
            assert(vm_step(pre, i, d) == out_of(r, post));
        },
        Instr::Xor => {
            assert(vm_step(pre, i, d) == out_of(r, post));
        },
        Instr::Equal => {
            assert(vm_step(pre, i, d) == out_of(r, post));
        },
        Instr::BitCount => {
            assert(vm_step(pre, i, d) == out_of(r, post));
        },
        Instr::BitScanForward => {
            assert(vm_step(pre, i, d) == out_of(r, post));
        },
        Instr::BitScanReverse => {
            assert(vm_step(pre, i, d) == out_of(r, post));
        },
        Instr::LShift => {
            assert(vm_step(pre, i, d) == out_of(r, post));
        },
        Instr::RShift => {
            assert(vm_step(pre, i, d) == out_of(r, post));
        },
        Instr::Jump(_) => {
            assert(vm_step(pre, i, d) == out_of(r, post));
        },
        Instr::JumpRelativeOffset => {
            assert(vm_step(pre, i, d) == out_of(r, post));
        },
        Instr::JumpZero(_) => {
            assert(vm_step(pre, i, d) == out_of(r, post));
        },
        Instr::JumpNonZero(_) => {
            assert(vm_step(pre, i, d) == out_of(r, post));
        },
        Instr::SetPaint => {
            assert(vm_step(pre, i, d) == out_of(r, post));
        },
        Instr::GetPaint => {
            assert(vm_step(pre, i, d) == out_of(r, post));
        },
        Instr::Rand => {
            if r is Continue {
                assert(c1.op_stack@ =~= c0.op_stack@.push(c1.op_stack@.last()));
            }
            assert(vm_step(pre, i, d) == out_of(r, post));
        },
    }
}

/// A loaded code vector the executor can run: its length fits the 16-bit
/// instruction space and every instruction is well formed.
pub open spec fn code_wf(c: Seq<Instr>) -> bool {
    &&& c.len() <= 0xFFFF
    &&& forall|i: int| 0 <= i < c.len() ==> (#[trigger] c[i]).wf()
}

/// Falling off the end twice resolves the same as once.
proof fn lemma_vm_fall_idem(s: VmState, n: int)
    ensures
        vm_fall(vm_fall(s, n), n) == vm_fall(s, n),
    decreases s.call_stack.len(),
{
    if s.ip < n {
    } else if s.call_stack.len() == 0 {
    } else {
        let ip0 = s.call_stack.last();
        let s1 = VmState { call_stack: s.call_stack.drop_last(), ..s };
        if ip0 >= 0xFFFF || ip0 + 1 >= n {
            lemma_vm_fall_idem(s1, n);
        }
    }
}

/// A run only looks at its starting state through the implicit-return
/// resolution, so resolving first changes nothing.
proof fn lemma_vm_run_fall(code: Seq<Instr>, s: VmState, draws: Seq<VmDraw>, fuel: nat)
    ensures
        vm_run(code, s, draws, fuel) == vm_run(code, vm_fall(s, code.len() as int), draws, fuel),
{
    lemma_vm_fall_idem(s, code.len() as int);
}

impl Runtime {
    /// Drives one cursor to completion against an event window: reads the
    /// center atom's type, looks its program up, and executes instruction
    /// by instruction, handling a run off the end of the code as an
    /// implicit return.
    ///
    /// `fuel` bounds the number of executed instructions, as the embedder
    /// chooses; a program that needs more fails with `StepLimit`. The
    /// outcome and the final cursor and window are exactly those of the
    /// spec-level run [`vm_run`] under the draws the window produced.
    #[verifier::rlimit(100)]
    pub fn execute<T: EventWindow + Rand>(
        ew: &mut T,
        cursor: &mut Cursor,
        code_map: &HashMap<u16, Vec<Instr>>,
        fuel: u64,
    ) -> (r: Result<(), Error>)
        requires
            old(ew).ew_wf(),
            old(cursor).wf(),
            forall|k: u16| #[trigger] code_map@.contains_key(k) ==> code_wf(code_map@[k]@),
        ensures
            final(ew).ew_wf(),
            final(cursor).wf(),
            ({
                let ty = center_type(site_get(old(ew).sites(), 0));
                &&& ((r matches Err(Error::UnknownElement(t)) && t == ty) <==> !code_map@.contains_key(
                    ty,
                ))
                &&& (!code_map@.contains_key(ty) ==> *final(ew) == *old(ew) && *final(cursor)
                    == *old(cursor))
                &&& (code_map@.contains_key(ty) ==> exists|draws: Seq<VmDraw>|
                    #[trigger] draws_wf(draws) && vm_run(
                        code_map@[ty]@,
                        state_of(*old(cursor), old(ew).sites(), old(ew).paint()),
                        draws,
                        fuel as nat,
                    ) == (r, state_of(*final(cursor), final(ew).sites(), final(ew).paint())))
            }),
            !(r matches Err(Error::BadMagicNumber(_))) && !(r matches Err(Error::BadMinorVersion(_)))
                && !(r matches Err(Error::BadMajorVersion(_))) && !(r matches Err(
                Error::BadMetadataOpCode(_),
            )) && !(r matches Err(Error::BadConstantType(_))) && !(r matches Err(Error::IOError))
                && !(r matches Err(Error::FromUtf8Error)) && !(r matches Err(
                Error::BuildTagMismatch { want: _, got: _ },
            )),
    {
        let my_atom = ew.get(0);
        let my_type = my_atom.apply(&FieldSelector::sel_type()).to_u16();
        let code = match code_map.get(&my_type) {
            Some(c) => c,
            None => {
                return Err(Error::UnknownElement(my_type));
            },
        };
        let ghost init = state_of(*cursor, ew.sites(), ew.paint());
        let n = code.len();
        let mut fuel_left = fuel;
        let ghost mut gdraws: Seq<VmDraw> = Seq::empty();
        proof {
            assert(gdraws + Seq::<VmDraw>::empty() =~= gdraws);
        }
        loop
            invariant
                ew.ew_wf(),
                cursor.wf(),
                n == code@.len(),
                code_wf(code@),
                code_map@.contains_key(center_type(site_get(old(ew).sites(), 0))),
                code@ == code_map@[center_type(site_get(old(ew).sites(), 0))]@,
                init == state_of(*old(cursor), old(ew).sites(), old(ew).paint()),
                draws_wf(gdraws),
                gdraws.len() + fuel_left == fuel as nat,
                forall|rest: Seq<VmDraw>|
                    vm_run(code@, init, #[trigger] (gdraws + rest), fuel as nat) == vm_run(
                        code@,
                        state_of(*cursor, ew.sites(), ew.paint()),
                        rest,
                        fuel_left as nat,
                    ),
            decreases fuel_left,
        {
            let ghost entry = state_of(*cursor, ew.sites(), ew.paint());
            if cursor.ip >= n {
                // A run past the end behaves as an implicit return: pop call
                // frames until one resumes inside the code, skipping the
                // 0xFFFF end marks.
                loop
                    invariant
                        cursor.wf(),
                        n == code@.len(),
                        vm_fall(state_of(*cursor, ew.sites(), ew.paint()), n as int) == vm_fall(
                            entry,
                            n as int,
                        ),
                        cursor.symmetry == entry.symmetry,
                        cursor.symmetries_stack@ == entry.sym_stack,
                        cursor.op_stack@ == entry.op_stack,
                    ensures
                        cursor.ip < n || cursor.call_stack@.len() == 0,
                    decreases cursor.call_stack@.len(),
                {
                    if cursor.ip < n {
                        break ;
                    }
                    if cursor.call_stack.len() == 0 {
                        break ;
                    }
                    match cursor.call_stack.pop() {
                        Some(ip0) => {
                            if ip0 >= 0xFFFF {
                                continue ;
                            }
                            if ip0 + 1 >= n {
                                continue ;
                            }
                            cursor.ip = ip0 + 1;
                            break ;
                        },
                        None => {
                            break ;
                        },
                    }
                }
                proof {
                    let now = state_of(*cursor, ew.sites(), ew.paint());
                    assert(vm_fall(now, n as int) == now);
                    assert forall|rest: Seq<VmDraw>|
                        vm_run(code@, init, #[trigger] (gdraws + rest), fuel as nat) == vm_run(
                            code@,
                            now,
                            rest,
                            fuel_left as nat,
                        ) by {
                        lemma_vm_run_fall(code@, entry, rest, fuel_left as nat);
                        lemma_vm_run_fall(code@, now, rest, fuel_left as nat);
                    }
                }
                if cursor.ip >= n {
                    proof {
                        let now = state_of(*cursor, ew.sites(), ew.paint());
                        assert(gdraws + Seq::<VmDraw>::empty() =~= gdraws);
                        assert(vm_run(code@, init, gdraws, fuel as nat) == (
                            Ok::<(), Error>(()),
                            now,
                        ));
                    }
                    return Ok(());
                }
            }
            let ghost fallen = state_of(*cursor, ew.sites(), ew.paint());
            proof {
                assert forall|rest: Seq<VmDraw>|
                    vm_run(code@, init, #[trigger] (gdraws + rest), fuel as nat) == vm_run(
                        code@,
                        fallen,
                        rest,
                        fuel_left as nat,
                    ) by {
                    lemma_vm_run_fall(code@, entry, rest, fuel_left as nat);
                    lemma_vm_run_fall(code@, fallen, rest, fuel_left as nat);
                }
            }
            if fuel_left == 0 {
                proof {
                    assert(gdraws + Seq::<VmDraw>::empty() =~= gdraws);
                    assert(vm_run(code@, init, gdraws, fuel as nat) == (
                        Err::<(), Error>(Error::StepLimit),
                        fallen,
                    ));
                }
                return Err(Error::StepLimit);
            }
            let ghost fuel_entry = fuel_left as nat;
            fuel_left = fuel_left - 1;
            let instr = &code[cursor.ip];
            let ghost cpre = *cursor;
            let ghost spre = ew.sites();
            let ghost ppre = ew.paint();
            let res = step(ew, cursor, instr, n);
            proof {
                lemma_step_to_vm(
                    cpre,
                    spre,
                    ppre,
                    *instr,
                    res,
                    *cursor,
                    ew.sites(),
                    ew.paint(),
                );
                let d = choose|d: VmDraw|
                    #[trigger] draw_wf(d) && vm_step(state_of(cpre, spre, ppre), *instr, d)
                        == out_of(res, state_of(*cursor, ew.sites(), ew.paint()));
                let now = state_of(*cursor, ew.sites(), ew.paint());
                let gnew = gdraws + seq![d];
                assert(draws_wf(gnew)) by {
                    assert forall|i: int| 0 <= i < gnew.len() implies draw_wf(#[trigger] gnew[i]) by {
                        if i < gdraws.len() {
                            assert(gnew[i] == gdraws[i]);
                        } else {
                            assert(gnew[i] == d);
                        }
                    }
                }
                assert forall|rest: Seq<VmDraw>|
                    vm_run(code@, init, #[trigger] (gnew + rest), fuel as nat) == (match res {
                        StepResult::Continue => vm_run(code@, now, rest, (fuel_entry - 1) as nat),
                        StepResult::Halt => (Ok::<(), Error>(()), now),
                        StepResult::Fail(e) => (Err::<(), Error>(e), now),
                    }) by {
                    let dr = seq![d] + rest;
                    assert(gnew + rest =~= gdraws + dr);
                    assert(vm_run(code@, init, gdraws + dr, fuel as nat) == vm_run(
                        code@,
                        fallen,
                        dr,
                        fuel_entry,
                    ));
                    assert(vm_fall(fallen, n as int) == fallen);
                    assert(dr[0] == d);
                    assert(dr.drop_first() =~= rest);
                    assert(fallen == state_of(cpre, spre, ppre));
                }
                gdraws = gnew;
            }
            match res {
                StepResult::Continue => {},
                StepResult::Halt => {
                    proof {
                        assert(gdraws + Seq::<VmDraw>::empty() =~= gdraws);
                    }
                    return Ok(());
                },
                StepResult::Fail(e) => {
                    proof {
                        assert(gdraws + Seq::<VmDraw>::empty() =~= gdraws);
                    }
                    return Err(e);
                },
            }
        }
    }
}

} // verus!
