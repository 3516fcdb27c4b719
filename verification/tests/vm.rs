use std::collections::HashMap;

use ewal::arith::Const;
use ewal::base::FieldSelector;
use ewal::mfm::EventWindow;
use ewal::mfm::MinimalEventWindow;
use ewal::object::Instr;
use ewal::runtime::Cursor;
use ewal::runtime::Error;
use ewal::runtime::Runtime;

fn run(code: Vec<Instr>) -> (MinimalEventWindow, Cursor, Result<(), Error>) {
    let mut map: HashMap<u16, Vec<Instr>> = HashMap::new();
    map.insert(0, code);
    let mut ew = MinimalEventWindow::new(Vec::new());
    let mut cursor = Cursor::new();
    let r = Runtime::execute(&mut ew, &mut cursor, &map, 10_000);
    (ew, cursor, r)
}

#[test]
fn test_push_arith_exit() {
    let (_, cursor, r) = run(vec![
        Instr::PushSmall(5),
        Instr::PushSmall(3),
        Instr::Add,
        Instr::Exit,
    ]);
    r.unwrap();
    assert_eq!(*cursor.op_stack.last().unwrap(), Const::Unsigned(8));
}

#[test]
fn test_branch_zero() {
    let (_, cursor, r) = run(vec![
        Instr::PushSmall(0),
        Instr::JumpZero(4),
        Instr::PushSmall(1),
        Instr::Exit,
        Instr::PushSmall(2),
        Instr::Exit,
    ]);
    r.unwrap();
    assert_eq!(*cursor.op_stack.last().unwrap(), Const::Unsigned(2));
}

#[test]
fn test_call_ret() {
    let (_, cursor, r) = run(vec![
        Instr::PushSmall(7),
        Instr::Call(3),
        Instr::Exit,
        Instr::PushSmall(1),
        Instr::Add,
        Instr::Ret,
    ]);
    r.unwrap();
    assert_eq!(*cursor.op_stack.last().unwrap(), Const::Unsigned(8));
}

#[test]
fn test_site_field_set_get() {
    let f = FieldSelector { offset: 0, length: 4 };
    let (ew, cursor, r) = run(vec![
        Instr::PushSmall(0),
        Instr::Push(Const::Unsigned(5)),
        Instr::SetSiteField(f),
        Instr::PushSmall(0),
        Instr::GetSiteField(f),
        Instr::Exit,
    ]);
    r.unwrap();
    assert_eq!(*cursor.op_stack.last().unwrap(), Const::Unsigned(5));
    assert_eq!(ew.get(0), Const::Unsigned(0b0101));
}

#[test]
fn test_implicit_return_falls_off() {
    // No exit: the program runs off the end and halts cleanly.
    let (_, cursor, r) = run(vec![Instr::PushSmall(9)]);
    r.unwrap();
    assert_eq!(*cursor.op_stack.last().unwrap(), Const::Unsigned(9));
}

#[test]
fn test_stack_discipline() {
    let (_, cursor, r) = run(vec![
        Instr::PushSmall(1),
        Instr::PushSmall(2),
        Instr::PushSmall(3),
        Instr::Rot,
        Instr::Exit,
    ]);
    r.unwrap();
    // Rotating [1, 2, 3] leaves [3, 1, 2], top last.
    let n = cursor.op_stack.len();
    assert_eq!(cursor.op_stack[n - 3], Const::Unsigned(3));
    assert_eq!(cursor.op_stack[n - 2], Const::Unsigned(1));
    assert_eq!(cursor.op_stack[n - 1], Const::Unsigned(2));
}

#[test]
fn test_swap_sites_under_symmetry() {
    // Writing site 1 and swapping sites 1 and 2 moves the value.
    let (ew, _, r) = run(vec![
        Instr::PushSmall(1),
        Instr::Push(Const::Unsigned(0xAB)),
        Instr::SetSite,
        Instr::PushSmall(1),
        Instr::PushSmall(2),
        Instr::SwapSites,
        Instr::Exit,
    ]);
    r.unwrap();
    assert_eq!(ew.get(1), Const::Unsigned(0));
    assert_eq!(ew.get(2), Const::Unsigned(0xAB));
}

#[test]
fn test_paint_channel() {
    let (ew, cursor, r) = run(vec![
        Instr::Push(Const::Unsigned(0xAABBCCDD)),
        Instr::SetPaint,
        Instr::GetPaint,
        Instr::Exit,
    ]);
    r.unwrap();
    assert_eq!(*cursor.op_stack.last().unwrap(), Const::Unsigned(0xAABBCCDD));
    assert_eq!(ew.get_paint().bits(), 0xAABBCCDD);
}

#[test]
fn test_swapped_shift_mnemonics() {
    // The wire mnemonics are swapped on purpose, for wire compatibility:
    // LShift shifts right and RShift shifts left.
    let (_, cursor, r) = run(vec![
        Instr::PushSmall(8),
        Instr::PushSmall(2),
        Instr::LShift,
        Instr::Exit,
    ]);
    r.unwrap();
    assert_eq!(*cursor.op_stack.last().unwrap(), Const::Unsigned(2));
    let (_, cursor, r) = run(vec![
        Instr::PushSmall(8),
        Instr::PushSmall(2),
        Instr::RShift,
        Instr::Exit,
    ]);
    r.unwrap();
    assert_eq!(*cursor.op_stack.last().unwrap(), Const::Unsigned(32));
}

#[test]
fn test_unknown_element() {
    let map: HashMap<u16, Vec<Instr>> = HashMap::new();
    let mut ew = MinimalEventWindow::new(Vec::new());
    let mut cursor = Cursor::new();
    match Runtime::execute(&mut ew, &mut cursor, &map, 100) {
        Err(Error::UnknownElement(t)) => assert_eq!(t, 0),
        r => panic!("unexpected: {:?}", r),
    }
}

#[test]
fn test_stack_underflow() {
    let (_, _, r) = run(vec![Instr::Pop, Instr::Exit]);
    assert!(matches!(r, Err(Error::StackUnderflow)));
}

#[test]
fn test_division_by_zero() {
    let (_, _, r) = run(vec![
        Instr::PushSmall(4),
        Instr::PushSmall(0),
        Instr::Div,
        Instr::Exit,
    ]);
    assert!(matches!(r, Err(Error::DivisionByZero)));
}

#[test]
fn test_zero_jump_offset() {
    let (_, _, r) = run(vec![
        Instr::PushSmall(0),
        Instr::JumpRelativeOffset,
        Instr::Exit,
    ]);
    assert!(matches!(r, Err(Error::ZeroJumpOffset)));
}

#[test]
fn test_step_limit() {
    let (_, _, r) = run(vec![Instr::Jump(0)]);
    assert!(matches!(r, Err(Error::StepLimit)));
}

#[test]
fn test_use_symmetries_draw() {
    // With one random word 1 and a two-orientation set, the draw picks
    // the second bit, and site mapping follows the new orientation.
    let mut map: HashMap<u16, Vec<Instr>> = HashMap::new();
    map.insert(
        0,
        vec![
            Instr::UseSymmetries(ewal::base::Symmetries::from_bits(0x03)),
            Instr::PushSmall(1),
            Instr::Push(Const::Unsigned(0x77)),
            Instr::SetSite,
            Instr::Exit,
        ],
    );
    let mut ew = MinimalEventWindow::new(vec![1]);
    let mut cursor = Cursor::new();
    Runtime::execute(&mut ew, &mut cursor, &map, 100).unwrap();
    assert_eq!(cursor.symmetry, ewal::base::Symmetries::r090l());
    // Site 1 maps to site 2 under the quarter turn.
    assert_eq!(ew.get(2), Const::Unsigned(0x77));
    assert_eq!(ew.get(1), Const::Unsigned(0));
}

#[test]
fn test_new_atom_type_field() {
    let mut meta = ewal::mfm::Metadata::new();
    meta.type_num = 7;
    let atom = meta.new_atom();
    let ty = atom.apply(&FieldSelector::sel_type());
    assert_eq!(ty, Const::Unsigned(7));
}

#[test]
fn test_rand_instruction_bounded() {
    let mut map: HashMap<u16, Vec<Instr>> = HashMap::new();
    map.insert(0, vec![Instr::Rand, Instr::Exit]);
    let mut ew = MinimalEventWindow::new(vec![0xFFFF_FFFF_FFFF_FFFF, 0xFFFF_FFFF_FFFF_FFFF]);
    let mut cursor = Cursor::new();
    Runtime::execute(&mut ew, &mut cursor, &map, 100).unwrap();
    match cursor.op_stack.last().unwrap() {
        Const::Unsigned(v) => assert!(*v < 1u128 << 96),
        c => panic!("unexpected: {:?}", c),
    }
}
