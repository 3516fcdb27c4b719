use ewal::frame_stack;
use ewal::machine;
use ewal::op::MetaOp;
use ewal::op::Op;

#[test]
fn test_mnemonic_tables() {
    assert_eq!(MetaOp::from_str(".name"), Ok(MetaOp::Name));
    assert_eq!(MetaOp::from_str(".parameter"), Ok(MetaOp::Parameter));
    assert_eq!(MetaOp::from_str("name"), Err(()));
    assert_eq!(Op::from_str("nop"), Ok(Op::Nop));
    assert_eq!(Op::from_str("jumpnonzero"), Ok(Op::JumpNonZero));
    // The early table folds pop, call and ret onto push.
    assert_eq!(Op::from_str("pop"), Ok(Op::Push));
    assert_eq!(Op::from_str("call"), Ok(Op::Push));
    assert_eq!(Op::from_str("ret"), Ok(Op::Push));
    assert_eq!(Op::from_str("bogus"), Err(()));
}

#[test]
fn test_atom_fields() {
    // The type id lives at bits 80..96 and the 9-bit error-correction
    // field just below it at 71..80.
    let a = machine::Atom(0x1234_0000_0000_0000_0000_0000u128);
    assert_eq!(a.get_type(), 0x1234);
    assert_eq!(machine::Atom(0).get_type(), 0);
    let e = machine::Atom(0x1ffu128 << 71);
    assert_eq!(e.get_ecc(), 0x1ff);
    assert_eq!(e.get_type(), 0);
    assert_eq!(a.get_header(), 0x1234 << 9);
    assert_eq!(e.get_header(), 0x1ff);
    assert_eq!(machine::Atom(0xf_ffff_ffff_ffff_ffff).get_state(), 0xf_ffff_ffff_ffff_ffff);
    assert_eq!(machine::Atom(!0u128).get_state(), 0xf_ffff_ffff_ffff_ffff);
}

#[test]
fn test_value_descriptor() {
    let inline = machine::Value(0x0123);
    assert_eq!(inline.get_type(), Some(machine::ValueType::Inline));
    assert_eq!(inline.get_inline(), Some(0x0123));
    assert_eq!(inline.get_site(), None);
    // The early shift arithmetic leaves the kind bits at 4, 8 or 12 for
    // everything but inline operands, so only the inline kind resolves.
    let site = machine::Value(0xC123);
    assert_eq!(site.get_type(), None);
    assert_eq!(site.get_site(), None);
    assert_eq!(site.get_field(), None);
}

#[test]
fn test_instruction_word() {
    let w = machine::Instruction::from_u64(0x0006_1111_2222_3333);
    assert_eq!(w.op, Some(machine::Op::Add));
    assert_eq!(w.dst, machine::Value(0x1111));
    assert_eq!(w.lhs, machine::Value(0x2222));
    assert_eq!(w.rhs, machine::Value(0x3333));
    let bad = machine::Instruction::from_u64(0x00ff_0000_0000_0000);
    assert_eq!(bad.op, None);
}

#[test]
fn test_site_bound() {
    assert_eq!(machine::Site::from_usize(40), Some(machine::Site(40)));
    assert_eq!(machine::Site::from_usize(41), None);
}

#[test]
fn test_tile_access() {
    let physics = machine::Physics { elements: Vec::new() };
    let sites = vec![machine::Atom(1), machine::Atom(2)];
    let mut t = machine::Tile::new(sites, (2, 1), physics);
    assert_eq!(t.get(1), Some(&machine::Atom(2)));
    assert_eq!(t.get(2), None);
    assert!(t.get_mut(0, machine::Atom(9)));
    assert_eq!(t.get(0), Some(&machine::Atom(9)));
    assert!(t.physics.get(0).is_none());
}

#[test]
fn test_frame_stack_elements() {
    let d = frame_stack::Element::Data(5);
    let f = frame_stack::Element::Frame(1);
    assert!(d.is_data());
    assert!(!d.is_control());
    assert!(f.is_control());
    assert_eq!(d.get_data(), Some(5));
    assert_eq!(f.get_data(), None);
    assert_eq!(f.get_frame(), Some(f));
    assert_eq!(d.get_frame(), None);
    assert_eq!(frame_stack::Element::Return(2).get_return(), Some(frame_stack::Element::Return(2)));
    assert_eq!(frame_stack::Element::Register(3).get_register(), Some(frame_stack::Element::Register(3)));
}

#[test]
fn test_frame_stack_append() {
    let mut s = frame_stack::Stack::new();
    assert_eq!(s.len(), 0);
    // The sketched push leaves the stack as it was.
    assert_eq!(s.push(frame_stack::Element::Data(1)), None);
    assert_eq!(s.len(), 0);
    assert_eq!(s.pop(), None);
    assert!(s.truncate_frame(0).is_err());
    // A frame of two control slots over an empty stack appends two empty
    // slots.
    s.append_frame(&[frame_stack::Element::Frame(0), frame_stack::Element::Return(0)], 0);
    assert_eq!(s.len(), 2);
}

#[test]
fn test_generic_stack() {
    let mut s: ewal::stack::Stack<u128, u8> = ewal::stack::Stack::new();
    s.push(7);
    s.push_control(1);
    assert_eq!(s.data.len(), 2);
    assert!(matches!(s.data[0], ewal::stack::Entry::Data(7)));
    assert!(matches!(
        s.data[1],
        ewal::stack::Entry::Control(ewal::stack::ControlEntry::User(1))
    ));
}

#[test]
fn test_model_sketch() {
    let m = machine::Element {
        props: machine::ElementProperties {
            name: b"Empty".to_vec(),
            symbol: b".".to_vec(),
            desc: Vec::new(),
            authors: Vec::new(),
            license: Vec::new(),
            radius: 0,
            bg_color: b"#000".to_vec(),
            fg_color: b"#000".to_vec(),
            symmetries: machine::Symmetries::NoneSym,
            fields: Vec::new(),
            params: Vec::new(),
        },
        program: machine::Program::new(),
    };
    let model = ewal::model::Model::new(vec![m], (4, 4));
    assert_eq!(model.elems.len(), 1);
    assert_eq!(model.bounds, (4, 4));
    let entry = ewal::model::ElementEntry("empty", 0u32);
    assert_eq!(entry.0, "empty");
}

#[test]
fn test_early_runtime_step() {
    let physics = machine::Physics { elements: Vec::new() };
    let sites = vec![machine::Atom(0); 4];
    let tile = machine::Tile::new(sites, (2, 2), physics);
    let ew = machine::EventWindow::new(tile, 0, 4);
    let mut rt = machine::Runtime::new(ew);
    // The center atom has type 0 but no element is registered.
    assert_eq!(rt.step(), Err("bad atom"));
    // An inline operand reads back its payload; stores always refuse.
    let inline = machine::Value(0x0042);
    assert_eq!(rt.get_value_u128(inline), Ok(0x42));
    assert!(rt.store_const(inline, 7).is_err());
    assert!(rt.copy(inline, inline).is_err());
    assert!(rt.add(inline, inline, inline).is_err());
    rt.use_symmetries(machine::Symmetries::All);
    assert_eq!(rt.current_symmetries, machine::Symmetries::All);
    rt.restore_symmetries();
    assert_eq!(rt.current_symmetries, machine::Symmetries::R000L);
}

#[test]
fn test_early_event_window() {
    let physics = machine::Physics { elements: Vec::new() };
    let sites = vec![
        machine::Atom(10),
        machine::Atom(11),
        machine::Atom(12),
        machine::Atom(13),
        machine::Atom(14),
        machine::Atom(15),
        machine::Atom(16),
        machine::Atom(17),
        machine::Atom(18),
    ];
    let tile = machine::Tile::new(sites, (3, 3), physics);
    let mut ew = machine::EventWindow::new(tile, 4, 4);
    // Site 0 is the origin cell; site 1 is one step left.
    assert_eq!(ew.at(0), Some(&machine::Atom(14)));
    assert_eq!(ew.at(1), Some(&machine::Atom(13)));
    assert_eq!(ew.at(4), Some(&machine::Atom(15)));
    // Site 9 at offset (-2, 0) falls off a 3-wide tile.
    assert_eq!(ew.at(9), None);
    assert!(ew.at_mut(2, machine::Atom(99)));
    assert_eq!(ew.at(2), Some(&machine::Atom(99)));
}
