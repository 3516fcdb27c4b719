use ewal::base::Symmetries;
use ewal::mfm::map_site;
use ewal::mfm::select_symmetries;

#[test]
fn test_sample_none_symmetries() {
    assert_eq!(select_symmetries(0, Symmetries::from_bits(0)), Symmetries::r000l());
}

#[test]
fn test_sample_one_symmetries() {
    assert_eq!(select_symmetries(0, Symmetries::r090l()), Symmetries::r090l());
    assert_eq!(select_symmetries(1, Symmetries::r090r()), Symmetries::r090r());
    assert_eq!(select_symmetries(2, Symmetries::r270r()), Symmetries::r270r());
}

#[test]
fn test_sample_some_symmetries() {
    let lll = Symmetries::from_bits(
        Symmetries::r000l().bits() | Symmetries::r090l().bits() | Symmetries::r180l().bits(),
    );
    assert_eq!(select_symmetries(0, lll), Symmetries::r000l());
    let two = Symmetries::from_bits(Symmetries::r180l().bits() | Symmetries::r180r().bits());
    assert_eq!(select_symmetries(1, two), Symmetries::r180r());
    let two2 = Symmetries::from_bits(Symmetries::r000r().bits() | Symmetries::r090r().bits());
    assert_eq!(select_symmetries(2, two2), Symmetries::r000r());
}

#[test]
fn test_sample_all_symmetries() {
    assert_eq!(select_symmetries(0, Symmetries::from_bits(255)), Symmetries::r000l());
    assert_eq!(select_symmetries(1, Symmetries::from_bits(255)), Symmetries::r090l());
    assert_eq!(select_symmetries(2, Symmetries::from_bits(255)), Symmetries::r180l());
    assert_eq!(select_symmetries(3, Symmetries::from_bits(255)), Symmetries::r270l());
    assert_eq!(select_symmetries(4, Symmetries::from_bits(255)), Symmetries::r000r());
    assert_eq!(select_symmetries(5, Symmetries::from_bits(255)), Symmetries::r090r());
    assert_eq!(select_symmetries(6, Symmetries::from_bits(255)), Symmetries::r180r());
    assert_eq!(select_symmetries(7, Symmetries::from_bits(255)), Symmetries::r270r());
}

#[test]
fn test_draw_is_subset() {
    // Every draw from a set lands inside the set.
    for r in 0..32u32 {
        for bits in [0x05u8, 0x81, 0xf0, 0x13] {
            let s = Symmetries::from_bits(bits);
            let picked = select_symmetries(r, s);
            assert_eq!(picked.bits() & bits, picked.bits());
            assert_eq!(picked.bits().count_ones(), 1);
        }
    }
}

#[test]
fn test_map_site_quarter_turn() {
    // Site 1 carries offset (-1, 0); a quarter turn left sends it to
    // (0, -1), which is site 2.
    assert_eq!(map_site(1, Symmetries::r090l()), 2);
    assert_eq!(map_site(0, Symmetries::r090l()), 0);
    assert_eq!(map_site(2, Symmetries::r090l()), 4);
}

#[test]
fn test_map_site_rotation_involution() {
    // Mapping under a rotation and then its inverse returns every site.
    let pairs = [
        (Symmetries::r000l(), Symmetries::r000l()),
        (Symmetries::r090l(), Symmetries::r270l()),
        (Symmetries::r180l(), Symmetries::r180l()),
        (Symmetries::r270l(), Symmetries::r090l()),
    ];
    for (r, inv) in pairs {
        for s in 0..41u8 {
            assert_eq!(map_site(map_site(s, r), inv), s);
        }
    }
}

#[test]
fn test_map_site_reflections_stay_inside() {
    for bits in [0x10u8, 0x20, 0x40, 0x80] {
        let s = Symmetries::from_bits(bits);
        for i in 0..41u8 {
            assert!(map_site(i, s) < 41);
        }
    }
}

#[test]
fn test_symmetries_from_str() {
    assert_eq!(Symmetries::from_str("NONE"), Ok(Symmetries::from_bits(0)));
    assert_eq!(Symmetries::from_str("ALL"), Ok(Symmetries::from_bits(0xff)));
    assert_eq!(Symmetries::from_str("R270R"), Ok(Symmetries::r270r()));
    assert_eq!(Symmetries::from_str("bogus"), Err(()));
}
