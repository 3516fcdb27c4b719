use ewal::arith::Const;
use ewal::arith::ParseIntError;
use ewal::base::FieldSelector;

#[test]
fn test_is_zero() {
    assert!(Const::Unsigned(0).is_zero());
    assert!(Const::Signed(0).is_zero());
    assert!(!Const::Unsigned(1).is_zero());
    assert!(!Const::Signed(1).is_zero());
    assert!(!Const::Signed(-1).is_zero());
}

#[test]
fn test_count_ones() {
    assert_eq!(Const::Unsigned(0).count_ones(), 0);
    assert_eq!(Const::Signed(0).count_ones(), 0);
    assert_eq!(Const::Unsigned(1).count_ones(), 1);
    assert_eq!(Const::Signed(1).count_ones(), 1);
}

#[test]
fn test_bitscanforward() {
    assert_eq!(Const::Unsigned(0).bitscanforward(), 128);
    assert_eq!(Const::Signed(0).bitscanforward(), 128);
    assert_eq!(Const::Unsigned(3).bitscanforward(), 0);
    assert_eq!(Const::Signed(3).bitscanforward(), 0);
}

#[test]
fn test_bitscanreverse() {
    assert_eq!(Const::Unsigned(0).bitscanreverse(), 128);
    assert_eq!(Const::Signed(0).bitscanreverse(), 128);
    assert_eq!(Const::Unsigned(3).bitscanreverse(), 126);
    assert_eq!(Const::Signed(3).bitscanreverse(), 126);
}

#[test]
fn test_is_neg() {
    assert!(!Const::Unsigned(0).is_neg());
    assert!(!Const::Unsigned(1).is_neg());
    assert!(!Const::Signed(0).is_neg());
    assert!(!Const::Signed(1).is_neg());
    assert!(Const::Signed(-1).is_neg());
}

#[test]
fn test_abs() {
    assert_eq!(Const::Unsigned(0).abs(), Const::Unsigned(0));
    assert_eq!(Const::Unsigned(1).abs(), Const::Unsigned(1));
    assert_eq!(Const::Signed(0).abs(), Const::Unsigned(0));
    assert_eq!(Const::Signed(1).abs(), Const::Unsigned(1));
    assert_eq!(Const::Signed(-1).abs(), Const::Unsigned(1));
    assert_eq!(Const::Signed(-1 << 127).abs(), Const::Unsigned((1 << 127) - 1));
}

#[test]
fn test_saturation_laws() {
    assert_eq!(
        Const::Unsigned(u128::MAX).add(Const::Unsigned(1)),
        Const::Unsigned(u128::MAX)
    );
    assert_eq!(
        Const::Signed(i128::MIN).sub(Const::Signed(1)),
        Const::Signed(i128::MIN)
    );
    assert_eq!(
        Const::Unsigned(u128::MAX).mul(Const::Unsigned(2)),
        Const::Unsigned(u128::MAX)
    );
}

#[test]
fn test_mixed_arithmetic() {
    assert_eq!(Const::Unsigned(5).add(Const::Unsigned(3)), Const::Unsigned(8));
    assert_eq!(Const::Unsigned(5).add(Const::Signed(-3)), Const::Signed(2));
    assert_eq!(Const::Signed(-5).add(Const::Unsigned(3)), Const::Signed(-2));
    assert_eq!(Const::Signed(-5).neg(), Const::Signed(5));
    assert_eq!(Const::Unsigned(7).neg(), Const::Signed(-7));
    assert_eq!(Const::Signed(-7).div(Const::Signed(2)), Const::Signed(-3));
    assert_eq!(Const::Signed(-7).rem(Const::Signed(2)), Const::Signed(-1));
    assert_eq!(
        Const::Signed(i128::MIN).div(Const::Signed(-1)),
        Const::Signed(i128::MAX)
    );
}

#[test]
fn test_cross_sign_order() {
    assert!(Const::Signed(-1) < Const::Unsigned(0));
    assert!(Const::Signed(i128::MIN) < Const::Unsigned(u128::MAX));
    assert!(Const::Unsigned(3) < Const::Signed(4));
    assert_eq!(Const::Unsigned(3), Const::Signed(3));
    assert_ne!(Const::Unsigned(3), Const::Signed(-3));
}

#[test]
fn test_apply_widths() {
    // An unsigned read is zero-extended and an offset read shifts first.
    let c = Const::Unsigned(0b1011_0000);
    let f = FieldSelector { offset: 4, length: 4 };
    assert_eq!(c.apply(&f), Const::Unsigned(0b1011));
    // A signed read with the top field bit set negates the low bits.
    let s = Const::Signed(0b1010);
    let f0 = FieldSelector { offset: 0, length: 4 };
    assert_eq!(s.apply(&f0), Const::Signed(-0b010));
    // A zero-length field reads zero.
    let z = FieldSelector { offset: 3, length: 0 };
    assert_eq!(c.apply(&z), Const::Unsigned(0));
}

#[test]
fn test_store_readback() {
    // Reading back a stored field yields the field-masked value.
    let mut a = Const::zero();
    a.store(Const::Unsigned(0x1f5), &FieldSelector { offset: 8, length: 4 });
    assert_eq!(a, Const::Unsigned(0x500));
    assert_eq!(
        a.apply(&FieldSelector { offset: 8, length: 4 }),
        Const::Unsigned(5)
    );
    // Other bits survive a masked merge.
    let mut b = Const::Unsigned(0xff00);
    b.store(Const::Unsigned(0xab), &FieldSelector { offset: 0, length: 8 });
    assert_eq!(b, Const::Unsigned(0xffab));
}

#[test]
fn test_truncate() {
    let mut u = Const::Unsigned(0x1ff);
    u.truncate(8);
    assert_eq!(u, Const::Unsigned(0xff));
    let mut s = Const::Signed(300);
    s.truncate(8);
    assert_eq!(s, Const::Signed(127));
    let mut n = Const::Signed(-300);
    n.truncate(8);
    assert_eq!(n, Const::Signed(-128));
}

#[test]
fn test_from_str_radix() {
    assert_eq!(Const::from_str_radix("ff", 16), Ok(Const::Unsigned(255)));
    assert_eq!(Const::from_str_radix("-10", 10), Ok(Const::Signed(-10)));
    assert_eq!(Const::from_str_radix("+10", 10), Ok(Const::Signed(10)));
    assert_eq!(Const::from_str_radix("101", 2), Ok(Const::Unsigned(5)));
    assert_eq!(Const::from_str_radix("", 10), Err(ParseIntError::Empty));
    assert_eq!(Const::from_str_radix("-", 10), Err(ParseIntError::InvalidDigit));
    assert_eq!(Const::from_str_radix("g", 16), Err(ParseIntError::InvalidDigit));
    assert_eq!(
        Const::from_str_radix("340282366920938463463374607431768211456", 10),
        Err(ParseIntError::PosOverflow)
    );
    assert_eq!(
        Const::from_str_radix("-170141183460469231731687303715884105729", 10),
        Err(ParseIntError::NegOverflow)
    );
}

#[test]
fn test_shifts_and_bits() {
    assert_eq!(Const::Unsigned(0b100).shr(2), Const::Unsigned(1));
    assert_eq!(Const::Signed(-8).shr(1), Const::Signed(-4));
    assert_eq!(Const::Unsigned(1).shl(4), Const::Unsigned(16));
    assert_eq!(
        Const::Unsigned(0b1100).bitand(Const::Unsigned(0b1010)),
        Const::Unsigned(0b1000)
    );
    assert_eq!(
        Const::Unsigned(0b1100).bitor(Const::Unsigned(0b1010)),
        Const::Unsigned(0b1110)
    );
    assert_eq!(
        Const::Unsigned(0b1100).bitxor(Const::Unsigned(0b1010)),
        Const::Unsigned(0b0110)
    );
}
