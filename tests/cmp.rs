use arkworks_cycle::circuit::{AllocationMode, BoolWire, ConstraintSystem};
use arkworks_cycle::cmp::{u8_to_bits_be, ByteWire, CmpGadget};

fn value_of(w: &BoolWire) -> bool {
    w.get_value()
}

#[test]
fn bits_are_big_endian() {
    assert_eq!(u8_to_bits_be(0b1000_0001), vec![true, false, false, false, false, false, false, true]);
    assert_eq!(u8_to_bits_be(6), vec![false, false, false, false, false, true, true, false]);
}

#[test]
fn comparisons_match_integers_on_witnesses() {
    let samples: Vec<u8> = vec![0, 1, 2, 3, 7, 8, 127, 128, 129, 200, 254, 255];
    for &a in &samples {
        for &b in &samples {
            let mut cs = ConstraintSystem::new();
            let x = ByteWire::new_variable(&mut cs, a, AllocationMode::Witness);
            let y = ByteWire::new_variable(&mut cs, b, AllocationMode::Witness);
            assert_eq!(value_of(&x.is_lt(&mut cs, &y)), a < b);
            assert_eq!(value_of(&x.is_gt(&mut cs, &y)), a > b);
            assert_eq!(value_of(&x.is_leq(&mut cs, &y)), a <= b);
            assert_eq!(value_of(&x.is_geq(&mut cs, &y)), a >= b);
            assert!(cs.is_satisfied());
        }
    }
}

#[test]
fn constant_operands_fold_without_gates() {
    let mut cs = ConstraintSystem::new();
    let x = ByteWire::constant(3);
    let y = ByteWire::constant(9);
    let lt = x.is_lt(&mut cs, &y);
    assert!(matches!(lt, BoolWire::Constant(true)));
    assert!(matches!(y.is_lt(&mut cs, &x), BoolWire::Constant(false)));
    assert!(matches!(x.is_lt(&mut cs, &x), BoolWire::Constant(false)));
    assert_eq!(cs.num_gates(), 0);
}

#[test]
fn equal_bytes_are_not_less() {
    let mut cs = ConstraintSystem::new();
    let x = ByteWire::new_variable(&mut cs, 77, AllocationMode::Witness);
    let y = ByteWire::new_variable(&mut cs, 77, AllocationMode::Input);
    assert!(!value_of(&x.is_lt(&mut cs, &y)));
    assert!(!value_of(&x.is_gt(&mut cs, &y)));
    assert!(cs.num_gates() > 16);
}
