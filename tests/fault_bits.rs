use snn_faults::fault::{embed_error, flip_bit, set_bit, unset_bit, weight_fault, ErrorType};

fn bits(x: f64) -> u64 {
    x.to_bits()
}

#[test]
fn set_unset_flip_change_one_bit() {
    assert_eq!(set_bit(0b1000, 0), 0b1001);
    assert_eq!(set_bit(0b1001, 0), 0b1001);
    assert_eq!(unset_bit(0b1001, 3), 0b0001);
    assert_eq!(unset_bit(0b0001, 3), 0b0001);
    assert_eq!(flip_bit(0b0001, 1), 0b0011);
    assert_eq!(flip_bit(0b0011, 1), 0b0001);
    assert_eq!(set_bit(0, 63), 1u64 << 63);
    assert_eq!(unset_bit(u64::MAX, 63), u64::MAX >> 1);
}

#[test]
fn error_type_codes() {
    assert_eq!(ErrorType::from_index(0), ErrorType::Stuck0);
    assert_eq!(ErrorType::from_index(1), ErrorType::Stuck1);
    assert_eq!(ErrorType::from_index(2), ErrorType::Flip);
    assert_eq!(ErrorType::from_index(3), ErrorType::NoFault);
}

#[test]
fn embed_on_sign_bit_negates() {
    assert_eq!(f64::from_bits(embed_error(bits(1.5), ErrorType::Stuck1, 63)), -1.5);
    assert_eq!(f64::from_bits(embed_error(bits(-1.5), ErrorType::Stuck0, 63)), 1.5);
    assert_eq!(f64::from_bits(embed_error(bits(2.0), ErrorType::Flip, 63)), -2.0);
    assert_eq!(embed_error(bits(2.0), ErrorType::NoFault, 63), bits(2.0));
}

#[test]
fn embed_may_give_infinity_or_nan() {
    // 1.0 has exponent bits 0x3ff; setting bit 62 gives an all-ones exponent.
    let v = f64::from_bits(embed_error(bits(1.0), ErrorType::Stuck1, 62));
    assert!(v.is_infinite());
    let w = f64::from_bits(embed_error(bits(1.5), ErrorType::Flip, 62));
    assert!(w.is_nan());
}

#[test]
fn stuck_last_write_wins() {
    for &value in &[0.0f64, -0.0, 1.0, -3.25, 0.1, f64::INFINITY, f64::NAN, 1e-310] {
        for p in 0u8..64 {
            let v = bits(value);
            assert_eq!(
                embed_error(embed_error(v, ErrorType::Stuck0, p), ErrorType::Stuck1, p),
                embed_error(v, ErrorType::Stuck1, p)
            );
            assert_eq!(
                embed_error(embed_error(v, ErrorType::Stuck1, p), ErrorType::Stuck0, p),
                embed_error(v, ErrorType::Stuck0, p)
            );
        }
    }
}

#[test]
fn flip_twice_is_identity() {
    for &value in &[0.0f64, -0.0, 1.0, -3.25, 0.1, f64::INFINITY, f64::NAN, 1e-310, f64::MAX] {
        for p in 0u8..64 {
            let v = bits(value);
            let once = embed_error(v, ErrorType::Flip, p);
            assert_ne!(once, v);
            assert_eq!(embed_error(once, ErrorType::Flip, p), v);
        }
    }
}

#[test]
fn weight_fault_by_code() {
    let mut w = bits(0.5);
    weight_fault(&mut w, 1, 63);
    assert_eq!(f64::from_bits(w), -0.5);
    weight_fault(&mut w, 0, 63);
    assert_eq!(f64::from_bits(w), 0.5);
    weight_fault(&mut w, 2, 0);
    assert_eq!(w, bits(0.5) ^ 1);
    weight_fault(&mut w, 3, 5);
    assert_eq!(w, bits(0.5) ^ 1);
}
