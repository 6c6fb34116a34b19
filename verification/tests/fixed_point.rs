use fixed::types::U64F64 as Outside;
use mango::fixed_point::{U64F64, SCALE};
use mango::liquidation::TARGET_RATIO_BITS;
use mango::rates::{
    HIGH_SLOPE_BITS, LOW_SLOPE_BITS, MAX_RATE_BITS, OPTIMAL_RATE_BITS, OPTIMAL_UTIL_BITS,
    OPTIMAL_YEARLY_BITS,
};
use mango::state::YEAR;

fn samples() -> Vec<u128> {
    vec![
        0,
        1,
        2,
        0xFFFF_FFFF_FFFF_FFFF,
        SCALE,
        SCALE + 1,
        3 * SCALE / 2,
        7 * SCALE,
        1000 * SCALE + 12345,
        0xB333_3333_3333_3000,
        0x1999_9999_9999_9A00,
        58494241735,
        u128::MAX / 3,
        u128::MAX - 1,
        u128::MAX,
        1 << 100,
        (1 << 127) + 5,
    ]
}

fn inside(x: Option<U64F64>) -> Option<u128> {
    x.map(|v| v.bits)
}

fn outside(x: Option<Outside>) -> Option<u128> {
    x.map(|v| v.to_bits())
}

#[test]
fn from_num_matches_the_fixed_crate() {
    for n in [0u64, 1, 2, 1000, 31536000, u64::MAX] {
        assert_eq!(U64F64::from_num(n).bits, Outside::from_num(n).to_bits());
    }
}

#[test]
fn from_num_is_the_integer_times_two_to_the_64() {
    assert_eq!(U64F64::from_num(0).bits, 0);
    assert_eq!(U64F64::from_num(1).bits, 1u128 << 64);
    assert_eq!(U64F64::from_num(1000).bits, 1000u128 << 64);
    assert_eq!(U64F64::one().bits, SCALE);
    assert_eq!(U64F64::zero().bits, 0);
    assert_eq!(U64F64::max_value().bits, u128::MAX);
    assert_eq!(U64F64::from_bits(77).to_bits(), 77);
}

#[test]
fn to_num_rounds_down_as_the_fixed_crate_does() {
    for bits in samples() {
        let ours: u64 = U64F64 { bits }.to_num();
        let theirs: u64 = Outside::from_bits(bits).to_num();
        assert_eq!(ours, theirs, "bits {bits}");
    }
    assert_eq!(U64F64 { bits: 3 * SCALE / 2 }.to_num(), 1);
    assert_eq!(U64F64 { bits: SCALE - 1 }.to_num(), 0);
}

#[test]
fn checked_add_matches_the_fixed_crate() {
    for a in samples() {
        for b in samples() {
            let ours = inside(U64F64 { bits: a }.checked_add(U64F64 { bits: b }));
            let theirs = outside(Outside::from_bits(a).checked_add(Outside::from_bits(b)));
            assert_eq!(ours, theirs, "{a} + {b}");
        }
    }
}

#[test]
fn checked_sub_matches_the_fixed_crate() {
    for a in samples() {
        for b in samples() {
            let ours = inside(U64F64 { bits: a }.checked_sub(U64F64 { bits: b }));
            let theirs = outside(Outside::from_bits(a).checked_sub(Outside::from_bits(b)));
            assert_eq!(ours, theirs, "{a} - {b}");
        }
    }
}

#[test]
fn checked_mul_matches_the_fixed_crate() {
    for a in samples() {
        for b in samples() {
            let ours = inside(U64F64 { bits: a }.checked_mul(U64F64 { bits: b }));
            let theirs = outside(Outside::from_bits(a).checked_mul(Outside::from_bits(b)));
            assert_eq!(ours, theirs, "{a} * {b}");
        }
    }
}

#[test]
fn checked_div_matches_the_fixed_crate() {
    for a in samples() {
        for b in samples() {
            let ours = inside(U64F64 { bits: a }.checked_div(U64F64 { bits: b }));
            let theirs = outside(Outside::from_bits(a).checked_div(Outside::from_bits(b)));
            assert_eq!(ours, theirs, "{a} / {b}");
        }
    }
}

#[test]
fn checked_mul_gives_the_product_rounded_down() {
    let three = U64F64::from_num(3);
    let four = U64F64::from_num(4);
    assert_eq!(three.checked_mul(four), Some(U64F64::from_num(12)));
    let half = U64F64 { bits: SCALE / 2 };
    assert_eq!(three.checked_mul(half), Some(U64F64 { bits: 3 * SCALE / 2 }));
    // the smallest number times one half is rounded down to zero
    assert_eq!(U64F64 { bits: 1 }.checked_mul(half), Some(U64F64 { bits: 0 }));
    // a product differs from both of its factors
    assert_ne!(three.checked_mul(four), Some(three));
    assert_ne!(three.checked_mul(four), Some(four));
}

#[test]
fn checked_mul_reports_overflow() {
    assert_eq!(U64F64::max_value().checked_mul(U64F64::from_num(2)), None);
    assert_eq!(U64F64::max_value().checked_mul(U64F64::one()), Some(U64F64::max_value()));
    let big = U64F64::from_num(1 << 32);
    assert_eq!(big.checked_mul(big), None);
}

#[test]
fn checked_div_gives_the_quotient_rounded_down() {
    let three = U64F64::from_num(3);
    let four = U64F64::from_num(4);
    assert_eq!(three.checked_div(four), Some(U64F64 { bits: 3 * SCALE / 4 }));
    assert_eq!(U64F64::one().checked_div(three), Some(U64F64 { bits: SCALE / 3 }));
    assert_ne!(three.checked_div(four), Some(three));
    assert_ne!(three.checked_div(four), Some(four));
}

#[test]
fn checked_div_rejects_zero_and_overflow() {
    assert_eq!(U64F64::from_num(3).checked_div(U64F64::zero()), None);
    assert_eq!(U64F64::zero().checked_div(U64F64::zero()), None);
    assert_eq!(U64F64::max_value().checked_div(U64F64 { bits: SCALE / 2 }), None);
    assert_eq!(U64F64::max_value().checked_div(U64F64::one()), Some(U64F64::max_value()));
}

#[test]
fn checked_add_and_sub_report_overflow_and_underflow() {
    assert_eq!(U64F64::max_value().checked_add(U64F64 { bits: 1 }), None);
    assert_eq!(U64F64::zero().checked_sub(U64F64 { bits: 1 }), None);
    assert_eq!(
        U64F64::from_num(5).checked_sub(U64F64::from_num(2)),
        Some(U64F64::from_num(3))
    );
    assert_eq!(
        U64F64::from_num(5).checked_add(U64F64::from_num(2)),
        Some(U64F64::from_num(7))
    );
}

#[test]
fn floor_and_ceil_match_the_fixed_crate() {
    for bits in samples() {
        let ours = inside(U64F64 { bits }.checked_floor());
        let theirs = outside(Outside::from_bits(bits).checked_floor());
        assert_eq!(ours, theirs, "floor of {bits}");
        let ours = inside(U64F64 { bits }.checked_ceil());
        let theirs = outside(Outside::from_bits(bits).checked_ceil());
        assert_eq!(ours, theirs, "ceil of {bits}");
    }
    assert_eq!(
        U64F64 { bits: 3 * SCALE / 2 }.checked_ceil(),
        Some(U64F64::from_num(2))
    );
    assert_eq!(
        U64F64 { bits: 3 * SCALE / 2 }.checked_floor(),
        Some(U64F64::from_num(1))
    );
    assert_eq!(U64F64::from_num(2).checked_ceil(), Some(U64F64::from_num(2)));
    assert_eq!(U64F64::max_value().checked_ceil(), None);
}

#[test]
fn rate_constants_are_the_fixed_point_values_of_the_decimal_rates() {
    assert_eq!(OPTIMAL_UTIL_BITS, Outside::from_num(0.7).to_bits());
    assert_eq!(OPTIMAL_YEARLY_BITS, Outside::from_num(0.10).to_bits());
    assert_eq!(TARGET_RATIO_BITS, Outside::from_num(1.01).to_bits());
    let optimal_r = Outside::from_num(0.10) / Outside::from_num(YEAR);
    let max_r = Outside::from_num(1) / Outside::from_num(YEAR);
    assert_eq!(OPTIMAL_RATE_BITS, optimal_r.to_bits());
    assert_eq!(MAX_RATE_BITS, max_r.to_bits());
    assert_eq!(LOW_SLOPE_BITS, (optimal_r / Outside::from_num(0.7)).to_bits());
    assert_eq!(
        HIGH_SLOPE_BITS,
        ((max_r - optimal_r) / (Outside::from_num(1) - Outside::from_num(0.7))).to_bits()
    );
}
