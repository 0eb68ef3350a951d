use voyageai::fixed::{isqrt, ln_q16};

#[test]
fn isqrt_exact_values() {
    assert_eq!(isqrt(0), 0);
    assert_eq!(isqrt(1), 1);
    assert_eq!(isqrt(3), 1);
    assert_eq!(isqrt(4), 2);
    assert_eq!(isqrt(24), 4);
    assert_eq!(isqrt(25), 5);
    assert_eq!(isqrt(u64::MAX as u128 * u64::MAX as u128), u64::MAX);
}

#[test]
fn ln_of_powers_of_two_is_a_multiple_of_ln2() {
    // 45426 is ln 2 in Q16 fixed point
    assert_eq!(ln_q16(1, 1), 0);
    assert_eq!(ln_q16(2, 1), 45_426);
    assert_eq!(ln_q16(4, 1), 90_852);
    assert_eq!(ln_q16(1024, 1), 454_260);
    assert_eq!(ln_q16(6, 3), 45_426);
}

#[test]
fn ln_grows_with_the_ratio() {
    let a = ln_q16(8, 5);
    let b = ln_q16(2, 1);
    let c = ln_q16(3, 1);
    assert!(0 < a && a < b && b < c);
    // ln(8/5) is about 0.47; allow one part in a thousand for truncation
    assert!((30_680..=30_830).contains(&a));
}
