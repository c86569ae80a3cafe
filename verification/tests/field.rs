use zkvm_trace::field::{BaseField, P};

#[test]
fn identities() {
    assert_eq!(BaseField::zero().value(), 0);
    assert_eq!(BaseField::one().value(), 1);
    assert!(BaseField::zero().is_zero());
    assert!(!BaseField::one().is_zero());
    assert_eq!(BaseField::from_bool(true), BaseField::one());
    assert_eq!(BaseField::from_bool(false), BaseField::zero());
}

#[test]
fn from_u32_reduces_modulo_p() {
    assert_eq!(P, 2147483647);
    assert_eq!(BaseField::from_u32(19).value(), 19);
    assert_eq!(BaseField::from_u32(P - 1).value(), P - 1);
    assert_eq!(BaseField::from_u32(P).value(), 0);
    assert_eq!(BaseField::from_u32(P + 5).value(), 5);
    assert_eq!(BaseField::from_u32(u32::MAX).value(), 1);
}

#[test]
fn sums_wrap_at_the_modulus() {
    let a = BaseField::from_u32(P - 1);
    let b = BaseField::from_u32(3);
    assert_eq!(a.plus(b).value(), 2);
    assert_eq!(b.plus(b).value(), 6);
    assert_eq!(a.plus(BaseField::zero()).value(), P - 1);
}

#[test]
fn products_are_reduced() {
    let a = BaseField::from_u32(P - 1);
    assert_eq!(a.times(a).value(), 1);
    assert_eq!(
        BaseField::from_u32(65536).times(BaseField::from_u32(65536)).value(),
        2
    );
    assert_eq!(BaseField::from_u32(7).times(BaseField::zero()).value(), 0);
}

#[test]
fn inverse_times_element_is_one() {
    for v in [1u32, 2, 19, 31, 65537, P - 1] {
        let x = BaseField::from_u32(v);
        let inv = x.inverse();
        assert_eq!(x.times(inv).value(), 1);
    }
    assert_eq!(BaseField::from_u32(2).inverse().value(), 1073741824);
    assert_eq!(BaseField::one().inverse().value(), 1);
}
