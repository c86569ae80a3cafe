use zkvm_trace::domain::{
    bit_reverse, bit_reverse_index, circle_domain_order_to_coset_order,
    coset_order_to_circle_domain_order,
};

#[test]
fn bit_reverse_index_reverses_the_low_bits() {
    assert_eq!(bit_reverse_index(0, 3), 0);
    assert_eq!(bit_reverse_index(1, 3), 4);
    assert_eq!(bit_reverse_index(3, 3), 6);
    assert_eq!(bit_reverse_index(6, 3), 3);
    assert_eq!(bit_reverse_index(1, 1), 1);
    assert_eq!(bit_reverse_index(0b1011, 4), 0b1101);
    assert_eq!(bit_reverse_index(1, usize::BITS), 1 << (usize::BITS - 1));
    // bits above the reversed ones are dropped
    assert_eq!(bit_reverse_index(0b1001, 3), 0b100);
    // with no bits to reverse the index comes back
    assert_eq!(bit_reverse_index(5, 0), 5);
}

#[test]
fn bit_reverse_permutes_in_place() {
    let mut v: Vec<u32> = (0..8).collect();
    bit_reverse(&mut v);
    assert_eq!(v, vec![0, 4, 2, 6, 1, 5, 3, 7]);
    let mut one = vec![9u32];
    bit_reverse(&mut one);
    assert_eq!(one, vec![9]);
    let mut two = vec![1u32, 2];
    bit_reverse(&mut two);
    assert_eq!(two, vec![1, 2]);
}

#[test]
fn coset_order_to_circle_domain_order_interleaves() {
    let v: Vec<u32> = (0..8).collect();
    assert_eq!(
        coset_order_to_circle_domain_order(&v),
        vec![0, 2, 4, 6, 7, 5, 3, 1]
    );
    assert_eq!(
        circle_domain_order_to_coset_order(&[0u32, 2, 4, 6, 7, 5, 3, 1]),
        v
    );
    let empty: Vec<u32> = vec![];
    assert_eq!(coset_order_to_circle_domain_order(&empty), empty);
    // of an odd number of values the middle one is left out
    assert_eq!(coset_order_to_circle_domain_order(&[1u32, 2, 3]), vec![1, 3]);
}

#[test]
fn reordering_round_trip() {
    for k in 1..=10u32 {
        let n = 1usize << k;
        let natural: Vec<u32> = (0..n as u32).map(|i| i * 7 + 3).collect();
        let mut committed = coset_order_to_circle_domain_order(&natural);
        bit_reverse(&mut committed);
        if k > 1 {
            assert_ne!(committed, natural);
        }
        bit_reverse(&mut committed);
        let back = circle_domain_order_to_coset_order(&committed);
        assert_eq!(back, natural);
    }
}

#[test]
fn bit_reverse_twice_is_identity() {
    for k in 0..=8u32 {
        let n = 1usize << k;
        let natural: Vec<usize> = (0..n).collect();
        let mut v = natural.clone();
        bit_reverse(&mut v);
        for i in 0..n {
            assert_eq!(v[i], natural[bit_reverse_index(i, k)]);
        }
        bit_reverse(&mut v);
        assert_eq!(v, natural);
    }
}
