use rustamath::simd;

#[test]
fn add() {
    let mut az: Vec<i64> = vec![0, 1, 2, 3, 4, 5, 6, 7, 8, 9];
    let bs: Vec<i64> = vec![0, 1, 2, 3, 4, 5, 6, 7, 8, 9];
    simd::vec::add(&mut az, &bs);
    assert_eq!(az[5], 10);
}

#[test]
fn add_all_elements() {
    let mut az: Vec<i64> = vec![1, 2, 3, 4, 5];
    let bs: Vec<i64> = vec![10, 20, 30, 40, 50];
    simd::vec::add(&mut az, &bs);
    assert_eq!(az, vec![11, 22, 33, 44, 55]);
}

#[test]
fn noarch_add() {
    let mut az: Vec<i64> = vec![1, 2, 3, 4, 5];
    let bs: Vec<i64> = vec![1, 2, 3, 4, 5];
    simd::noarch::add(&mut az, &bs);
    assert_eq!(az[4], 10);
}

#[test]
fn pow2_squares_each_element() {
    let mut az: Vec<i64> = vec![-3, 0, 2, 7];
    simd::vec::pow2(&mut az);
    assert_eq!(az, vec![9, 0, 4, 49]);
}

#[test]
fn norm_is_floor_sqrt_of_sum_of_squares() {
    let az: Vec<i64> = vec![3, 4];
    assert_eq!(simd::vec::norm(&az), 5);
    let bz: Vec<i64> = vec![1, 2, 3];
    // 1 + 4 + 9 = 14; the integer square root rounds down.
    assert_eq!(simd::vec::norm(&bz), 3);
    let empty: Vec<i64> = vec![];
    assert_eq!(simd::vec::norm(&empty), 0);
}

#[test]
fn new_vector_buffer_is_empty() {
    let v: Vec<i64> = simd::vec::new(16);
    assert_eq!(v.len(), 0);
}
