use rustamath::la::tnsr::{Tnsr, TnsrErr};

fn fill(rows: usize, cols: usize) -> Tnsr<i64> {
    let mut a = Tnsr::<i64>::new_matrix(rows, cols);
    for row in 0..rows {
        for col in 0..cols {
            a.set(row, col, (row as i64) * 1000 + (col as i64) * 7 + 1);
        }
    }
    a
}

#[test]
fn test_transpose_in_place() {
    for nr_rows in 1..20 {
        for nr_cols in 1..20 {
            let mut a = fill(nr_rows, nr_cols);
            let b = a.clone();
            a.transpose();
            assert!(a.is_transpose(&b));
        }
    }
}

#[test]
fn square_transpose_values() {
    let mut a = Tnsr::<i64>::new_matrix(3, 3);
    a.set(0, 0, 11);
    a.set(0, 1, 22);
    a.set(0, 2, 33);
    a.set(1, 0, 44);
    a.set(1, 1, 55);
    a.set(1, 2, 66);
    a.set(2, 0, 77);
    a.set(2, 1, 88);
    a.set(2, 2, 99);
    let b = a.clone();
    a.transpose();
    assert!(a.is_transpose(&b));
    for i in 0..3 {
        for j in 0..3 {
            assert_eq!(a.get(i, j), b.get(j, i));
        }
    }
}

#[test]
fn rectangular_transpose_values() {
    let mut a = Tnsr::<i64>::new_matrix(5, 2);
    let mut next: i64 = 1;
    for i in 0..5 {
        for j in 0..2 {
            a.set(i, j, next);
            next += 1;
        }
    }
    let b = a.clone();
    a.transpose();
    assert_eq!(a.nr_rows(), 2);
    assert_eq!(a.nr_cols(), 5);
    for i in 0..2 {
        for j in 0..5 {
            assert_eq!(a.get(i, j), b.get(j, i));
        }
    }
}

#[test]
fn transpose_view_involution() {
    let mut a = fill(4, 2);
    let before = a.clone();
    a.transpose_view();
    assert_eq!(a.nr_rows(), 2);
    assert_eq!(a.nr_cols(), 4);
    assert!(before.is_transpose(&a));
    assert!(a.is_transpose(&before));
    a.transpose_view();
    assert_eq!(a.raw(), before.raw());
    assert_eq!(a.nr_rows(), 4);
    assert_eq!(a.nr_cols(), 2);
    for i in 0..4 {
        for j in 0..2 {
            assert_eq!(a.get(i, j), before.get(i, j));
        }
    }
}

#[test]
fn make_transposed_matches_in_place() {
    let a = fill(4, 7);
    let made = a.make_transposed();
    let mut moved = a.clone();
    moved.transpose();
    assert_eq!(made.nr_rows(), 7);
    assert_eq!(made.nr_cols(), 4);
    for i in 0..7 {
        for j in 0..4 {
            assert_eq!(made.get(i, j), moved.get(i, j));
        }
    }
    assert!(made.is_transpose(&a));
}

#[test]
fn mul_correctness() {
    let mut a = Tnsr::<i64>::new_matrix(4, 2);
    a.set(0, 0, 11);
    a.set(0, 1, 22);
    a.set(1, 0, 33);
    a.set(1, 1, 44);
    a.set(2, 0, 55);
    a.set(2, 1, 66);
    a.set(3, 0, 77);
    a.set(3, 1, 88);
    let b = a.make_transposed();
    let c = a.mul(&b).unwrap();
    assert_eq!(c.nr_rows(), 4);
    assert_eq!(c.nr_cols(), 4);
    assert_eq!(c.get(3, 3), 77 * 77 + 88 * 88);
    assert_eq!(c.get(0, 0), 11 * 11 + 22 * 22);
    assert_eq!(c.get(0, 1), 11 * 33 + 22 * 44);
}

#[test]
fn add_elementwise() {
    let mut a = Tnsr::<i64>::new_matrix(2, 2);
    a.set(0, 0, 1);
    a.set(0, 1, 2);
    a.set(1, 0, 3);
    a.set(1, 1, 4);
    let mut b = Tnsr::<i64>::new_matrix(2, 2);
    b.set(0, 0, 10);
    b.set(0, 1, 20);
    b.set(1, 0, 30);
    b.set(1, 1, 40);
    assert!(a.add(&b).is_ok());
    assert_eq!(a.get(0, 0), 11);
    assert_eq!(a.get(0, 1), 22);
    assert_eq!(a.get(1, 0), 33);
    assert_eq!(a.get(1, 1), 44);
}

#[test]
fn add_respects_views() {
    // 2x3 plus the transposed view of a 3x2: element (i, j) of the right
    // operand is read at its transposed position.
    let mut a = fill(2, 3);
    let a0 = a.clone();
    let mut b = fill(3, 2);
    b.transpose_view();
    let res = a.add(&b);
    assert!(res.is_ok());
    for i in 0..2 {
        for j in 0..3 {
            assert_eq!(a.get(i, j), a0.get(i, j) + b.get(i, j));
        }
    }
}

#[test]
fn shape_mismatch_rejection() {
    // Mismatched shapes give the shape error, never a panic or truncation.
    let mut a = fill(2, 3);
    let b = fill(3, 2);
    assert_eq!(a.add(&b), Err(TnsrErr::DimentionsMismatch));
    // The failed add left the operand untouched.
    assert_eq!(a.get(1, 2), 1000 + 2 * 7 + 1);

    let c = fill(2, 3);
    assert!(matches!(a.mul(&c), Err(TnsrErr::DimentionsMismatch)));

    let v = Tnsr::<i64>::new_vector(3);
    assert_eq!(
        a.add(&v),
        Err(TnsrErr::IllegalNrDimentions { expect: 2, nr_dims: 1 })
    );
    let mut w = Tnsr::<i64>::new_vector(3);
    assert_eq!(
        w.add(&a),
        Err(TnsrErr::IllegalNrDimentions { expect: 2, nr_dims: 1 })
    );
}

#[test]
fn scale_multiplies_every_element() {
    let mut a = fill(3, 3);
    let a0 = a.clone();
    a.scale(3);
    for i in 0..3 {
        for j in 0..3 {
            assert_eq!(a.get(i, j), a0.get(i, j) * 3);
        }
    }
}

#[test]
fn is_transpose_rejects_unequal() {
    let a = fill(2, 3);
    let mut b = a.make_transposed();
    assert!(a.is_transpose(&b));
    b.set(1, 1, -1);
    assert!(!a.is_transpose(&b));
    let c = fill(2, 3);
    assert!(!a.is_transpose(&c));
}
