use rustamath::la::tnsr::{Tensor, Tnsr, Vector};

#[test]
fn vec_new() {
    let mut v = Tnsr::<i64>::new_vector(10);
    assert_eq!(v.raw().len(), 10);
    assert_eq!(v.v.len(), 10);
    assert_eq!(v.v, vec![0; 10]);
    v.v = vec![1234; 10];
    assert_eq!(v.v, vec![1234; 10]);
    assert_eq!(None, v.v.get(10));
    assert_eq!(Some(&1234), v.v.get(9));
    assert_eq!(Some(&[1234, 1234][..]), v.v.get(0..2));
    v.v[6] = 567;
    assert_eq!(567, v.v[6]);

    let mut v = Tnsr::<i64>::new_vector(2);
    v.v = vec![3, 4]; // 3^2 + 4^2 = 25
    assert_eq!(5, Vector::norm(&v));

    assert_eq!(Tensor::nr_dims(&v), 1);
    assert_eq!(Tensor::sizes(&v), &[2]);
    assert_eq!(Tensor::dim(&v, 0), Some(2));
    assert_eq!(Tensor::dim(&v, 1), None);
}

#[test]
fn vec_get_at() {
    let mut t = Tnsr::<i64>::new_vector(5);
    t.v = vec![1, 2, 3, 4, 5];

    assert_eq!(Vector::get(&t, 0), 1);
    assert_eq!(Vector::get(&t, 1), 2);
    assert_eq!(Vector::get(&t, 4), 5);

    Vector::set(&mut t, 1, 22);
    assert_eq!(Vector::get(&t, 1), 22);
    Vector::set(&mut t, 2, 33);
    assert_eq!(Vector::get(&t, 2), 33);

    let mut f = Tnsr::<i64>::new_vector(5);
    assert_eq!(Vector::get(&f, 1), 0);
    Vector::set(&mut f, 1, 77);
    assert_eq!(Vector::get(&f, 1), 77);
}

#[test]
fn matrix_new() {
    let mut t = Tnsr::<i64>::new_matrix(3, 4);
    t.v = vec![1, 2, 3, 4, 5, 6, 7, 8, 9, 10, 11, 12];

    assert_eq!(t.get(0, 0), 1);
    assert_eq!(t.get(0, 1), 2);
    assert_eq!(t.get(0, 2), 3);
    assert_eq!(t.get(0, 3), 4);
    assert_eq!(t.get(1, 0), 5);
    assert_eq!(t.get(1, 1), 6);
    assert_eq!(t.get(1, 3), 8);
}

#[test]
fn tensor_nd_dims() {
    let t = Tnsr::<i64>::new_tensor(&[2, 3, 4]);
    assert_eq!(Tensor::nr_dims(&t), 3);
    assert_eq!(Tensor::sizes(&t), &[2, 3, 4]);
    assert_eq!(Tensor::dim(&t, 2), Some(4));
    assert_eq!(Tensor::dim(&t, 3), None);
    assert_eq!(t.raw().len(), 24);
    assert!(t.raw().iter().all(|x| *x == 0));
}

#[test]
fn clone_is_independent() {
    let mut a = Tnsr::<i64>::new_matrix(2, 2);
    a.set(0, 0, 7);
    a.set(1, 1, 9);
    let b = a.clone();
    a.set(0, 0, 100);
    assert_eq!(b.get(0, 0), 7);
    assert_eq!(b.get(1, 1), 9);
    assert_eq!(a.get(0, 0), 100);
}

#[test]
fn vector_zero_size() {
    let t = Tnsr::<i64>::new_vector(0);
    assert_eq!(Vector::size(&t), 0);
    assert_eq!(Vector::norm(&t), 0);
}
