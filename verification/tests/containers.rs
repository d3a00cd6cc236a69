use soklyn::util::image::ImageBatch;
use soklyn::util::log::Error;
use soklyn::util::matrix::Matrix;
use soklyn::util::tensor::TensorContainerType;
use soklyn::F32;

fn single(x: f32) -> F32 {
    F32 { bits: x.to_bits() }
}

#[test]
fn a_matrix_is_row_major() {
    let m: Matrix<F32> = Matrix::new_init(2, 3, |r: usize, c: usize| single((10 * r + c) as f32));
    assert_eq!(m.rows(), 2);
    assert_eq!(m.cols(), 3);
    assert_eq!(m.get(1, 2), Some(&single(12.0)));
    assert_eq!(m.get_v()[5], single(12.0));
    assert_eq!(m.get(2, 0), None);
    assert_eq!(m.get(0, 3), None);
    assert!(m.is_not_empty());
    assert!(!m.is_empty());
}

#[test]
fn a_matrix_gives_back_what_was_written() {
    let mut m: Matrix<F32> = Matrix::new(2, 2);
    m.set(1, 0, single(5.0)).unwrap();
    assert_eq!(m.get(1, 0), Some(&single(5.0)));
    assert_eq!(m.get(0, 1), Some(&single(0.0)));
    *m.get_mut(0, 1).unwrap() = single(7.0);
    assert_eq!(m.get(0, 1), Some(&single(7.0)));
    m.set_v(3, single(9.0)).unwrap();
    assert_eq!(m.get(1, 1), Some(&single(9.0)));
    assert!(matches!(m.set(2, 0, single(1.0)), Err(Error::IndexOutOfBounds { .. })));
    assert!(matches!(
        m.set_v(4, single(1.0)),
        Err(Error::IndexOutOfBounds { idx: 4, max_idx: 4, .. })
    ));
    let none: Matrix<F32> = Matrix::empty();
    assert!(none.is_empty());
    assert!(!none.is_not_empty());
}

#[test]
fn images_are_laid_out_one_behind_the_other() {
    let b: ImageBatch<F32> = ImageBatch::new_init(
        2,
        3,
        4,
        5,
        |n: usize, c: usize, h: usize, w: usize| single((1000 * n + 100 * c + 10 * h + w) as f32),
    );
    assert_eq!(b.idx(1, 2, 3, 4), 119);
    assert_eq!(b.get(1, 2, 3, 4), Some(&single(1234.0)));
    assert_eq!(b.get_v(119), Some(&single(1234.0)));
    assert_eq!(b.get_v(120), None);
    assert_eq!(b.get(2, 0, 0, 0), None);
    assert_eq!((b.get_n(), b.get_c(), b.get_h(), b.get_w()), (2, 3, 4, 5));
    assert_eq!(b.get_data().len(), 120);
    assert!(b.is_not_empty());
}

#[test]
fn an_image_gives_back_what_was_written() {
    let mut b: ImageBatch<F32> = ImageBatch::new(1, 1, 2, 2);
    b.set(0, 0, 1, 0, single(3.0)).unwrap();
    assert_eq!(b.get(0, 0, 1, 0), Some(&single(3.0)));
    assert_eq!(b.get(0, 0, 0, 1), Some(&single(0.0)));
    b.set_v(0, single(4.0)).unwrap();
    assert_eq!(b.get(0, 0, 0, 0), Some(&single(4.0)));
    *b.get_mut(0, 0, 1, 1).unwrap() = single(6.0);
    assert_eq!(b.get_v(3), Some(&single(6.0)));
    assert!(matches!(b.set(0, 0, 2, 0, single(1.0)), Err(Error::IndexOutOfBounds { .. })));
    assert!(matches!(b.set_v(4, single(1.0)), Err(Error::IndexOutOfBounds { .. })));
    let none: ImageBatch<F32> = ImageBatch::empty();
    assert!(none.is_empty());
}

#[test]
fn shapes_come_from_the_front_of_a_list() {
    let sizes = [2, 3, 4, 5];
    assert_eq!(<Vec<F32> as TensorContainerType>::shape_from_slice(&sizes), [2]);
    assert_eq!(<Matrix<F32> as TensorContainerType>::shape_from_slice(&sizes), [2, 3]);
    assert_eq!(<ImageBatch<F32> as TensorContainerType>::shape_from_slice(&sizes), [2, 3, 4, 5]);
}

#[test]
fn an_initialiser_may_count_its_calls() {
    let mut calls = Vec::new();
    let m: Matrix<F32> = Matrix::new_init(2, 3, |r: usize, c: usize| {
        calls.push((r, c));
        single(calls.len() as f32)
    });
    assert_eq!(calls, vec![(0, 0), (0, 1), (0, 2), (1, 0), (1, 1), (1, 2)]);
    assert_eq!(m.get(1, 0), Some(&single(4.0)));
    let mut last = 0;
    let b: ImageBatch<F32> = ImageBatch::new_init(1, 2, 1, 2, |n, c, h, w| {
        last += 1;
        assert_eq!((n, c, h, w), (0, (last - 1) / 2, 0, (last - 1) % 2));
        single(last as f32)
    });
    assert_eq!(last, 4);
    assert_eq!(b.get(0, 1, 0, 1), Some(&single(4.0)));
}
