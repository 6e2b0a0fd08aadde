use brique::matrix::Matrix;

fn b(x: f64) -> u64 {
    x.to_bits()
}

fn f(x: u64) -> f64 {
    f64::from_bits(x)
}

fn mtx(h: usize, w: usize, vals: Vec<f64>) -> Matrix {
    let data: Vec<u64> = vals.into_iter().map(|v| v.to_bits()).collect();
    Matrix::init(h, w, data)
}

fn get_test_matrix() -> Matrix {
    mtx(2, 3, vec![0.1, 1.3, 0.5, 12.0, 1.01, -1000.0])
}

#[test]
fn valid_get() {
    let matrix = get_test_matrix();

    assert_eq!(f(matrix.get(0, 0)), 0.1);
    assert_eq!(f(matrix.get(0, 1)), 1.3);
    assert_eq!(f(matrix.get(0, 2)), 0.5);
    assert_eq!(f(matrix.get(1, 0)), 12.0);
    assert_eq!(f(matrix.get(1, 1)), 1.01);
    assert_eq!(f(matrix.get(1, 2)), -1000.0);
}

#[test]
fn valid_get_on_transposed() {
    let mut matrix = get_test_matrix();
    matrix.transpose_inplace();

    assert_eq!(f(matrix.get(0, 0)), 0.1);
    assert_eq!(f(matrix.get(0, 1)), 12.0);
    assert_eq!(f(matrix.get(1, 0)), 1.3);
    assert_eq!(f(matrix.get(1, 1)), 1.01);
    assert_eq!(f(matrix.get(2, 0)), 0.5);
    assert_eq!(f(matrix.get(2, 1)), -1000.0);
}

#[test]
fn valid_get_on_untransposed() {
    let mut matrix = get_test_matrix();
    matrix.transpose_inplace();
    matrix.transpose_inplace();

    assert_eq!(f(matrix.get(0, 0)), 0.1);
    assert_eq!(f(matrix.get(0, 1)), 1.3);
    assert_eq!(f(matrix.get(0, 2)), 0.5);
    assert_eq!(f(matrix.get(1, 0)), 12.0);
    assert_eq!(f(matrix.get(1, 1)), 1.01);
    assert_eq!(f(matrix.get(1, 2)), -1000.0);
}

#[test]
#[should_panic]
fn unvalid_get_column_out_of_bound() {
    let matrix = get_test_matrix();

    matrix.get(2, 0);
}

#[test]
#[should_panic]
fn unvalid_get_row_out_of_bound() {
    let matrix = get_test_matrix();

    matrix.get(5, 1);
}

#[test]
#[should_panic]
fn unvalid_get_tranposed_column_out_of_bound() {
    let mut matrix = get_test_matrix();
    matrix.transpose_inplace();

    matrix.get(0, 2);
}

#[test]
#[should_panic]
fn unvalid_get_transposed_row_out_of_bound() {
    let mut matrix = get_test_matrix();
    matrix.transpose_inplace();

    matrix.get(3, 1);
}

#[test]
fn valid_get_row() {
    let matrix = get_test_matrix();
    let expected_vec: Vec<u64> = vec![b(12.0), b(1.01), b(-1000.0)];

    assert_eq!(matrix.get_row(1), expected_vec);
}

#[test]
fn valid_get_row_on_transposed() {
    let mut matrix = get_test_matrix();
    let expected_vec: Vec<u64> = vec![b(0.5), b(-1000.0)];
    matrix.transpose_inplace();

    assert_eq!(matrix.get_row(2), expected_vec);
}

#[test]
fn valid_set() {
    let mut matrix = get_test_matrix();
    matrix.set(b(69.69), 1, 1);

    assert_eq!(matrix.data[4], b(69.69));
}

#[test]
#[should_panic]
fn unvalid_set_column_out_of_bound() {
    let mut matrix = get_test_matrix();

    matrix.set(b(69.69), 2, 0);
}

#[test]
#[should_panic]
fn unvalid_set_row_out_of_bound() {
    let mut matrix = get_test_matrix();

    matrix.set(b(69.69), 5, 1);
}

#[test]
#[should_panic]
fn unvalid_set_tranposed_column_out_of_bound() {
    let mut matrix = get_test_matrix();
    matrix.transpose_inplace();

    matrix.set(b(69.69), 0, 2);
}

#[test]
#[should_panic]
fn unvalid_set_transposed_row_out_of_bound() {
    let mut matrix = get_test_matrix();
    matrix.transpose_inplace();

    matrix.set(b(69.69), 3, 1);
}

#[test]
fn valid_set_row() {
    let mut matrix = get_test_matrix();
    let new_row: Vec<u64> = vec![b(0.8), b(0.1), b(1203123.0)];

    matrix.set_row(&new_row, 0);

    assert_eq!(matrix.get_row(0), new_row);
}

#[test]
fn valid_set_row_on_transposed() {
    let mut matrix = get_test_matrix();
    let new_row: Vec<u64> = vec![b(0.8), b(0.1)];

    matrix.transpose_inplace();
    matrix.set_row(&new_row, 2);

    assert_eq!(matrix.get_row(2), new_row);
}

#[test]
fn max_test() {
    let matrix = get_test_matrix();

    assert_eq!(f(matrix.max()), 12.0);
}

#[test]
fn min_test() {
    let matrix = get_test_matrix();

    assert_eq!(f(matrix.min()), -1000.0);
}

// The product of the fixed 4x2 and 2x3 matrices matches the expected values
// to ten decimal digits, and bit for bit against the same fold carried out
// in hardware arithmetic.
#[test]
fn test_dot() {
    let matrix_random_1 = mtx(4, 2, vec![2.0, 1.0, 4.0, 5.6, 23.0, -0.4, 0.0, 3.0]);
    let matrix_random_2 = mtx(2, 3, vec![2.0, -0.69, 6.5, -1.0, 1.0, 0.5]);

    let output = matrix_random_1.dot(&matrix_random_2);

    let expected_output = mtx(
        4,
        3,
        vec![
            3.0,
            -0.3799999999999999,
            13.5,
            2.4000000000000004,
            2.84,
            28.8,
            46.4,
            -16.27,
            149.3,
            -3.0,
            3.0,
            1.5,
        ],
    );

    assert!(output.is_equal(&expected_output, 10));

    // bit-exact agreement with the same accumulation done in hardware
    let a = [[2.0, 1.0], [4.0, 5.6], [23.0, -0.4], [0.0, 3.0]];
    let m = [[2.0, -0.69, 6.5], [-1.0, 1.0, 0.5]];
    for r in 0..4 {
        for c in 0..3 {
            let mut tmp: f64 = 0.0;
            for k in 0..2 {
                tmp = tmp + a[r][k] * m[k][c];
            }
            assert_eq!(output.get(r, c), tmp.to_bits());
        }
    }
}

#[test]
fn test_add_row() {
    let matrix_random_2 = mtx(2, 3, vec![2.0, -0.69, 6.5, -1.0, 1.0, 0.5]);
    let matrix_random_3 = mtx(1, 3, vec![8.0, -5.21, 0.00]);

    let output = matrix_random_2.add_1d_matrix_to_all_rows(&matrix_random_3);
    let expected_output = mtx(2, 3, vec![10.0, -5.9, 6.5, 7.0, -4.21, 0.5]);

    assert!(output.is_equal(&expected_output, 10));
}

// Double transposition gives back the original matrix, confirmed by indexed
// access before and after.
#[test]
fn transpose_round_trip() {
    let matrix = get_test_matrix();
    let twice = matrix.t().t();

    assert_eq!(matrix.height, twice.height);
    assert_eq!(matrix.width, twice.width);
    assert_eq!(matrix.transposed, twice.transposed);
    for r in 0..matrix.height {
        for c in 0..matrix.width {
            assert_eq!(matrix.get(r, c), twice.get(r, c));
        }
    }
}

// Distribution of the product over elementwise addition, exact on matrices
// whose entries and products stay integral.
#[test]
fn dot_distributes_over_add() {
    let a = mtx(2, 2, vec![1.0, 2.0, 3.0, 4.0]);
    let bm = mtx(2, 2, vec![5.0, 6.0, 7.0, 8.0]);
    let c = mtx(2, 2, vec![1.0, 2.0, 3.0, 4.0]);

    let lhs = a.add_two_matrices(&bm).dot(&c);
    let rhs = a.dot(&c).add_two_matrices(&bm.dot(&c));

    assert!(lhs.is_equal(&rhs, 10));
    assert!(lhs.is_equal(&mtx(2, 2, vec![30.0, 44.0, 46.0, 68.0]), 10));
}

#[test]
fn normalize_test() {
    let mut matrix = get_test_matrix();
    matrix.normalize();

    let expected = mtx(
        2,
        3,
        vec![
            0.9882411067193676,
            0.9894268774703557,
            0.9886363636363636,
            1.0,
            0.9891403162055336,
            0.0,
        ],
    );
    assert!(matrix.is_equal(&expected, 8));
    for i in 0..6 {
        let x = [0.1, 1.3, 0.5, 12.0, 1.01, -1000.0][i];
        let reference: f64 = (x - -1000.0) / (12.0 - -1000.0);
        assert_eq!(matrix.get_1d(i), reference.to_bits());
    }
}

// Rounding to a precision is the oracle of every comparison: values that
// agree only in their first digits are equal at a coarse precision and
// different at a fine one.
#[test]
fn is_equal_rounding() {
    let a = mtx(1, 1, vec![0.123456]);
    let bm = mtx(1, 1, vec![0.123457]);

    assert!(a.is_equal(&bm, 4));
    assert!(!a.is_equal(&bm, 6));
    assert!(!a.is_equal(&mtx(1, 2, vec![0.123456, 0.0]), 4));
}

#[test]
fn sum_and_sum_rows() {
    let m = mtx(2, 3, vec![1.0, 2.0, 3.0, 4.0, 5.0, 6.0]);
    assert_eq!(f(m.sum()), 21.0);

    let rows = m.sum_rows();
    assert_eq!(rows.height, 1);
    assert_eq!(rows.width, 3);
    assert_eq!(f(rows.get(0, 0)), 5.0);
    assert_eq!(f(rows.get(0, 1)), 7.0);
    assert_eq!(f(rows.get(0, 2)), 9.0);
}

#[test]
fn scalar_ops() {
    let m = mtx(1, 3, vec![1.5, -2.0, 4.0]);
    let doubled = m.mult(b(2.0));
    assert_eq!(f(doubled.get_1d(0)), 3.0);
    assert_eq!(f(doubled.get_1d(1)), -4.0);
    assert_eq!(f(doubled.get_1d(2)), 8.0);

    let halved = m.div(b(2.0));
    assert_eq!(f(halved.get_1d(0)), 0.75);
    assert_eq!(f(halved.get_1d(1)), -1.0);
    assert_eq!(f(halved.get_1d(2)), 2.0);

    let squared = m.pow(2);
    assert_eq!(f(squared.get_1d(0)), 2.25);
    assert_eq!(f(squared.get_1d(1)), 4.0);
    assert_eq!(f(squared.get_1d(2)), 16.0);
}

#[test]
fn d_relu_mask() {
    let mut grad = mtx(1, 4, vec![1.0, 2.0, 3.0, 4.0]);
    let pre = mtx(1, 4, vec![-1.0, 0.0, 0.5, -0.0]);
    grad.compute_d_relu_inplace(&pre);

    assert_eq!(f(grad.get_1d(0)), 0.0);
    assert_eq!(f(grad.get_1d(1)), 0.0);
    assert_eq!(f(grad.get_1d(2)), 3.0);
    assert_eq!(f(grad.get_1d(3)), 0.0);
}

#[test]
fn pop_last_row_drops_one_row() {
    let mut m = mtx(3, 2, vec![1.0, 2.0, 3.0, 4.0, 5.0, 6.0]);
    m.pop_last_row();
    assert_eq!(m.height, 2);
    assert_eq!(m.width, 2);
    assert_eq!(f(m.get(1, 1)), 4.0);
}
