use brique::activation::relu;
use brique::activation::softmax_normalize;
use brique::activation::softmax_shift;
use brique::checkpoint::BestMetric;
use brique::layers::Layer;
use brique::loss::l2_reg;
use brique::loss::one_hot_encoding;
use brique::matrix::Matrix;
use brique::model::Model;
use brique::model_builder::ModelBuilder;
use brique::optimizer::Optimizer;
use brique::parse_test_csv::is_line_empty;
use brique::utils::check_image_file_header;
use brique::utils::check_label_file_header;
use brique::utils::convert_4_bytes_to_u32_big_endian;
use brique::utils::extract_images;
use brique::utils::extract_labels;
use brique::utils::generate_batch_index;
use brique::utils::generate_vec_rand_unique;

fn b(x: f64) -> u64 {
    x.to_bits()
}

fn f(x: u64) -> f64 {
    f64::from_bits(x)
}

fn mtx(h: usize, w: usize, vals: Vec<f64>) -> Matrix {
    let data: Vec<u64> = vals.into_iter().map(|v| v.to_bits()).collect();
    Matrix::init(h, w, data)
}

#[test]
fn relu_rule() {
    assert_eq!(f(relu(b(-3.5))), 0.0);
    assert_eq!(f(relu(b(0.0))), 0.0);
    assert_eq!(f(relu(b(2.5))), 2.5);
}

// Adam update determinism: fixed gradient, beta1 = 0.9, beta2 = 0.999,
// learning step 0.001, iteration 7, fixed prior moment buffers; the updated
// parameters must match the precomputed values to ten decimal digits (here
// they match bit for bit).
#[test]
fn test_adam_optimizer() {
    let weights = mtx(2, 2, vec![0.5, -0.25, 1.5, 0.75]);
    let biases = mtx(1, 2, vec![0.1, -0.2]);
    let mut layer = Layer::init_with_data(weights, biases, true);

    layer.first_moment_weight = Some(mtx(2, 2, vec![0.01, 0.02, -0.005, 0.1]));
    layer.first_moment_biase = Some(mtx(1, 2, vec![0.001, -0.002]));
    layer.second_moment_weight = Some(mtx(2, 2, vec![0.0001, 0.0002, 0.00005, 0.001]));
    layer.second_moment_biase = Some(mtx(1, 2, vec![0.00001, 0.00002]));

    let adam = Optimizer::Adam { learning_step: b(0.001), beta1: b(0.9), beta2: b(0.999) };
    let iteration = 7;

    layer.update_weigths(mtx(2, 2, vec![0.03, -0.01, 0.002, 0.4]), &adam, iteration);
    layer.update_biases(mtx(1, 2, vec![0.05, -0.07]), &adam, iteration);

    let expected_weights = mtx(
        2,
        2,
        vec![0.499808607511873, -0.2501925380359985, 1.5000974220081127, 0.7493885290946937],
    );
    let expected_biases = mtx(1, 2, vec![0.09973267225462507, -0.1997174918205165]);

    assert!(
        layer.weights_t.is_equal(&expected_weights, 10),
        "Adam test : the updated weights don't have the expected values"
    );
    assert!(
        layer.biases.is_equal(&expected_biases, 10),
        "Adam test : the updated biases don't have the expected values"
    );
    for i in 0..4 {
        assert_eq!(layer.weights_t.get_1d(i), expected_weights.get_1d(i));
    }
    for i in 0..2 {
        assert_eq!(layer.biases.get_1d(i), expected_biases.get_1d(i));
    }
}

#[test]
fn sgd_update() {
    let weights = mtx(1, 2, vec![1.0, -2.0]);
    let biases = mtx(1, 2, vec![0.0, 0.0]);
    let mut layer = Layer::init_with_data(weights, biases, false);
    let sgd = Optimizer::SGD { learning_step: b(0.5) };

    layer.update_weigths(mtx(1, 2, vec![0.2, -0.4]), &sgd, 1);

    let reference0: f64 = 1.0 + 0.2 * (0.5 * -1.0);
    let reference1: f64 = -2.0 + -0.4 * (0.5 * -1.0);
    assert_eq!(layer.weights_t.get_1d(0), reference0.to_bits());
    assert_eq!(layer.weights_t.get_1d(1), reference1.to_bits());
}

#[test]
fn forward_affine_and_relu() {
    // weights stored pre-transposed: 2 inputs, 2 neurons
    let weights = mtx(2, 2, vec![1.0, -1.0, 2.0, 0.5]);
    let biases = mtx(1, 2, vec![0.25, -10.0]);
    let mut layer = Layer::init_with_data(weights, biases, true);

    let input = mtx(1, 2, vec![3.0, 4.0]);
    let out = layer.forward(&input, false);

    // z = [3*1 + 4*2 + 0.25, 3*-1 + 4*0.5 - 10] = [11.25, -11], relu masks
    assert_eq!(out.height, 1);
    assert_eq!(out.width, 2);
    assert_eq!(f(out.get(0, 0)), 11.25);
    assert_eq!(f(out.get(0, 1)), 0.0);
    // the cached output holds the post-activation values
    assert_eq!(f(layer.output.get(0, 1)), 0.0);
    assert_eq!(f(layer.output.get(0, 0)), 11.25);
}

#[test]
fn d_score_subtracts_one_at_label() {
    let score = mtx(2, 3, vec![0.2, 0.5, 0.3, 0.1, 0.1, 0.8]);
    let labels = mtx(1, 2, vec![1.0, 2.0]);
    let d = Model::compute_d_score(&score, &labels);

    assert_eq!(f(d.get(0, 0)), 0.2);
    assert_eq!(f(d.get(0, 1)), 0.5 - 1.0);
    assert_eq!(f(d.get(0, 2)), 0.3);
    assert_eq!(f(d.get(1, 0)), 0.1);
    assert_eq!(f(d.get(1, 1)), 0.1);
    assert_eq!(f(d.get(1, 2)), 0.8 - 1.0);
}

#[test]
fn evaluation_output_test() {
    let score = mtx(2, 3, vec![0.1, 1.3, 0.5, 12.0, 1.01, -1000.0]);
    let expected_output = mtx(1, 2, vec![1.0, 0.0]);
    let output = Model::evaluation_output(&score);

    assert!(expected_output.is_equal(&output, 10));
}

// Accuracy is 1.0 when the predicted argmax equals every label, and 0.0
// when it equals none.
#[test]
fn accuracy_extremes() {
    let mut model = Model::init(Vec::new(), Optimizer::SGD { learning_step: b(0.01) }, b(0.0));
    let score = mtx(2, 3, vec![0.1, 1.3, 0.5, 12.0, 1.01, -1000.0]);

    let all_right = mtx(1, 2, vec![1.0, 0.0]);
    assert_eq!(f(model.accuracy(&score, &all_right)), 1.0);

    let all_wrong = mtx(1, 2, vec![0.0, 2.0]);
    assert_eq!(f(model.accuracy(&score, &all_wrong)), 0.0);

    let half = mtx(1, 2, vec![1.0, 2.0]);
    assert_eq!(f(model.accuracy(&score, &half)), 0.5);
}

#[test]
fn one_hot_selects_labelled_scores() {
    let input = mtx(2, 3, vec![0.2, 0.5, 0.3, 0.1, 0.1, 0.8]);
    let labels: Vec<usize> = vec![1, 2];
    let row = one_hot_encoding(&input, &labels);

    assert_eq!(row.height, 1);
    assert_eq!(row.width, 2);
    assert_eq!(f(row.get(0, 0)), 0.5);
    assert_eq!(f(row.get(0, 1)), 0.8);
}

#[test]
fn l2_reg_value() {
    let layer = Layer::init_with_data(
        mtx(1, 2, vec![2.0, -3.0]),
        mtx(1, 2, vec![0.0, 0.0]),
        false,
    );
    let layers = vec![layer];
    let lambda = 0.1;

    let reference: f64 = 0.0 + 0.5 * lambda * (2.0f64.powi(2) + (-3.0f64).powi(2));
    assert_eq!(l2_reg(&layers, b(lambda)), reference.to_bits());
}

#[test]
fn softmax_stages() {
    let m = mtx(1, 3, vec![1.0, 3.0, 2.0]);
    let shifted = softmax_shift(&m);
    assert_eq!(f(shifted.get_1d(0)), -2.0);
    assert_eq!(f(shifted.get_1d(1)), 0.0);
    assert_eq!(f(shifted.get_1d(2)), -1.0);

    // after exponentiation (done by the caller), normalization divides each
    // row by its sum
    let mut exped = mtx(1, 3, vec![1.0, 4.0, 3.0]);
    softmax_normalize(&mut exped);
    assert_eq!(f(exped.get_1d(0)), 1.0 / 8.0);
    assert_eq!(f(exped.get_1d(1)), 4.0 / 8.0);
    assert_eq!(f(exped.get_1d(2)), 3.0 / 8.0);
}

// With a validation-accuracy checkpoint, accuracy that strictly rises and
// then falls saves exactly once, at the rise; the first observation only
// sets the baseline.
#[test]
fn checkpoint_saves_once() {
    let mut best = BestMetric::new();
    assert!(!best.observe_higher(b(0.4)));
    assert!(best.observe_higher(b(0.7)));
    assert!(!best.observe_higher(b(0.6)));

    let mut best_loss = BestMetric::new();
    assert!(!best_loss.observe_lower(b(1.4)));
    assert!(best_loss.observe_lower(b(0.9)));
    assert!(!best_loss.observe_lower(b(1.1)));
}

#[test]
fn batches_partition_the_indices() {
    let table: Vec<u32> = vec![10, 11, 12, 13, 14, 15, 16];
    let batches = generate_batch_index(&table, 3);

    assert_eq!(batches.len(), 3);
    assert_eq!(batches[0], vec![10, 11, 12]);
    assert_eq!(batches[1], vec![13, 14, 15]);
    assert_eq!(batches[2], vec![16]);
}

#[test]
fn shuffled_indices_are_a_permutation() {
    let shuffled = generate_vec_rand_unique(50);
    assert_eq!(shuffled.len(), 50);
    let mut sorted = shuffled.clone();
    sorted.sort();
    for i in 0..50u32 {
        assert_eq!(sorted[i as usize], i);
    }
}

#[test]
fn four_byte_big_endian() {
    assert_eq!(convert_4_bytes_to_u32_big_endian(vec![0, 0, 1, 2]), 258);
    assert_eq!(convert_4_bytes_to_u32_big_endian(vec![1, 0, 0, 0]), 16777216);
}

#[test]
fn label_and_image_files() {
    let labels_file: Vec<u8> = vec![0, 0, 8, 1, 0, 0, 0, 3, 7, 0, 2];
    assert!(check_label_file_header(&labels_file));
    assert!(!check_label_file_header(&vec![0, 0, 8, 2, 0, 0, 0, 0]));
    let labels = extract_labels(&labels_file);
    assert_eq!(labels.height, 1);
    assert_eq!(labels.width, 3);
    assert_eq!(f(labels.get(0, 0)), 7.0);
    assert_eq!(f(labels.get(0, 2)), 2.0);

    // 2 images of 1 x 2 pixels
    let image_file: Vec<u8> = vec![0, 0, 8, 3, 0, 0, 0, 2, 0, 0, 0, 1, 0, 0, 0, 2, 9, 8, 7, 6];
    assert!(check_image_file_header(&image_file));
    assert!(!check_image_file_header(&vec![0, 0, 8, 3, 0, 0, 0, 9]));
    let images = extract_images(&image_file);
    assert_eq!(images.height, 2);
    assert_eq!(images.width, 2);
    assert_eq!(f(images.get(0, 0)), 9.0);
    assert_eq!(f(images.get(1, 1)), 6.0);
}

#[test]
fn empty_lines() {
    assert!(is_line_empty(&[44, 32, 10, 44]));
    assert!(is_line_empty(&[]));
    assert!(!is_line_empty(&[44, 48, 10]));
}

#[test]
fn builder_defaults_and_overrides() {
    let layer = Layer::init_test(2, true, mtx(2, 2, vec![1.0, 0.0, 0.0, 1.0]));
    let model = ModelBuilder::new().add_layer(layer).build();
    assert_eq!(model.lambda, b(0.001));
    match model.optimizer {
        Optimizer::SGD { learning_step } => assert_eq!(learning_step, b(0.01)),
        _ => panic!("default optimizer should be plain gradient descent"),
    }

    let layer2 = Layer::init_test(2, true, mtx(2, 2, vec![1.0, 0.0, 0.0, 1.0]));
    let model2 = ModelBuilder::new()
        .add_layer(layer2)
        .l2_reg(b(0.012))
        .optimizer(Optimizer::SGD { learning_step: b(0.5) })
        .build();
    assert_eq!(model2.lambda, b(0.012));
    match model2.optimizer {
        Optimizer::SGD { learning_step } => assert_eq!(learning_step, b(0.5)),
        _ => panic!("the chosen optimizer should be kept"),
    }
}

// One whole training step of a single affine layer under plain gradient
// descent, checked bit for bit against the same arithmetic in hardware.
#[test]
fn update_params_single_layer() {
    let weights = mtx(2, 2, vec![0.5, -0.25, 1.0, 0.75]);
    let biases = mtx(1, 2, vec![0.1, -0.1]);
    let mut layer = Layer::init_with_data(weights, biases, false);
    let input = mtx(1, 2, vec![2.0, 3.0]);
    let out = layer.forward(&input, false);
    assert_eq!(f(out.get(0, 0)), 2.0 * 0.5 + 3.0 * 1.0 + 0.1);

    let lambda = 0.01;
    let mut model = Model::init(
        vec![layer],
        Optimizer::SGD { learning_step: b(0.1) },
        b(lambda),
    );
    let d_score = mtx(1, 2, vec![0.3, -0.2]);
    model.update_params(d_score, input, 1, false);

    // d_w = input^T . d_score + lambda * w ; w' = w - 0.1 * d_w
    let w = [[0.5, -0.25], [1.0, 0.75]];
    let x = [2.0, 3.0];
    let g = [0.3, -0.2];
    for i in 0..2 {
        for j in 0..2 {
            let mut dot: f64 = 0.0;
            dot = dot + x[i] * g[j];
            let dw: f64 = dot + w[i][j] * lambda;
            let reference: f64 = w[i][j] + dw * (0.1 * -1.0);
            assert_eq!(model.layers[0].weights_t.get(i, j), reference.to_bits());
        }
    }
    // d_b = column sums of d_score ; b' = b - 0.1 * d_b
    let bias = [0.1, -0.1];
    for j in 0..2 {
        let db: f64 = 0.0 + g[j];
        let reference: f64 = bias[j] + db * (0.1 * -1.0);
        assert_eq!(model.layers[0].biases.get(0, j), reference.to_bits());
    }
}
