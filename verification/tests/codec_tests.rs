use brique::layers::Layer;
use brique::matrix::Matrix;
use brique::model::Model;
use brique::optimizer::Optimizer;
use brique::save_load::add_header;
use brique::save_load::binary_to_layer;
use brique::save_load::binary_to_matrix;
use brique::save_load::binary_to_model;
use brique::save_load::check_header;
use brique::save_load::layer_to_binary;
use brique::save_load::matrix_to_binary;
use brique::save_load::model_to_binary;
use brique::save_load::LookupStructBinaryId;
use brique::save_load::ModelManagementError;

fn b(x: f64) -> u64 {
    x.to_bits()
}

fn mtx(h: usize, w: usize, vals: Vec<f64>) -> Matrix {
    let data: Vec<u64> = vals.into_iter().map(|v| v.to_bits()).collect();
    Matrix::init(h, w, data)
}

// Binary round-trip at full precision for a matrix, the transposed-flag
// state kept.
#[test]
fn matrix_round_trip() {
    let mut m = mtx(2, 3, vec![0.1, 1.3, 0.5, 12.0, 1.01, -1000.0]);
    m.transpose_inplace();

    let bytes = matrix_to_binary(&m);
    let (back, end) = binary_to_matrix(&bytes, 0).unwrap();

    assert_eq!(end, bytes.len());
    assert_eq!(back.height, m.height);
    assert_eq!(back.width, m.width);
    assert_eq!(back.transposed, m.transposed);
    assert!(back.is_equal(&m, 10));
    for i in 0..6 {
        assert_eq!(back.get_1d(i), m.get_1d(i));
    }
}

#[test]
fn layer_round_trip() {
    let layer = Layer::init_with_data(
        mtx(2, 2, vec![0.5, -0.25, 1.5, 0.75]),
        mtx(1, 2, vec![0.1, -0.2]),
        true,
    );

    let bytes = layer_to_binary(&layer);
    let (back, end) = binary_to_layer(&bytes, 0).unwrap();

    assert_eq!(end, bytes.len());
    assert_eq!(back.activation, layer.activation);
    assert!(back.weights_t.is_equal(&layer.weights_t, 10));
    assert!(back.biases.is_equal(&layer.biases, 10));
    assert!(back.first_moment_weight.is_none());
    assert!(back.output.height == 0);
}

// A saved model loads back with the same lambda and the same per-layer
// weights and biases; the optimizer is not persisted and defaults back to
// plain gradient descent.
#[test]
fn succesful_model_save_and_load() {
    let layer1 = Layer::init_with_data(
        mtx(2, 3, vec![0.1, 1.3, 0.5, 12.0, 1.01, -1000.0]),
        mtx(1, 3, vec![0.0, 0.5, -0.5]),
        true,
    );
    let layer2 = Layer::init_with_data(
        mtx(3, 1, vec![1.0, 2.0, 3.0]),
        mtx(1, 1, vec![-1.0]),
        false,
    );
    let lambda: f64 = 0.012;
    let model = Model::init(
        vec![layer1, layer2],
        Optimizer::SGD { learning_step: b(0.01) },
        b(lambda),
    );

    // the same bytes a save would write: header plus body
    let mut byte_stream = model_to_binary(&model);
    let mut file = add_header(byte_stream.len() as u64);
    file.append(&mut byte_stream);

    check_header(&file).unwrap();
    let loaded_model = binary_to_model(&file, 15).unwrap();

    assert_eq!(model.lambda, loaded_model.lambda, "Models lambdas are not the same");
    assert_eq!(
        model.layers.len(),
        loaded_model.layers.len(),
        "Models do not have the same number of layers"
    );
    for i in 0..model.layers.len() {
        assert!(
            model.layers[i].weights_t.is_equal(&loaded_model.layers[i].weights_t, 10),
            "Layer {} weights are different in the two models",
            i
        );
        assert!(
            model.layers[i].biases.is_equal(&loaded_model.layers[i].biases, 10),
            "Layer {} biases are different in the two models",
            i
        );
    }
    match loaded_model.optimizer {
        Optimizer::SGD { learning_step } => assert_eq!(learning_step, b(0.01)),
        _ => panic!("a loaded model should carry the default optimizer"),
    }
}

// Malformed binary input always yields a decode error, never a panic.
#[test]
fn malformed_inputs_yield_errors() {
    let m = mtx(1, 2, vec![1.0, 2.0]);
    let good = matrix_to_binary(&m);

    // wrong object magic
    let mut wrong_magic = good.clone();
    wrong_magic[0] = 88;
    assert!(matches!(
        binary_to_matrix(&wrong_magic, 0),
        Err(ModelManagementError::CouldNotDecodeBinary(_))
    ));

    // wrong tag
    let mut wrong_tag = good.clone();
    wrong_tag[3] = 9;
    assert!(matches!(
        binary_to_matrix(&wrong_tag, 0),
        Err(ModelManagementError::CouldNotDecodeBinary(_))
    ));

    // truncated buffer
    let mut truncated = good.clone();
    truncated.truncate(good.len() - 5);
    assert!(matches!(
        binary_to_matrix(&truncated, 0),
        Err(ModelManagementError::CouldNotDecodeBinary(_))
    ));

    // trailing garbage that is not another object
    let mut trailing = good.clone();
    trailing.push(0);
    trailing.push(0);
    trailing.push(0);
    assert!(matches!(
        binary_to_matrix(&trailing, 0),
        Err(ModelManagementError::CouldNotDecodeBinary(_))
    ));

    // empty stream
    assert!(matches!(
        binary_to_matrix(&Vec::new(), 0),
        Err(ModelManagementError::CouldNotDecodeBinary(_))
    ));

    assert!(matches!(
        binary_to_layer(&wrong_magic, 0),
        Err(ModelManagementError::CouldNotDecodeBinary(_))
    ));
    assert!(matches!(
        binary_to_model(&wrong_magic, 0),
        Err(ModelManagementError::CouldNotDecodeBinary(_))
    ));
}

#[test]
fn malformed_headers_yield_errors() {
    let model = Model::init(
        vec![Layer::init_with_data(mtx(1, 1, vec![1.0]), mtx(1, 1, vec![0.0]), false)],
        Optimizer::SGD { learning_step: b(0.01) },
        b(0.001),
    );
    let mut body = model_to_binary(&model);
    let mut file = add_header(body.len() as u64);
    file.append(&mut body);

    // wrong file magic
    let mut wrong_magic = file.clone();
    wrong_magic[0] = 1;
    assert!(check_header(&wrong_magic).is_err());

    // wrong version
    let mut wrong_version = file.clone();
    wrong_version[6] = 77;
    assert!(check_header(&wrong_version).is_err());

    // declared length disagrees with the stream
    let mut extended = file.clone();
    extended.push(0);
    assert!(check_header(&extended).is_err());

    // too short for a header at all
    assert!(check_header(&vec![67, 79, 79]).is_err());

    // the untouched stream passes
    assert!(check_header(&file).is_ok());
}

#[test]
fn header_layout() {
    let header = add_header(10);
    assert_eq!(header.len(), 15);
    assert_eq!(&header[0..6], &[67, 79, 79, 75, 73, 69]);
    assert_eq!(header[6], 2);
    assert_eq!(header[14], 25);
}

#[test]
fn lookup_table_tags() {
    let table = LookupStructBinaryId::init();
    assert_eq!(table.lookup("Matrix"), 0);
    let table = LookupStructBinaryId::init();
    assert_eq!(table.lookup("Layer"), 1);
    let table = LookupStructBinaryId::init();
    assert_eq!(table.lookup("Model"), 2);
}
