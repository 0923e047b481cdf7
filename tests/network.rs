use mnist_ai_rust::evaluation::EpochTally;
use mnist_ai_rust::network::{Layer, NetworkError, Shape};

fn reference_shape() -> Shape {
    Shape {
        input: 784,
        hidden1: 16,
        hidden2: 16,
        output: 10,
    }
}

#[test]
fn image_of_input_size_is_accepted() {
    assert_eq!(reference_shape().check_image(784), Ok(()));
}

#[test]
fn image_of_other_size_is_rejected() {
    assert_eq!(
        reference_shape().check_image(783),
        Err(NetworkError::InvalidInputShape {
            expected: 784,
            found: 783
        })
    );
    assert_eq!(
        reference_shape().check_image(0),
        Err(NetworkError::InvalidInputShape {
            expected: 784,
            found: 0
        })
    );
}

#[test]
fn label_in_range_gives_its_index() {
    assert_eq!(reference_shape().check_label(0), Ok(0));
    assert_eq!(reference_shape().check_label(9), Ok(9));
}

#[test]
fn label_out_of_range_is_rejected() {
    assert_eq!(
        reference_shape().check_label(10),
        Err(NetworkError::InvalidLabel {
            label: 10,
            classes: 10
        })
    );
}

#[test]
fn desired_output_is_one_hot() {
    let desired = reference_shape().desired_output(3).unwrap();
    assert_eq!(desired.len(), 10);
    for (i, d) in desired.iter().enumerate() {
        assert_eq!(*d, i == 3);
    }
}

#[test]
fn desired_output_for_two_classes() {
    let shape = Shape {
        input: 2,
        hidden1: 2,
        hidden2: 2,
        output: 2,
    };
    assert_eq!(shape.desired_output(1), Ok(vec![false, true]));
    assert_eq!(
        shape.desired_output(2),
        Err(NetworkError::InvalidLabel {
            label: 2,
            classes: 2
        })
    );
}

#[test]
fn layer_sizes_and_fan_ins() {
    let shape = Shape {
        input: 4,
        hidden1: 3,
        hidden2: 2,
        output: 1,
    };
    assert_eq!(shape.size(Layer::Hidden1), 3);
    assert_eq!(shape.fan_in(Layer::Hidden1), 4);
    assert_eq!(shape.size(Layer::Hidden2), 2);
    assert_eq!(shape.fan_in(Layer::Hidden2), 3);
    assert_eq!(shape.size(Layer::Output), 1);
    assert_eq!(shape.fan_in(Layer::Output), 2);
}

#[test]
fn stored_layer_that_fits_is_accepted() {
    let shape = reference_shape();
    assert_eq!(shape.check_layout(Layer::Hidden1, &vec![784; 16]), Ok(()));
    assert_eq!(shape.check_layout(Layer::Hidden2, &vec![16; 16]), Ok(()));
    assert_eq!(shape.check_layout(Layer::Output, &vec![16; 10]), Ok(()));
}

#[test]
fn stored_layer_with_wrong_neuron_count_is_rejected() {
    assert_eq!(
        reference_shape().check_layout(Layer::Output, &vec![16; 9]),
        Err(NetworkError::LayoutMismatch {
            layer: Layer::Output
        })
    );
}

#[test]
fn stored_neuron_with_wrong_weight_count_is_rejected() {
    let mut fan_ins = vec![16; 16];
    fan_ins[7] = 15;
    assert_eq!(
        reference_shape().check_layout(Layer::Hidden2, &fan_ins),
        Err(NetworkError::LayoutMismatch {
            layer: Layer::Hidden2
        })
    );
}

#[test]
fn tally_counts_samples_and_hits() {
    let mut tally = EpochTally::new();
    assert_eq!((tally.correct(), tally.samples()), (0, 0));
    tally.record(Some(3), 3);
    tally.record(Some(2), 3);
    tally.record(None, 0);
    tally.record(Some(0), 0);
    assert_eq!(tally.correct(), 2);
    assert_eq!(tally.samples(), 4);
}
