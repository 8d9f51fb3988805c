use flate2::write::GzEncoder;
use flate2::Compression;
use softmax_regression::arithmetic::{Arithmetic, Primitives};
use softmax_regression::binary32::Binary32;
use softmax_regression::dataset::{
    is_well_formed, load_from_binary, load_from_gzip, load_inflated, one_hot_encode, DATASET_BYTES,
    TEST_SIZE, TEST_X_OFFSET, TEST_Y_OFFSET, TRAIN_SIZE, TRAIN_Y_OFFSET, X_ENTRY_SIZE,
};
use softmax_regression::failure::Failure;
use softmax_regression::types::vector::Vector;
use std::io::Write;

fn dec(x: Binary32) -> f32 {
    f32::from_bits(x)
}

fn enc(x: f32) -> Binary32 {
    x.to_bits()
}

fn host() -> impl Arithmetic {
    Primitives::new(
        |a: Binary32, b: Binary32| enc(dec(a) + dec(b)),
        |a: Binary32, b: Binary32| enc(dec(a) - dec(b)),
        |a: Binary32, b: Binary32| enc(dec(a) * dec(b)),
        |a: Binary32, b: Binary32| enc(dec(a) / dec(b)),
        |a: Binary32| enc(dec(a).exp()),
        |a: Binary32| enc(dec(a).ln()),
        |n: usize| enc(n as f32),
    )
}

fn floats(v: &Vector) -> Vec<f32> {
    v.to_vec().iter().map(|&b| dec(b)).collect()
}

/// A data set whose pixels and labels follow from their positions.
fn synthetic() -> Vec<u8> {
    let mut bytes = vec![0u8; DATASET_BYTES];
    for i in 0..TRAIN_SIZE {
        bytes[i * X_ENTRY_SIZE] = (i % 256) as u8;
        bytes[i * X_ENTRY_SIZE + X_ENTRY_SIZE - 1] = 255;
        bytes[TRAIN_Y_OFFSET + i] = (i % 10) as u8;
    }
    for i in 0..TEST_SIZE {
        bytes[TEST_X_OFFSET + i * X_ENTRY_SIZE] = ((i + 7) % 256) as u8;
        bytes[TEST_X_OFFSET + i * X_ENTRY_SIZE + 1] = 51;
        bytes[TEST_Y_OFFSET + i] = ((i + 3) % 10) as u8;
    }
    bytes
}

fn gzip(bytes: &[u8]) -> Vec<u8> {
    let mut encoder = GzEncoder::new(Vec::new(), Compression::fast());
    encoder.write_all(bytes).unwrap();
    encoder.finish().unwrap()
}

fn check_synthetic(d: &(Vec<Vector>, Vec<Vector>, Vec<Vector>, Vec<Vector>)) {
    let (train_x, train_y, test_x, test_y) = d;
    assert_eq!(train_x.len(), 60000);
    assert_eq!(train_y.len(), 60000);
    assert_eq!(test_x.len(), 10000);
    assert_eq!(test_y.len(), 10000);
    for &i in [0usize, 1, 2, 255, 256, 31337, 59999].iter() {
        let image = floats(&train_x[i]);
        assert_eq!(image.len(), 784);
        assert_eq!(image[0], (i % 256) as u8 as f32 / 255.0);
        assert_eq!(image[1], 0.0);
        assert_eq!(image[783], 1.0);
        let target = floats(&train_y[i]);
        assert_eq!(target.len(), 10);
        for k in 0..10 {
            assert_eq!(target[k], if k == i % 10 { 1.0 } else { 0.0 });
        }
        assert_eq!(train_y[i].argmax(), i % 10);
    }
    for &i in [0usize, 1, 249, 9999].iter() {
        let image = floats(&test_x[i]);
        assert_eq!(image.len(), 784);
        assert_eq!(image[0], ((i + 7) % 256) as u8 as f32 / 255.0);
        assert_eq!(image[1], 0.2);
        assert_eq!(image[783], 0.0);
        assert_eq!(test_y[i].argmax(), (i + 3) % 10);
        assert_eq!(test_y[i].len(), 10);
    }
}

#[test]
fn layout_of_the_blocks() {
    assert_eq!(TRAIN_SIZE, 60000);
    assert_eq!(X_ENTRY_SIZE, 784);
    assert_eq!(TEST_SIZE, 10000);
    assert_eq!(TRAIN_Y_OFFSET, 60000 * 784);
    assert_eq!(TEST_X_OFFSET, 60000 * 784 + 60000);
    assert_eq!(TEST_Y_OFFSET, 60000 * 784 + 60000 + 10000 * 784);
    assert_eq!(DATASET_BYTES, 60000 * 784 + 60000 + 10000 * 784 + 10000);
}

#[test]
fn one_hot_targets() {
    assert_eq!(floats(&one_hot_encode(0)), vec![1.0, 0.0, 0.0, 0.0, 0.0, 0.0, 0.0, 0.0, 0.0, 0.0]);
    assert_eq!(floats(&one_hot_encode(3)), vec![0.0, 0.0, 0.0, 1.0, 0.0, 0.0, 0.0, 0.0, 0.0, 0.0]);
    assert_eq!(floats(&one_hot_encode(9)), vec![0.0, 0.0, 0.0, 0.0, 0.0, 0.0, 0.0, 0.0, 0.0, 1.0]);
}

#[test]
fn binary_data_set_is_decoded_block_by_block() {
    let ops = host();
    let bytes = synthetic();
    assert!(is_well_formed(&bytes));
    let d = load_from_binary(bytes, &ops);
    check_synthetic(&d);
}

#[test]
fn bytes_after_the_last_block_are_passed_over() {
    let ops = host();
    let mut bytes = synthetic();
    bytes.extend_from_slice(&[200, 201, 202]);
    assert!(is_well_formed(&bytes));
    let d = load_inflated(Some(bytes), &ops).unwrap();
    check_synthetic(&d);
}

#[test]
fn short_data_holds_no_data_set() {
    let ops = host();
    let mut bytes = synthetic();
    bytes.pop();
    assert!(!is_well_formed(&bytes));
    assert_eq!(load_inflated(Some(bytes), &ops).err(), Some(Failure::IndexOutOfRange));
    assert!(!is_well_formed(&vec![]));
    assert_eq!(load_inflated(Some(vec![]), &ops).err(), Some(Failure::IndexOutOfRange));
}

#[test]
fn a_label_beyond_the_classes_holds_no_data_set() {
    let ops = host();
    let mut bytes = synthetic();
    bytes[TRAIN_Y_OFFSET + 59999] = 10;
    assert!(!is_well_formed(&bytes));
    bytes[TRAIN_Y_OFFSET + 59999] = 9;
    assert!(is_well_formed(&bytes));
    bytes[TEST_Y_OFFSET] = 255;
    assert!(!is_well_formed(&bytes));
    assert_eq!(load_inflated(Some(bytes), &ops).err(), Some(Failure::IndexOutOfRange));
}

#[test]
fn failed_decompression_is_an_io_failure() {
    let ops = host();
    assert_eq!(load_inflated(None, &ops).err(), Some(Failure::IOFailure));
}

#[test]
fn gzip_data_set_is_decompressed_and_decoded() {
    let ops = host();
    let compressed = gzip(&synthetic());
    assert!(compressed.len() < DATASET_BYTES);
    let d = load_from_gzip(&compressed, &ops).unwrap();
    check_synthetic(&d);
}

#[test]
fn gzip_of_short_data_holds_no_data_set() {
    let ops = host();
    let compressed = gzip(&[1, 2, 3, 4]);
    assert_eq!(load_from_gzip(&compressed, &ops).err(), Some(Failure::IndexOutOfRange));
    let empty = gzip(&[]);
    assert_eq!(load_from_gzip(&empty, &ops).err(), Some(Failure::IndexOutOfRange));
}

#[test]
fn bytes_that_are_no_gzip_stream_fail() {
    let ops = host();
    assert_eq!(load_from_gzip(&vec![], &ops).err(), Some(Failure::IOFailure));
    assert_eq!(load_from_gzip(&vec![1, 2, 3, 4, 5, 6, 7, 8, 9, 10, 11, 12], &ops).err(), Some(Failure::IOFailure));
    assert_eq!(load_from_gzip(&synthetic(), &ops).err(), Some(Failure::IOFailure));
}

#[test]
fn a_damaged_gzip_stream_fails() {
    let ops = host();
    let whole = gzip(&[7u8; 4096]);
    let mut cut = whole.clone();
    cut.truncate(whole.len() - 5);
    assert_eq!(load_from_gzip(&cut, &ops).err(), Some(Failure::IOFailure));
    let mut wrong_checksum = whole.clone();
    let at = whole.len() - 8;
    wrong_checksum[at] ^= 0xff;
    assert_eq!(load_from_gzip(&wrong_checksum, &ops).err(), Some(Failure::IOFailure));
    assert_eq!(load_from_gzip(&whole, &ops).err(), Some(Failure::IndexOutOfRange));
}
