//! The data set of handwritten digits: its layout in memory, and its
//! decoding into feature and target vectors.
//!
//! The bytes hold, one block after the other: the training images, one byte
//! for each pixel; the training labels, one byte each; the test images; the
//! test labels.

use std::io::Read;
use vstd::prelude::*;
use crate::arithmetic::Arithmetic;
use crate::binary32::{Binary32, FULL_SCALE, ONE, ZERO};
use crate::failure::Failure;
use crate::types::vector::Vector;

verus! {

/// Training features, training targets, test features, test targets.
pub type Dataset = (Vec<Vector>, Vec<Vector>, Vec<Vector>, Vec<Vector>);

/// The number of training examples.
pub const TRAIN_SIZE: usize = 60000;

/// The number of pixels of an image.
pub const X_ENTRY_SIZE: usize = 784;

/// The number of test examples.
pub const TEST_SIZE: usize = 10000;

/// The number of classes that a label tells apart.
pub const LABELS: usize = 10;

/// Where the training labels start.
pub const TRAIN_Y_OFFSET: usize = 47_040_000;

/// Where the test images start.
pub const TEST_X_OFFSET: usize = 47_100_000;

/// Where the test labels start.
pub const TEST_Y_OFFSET: usize = 54_940_000;

/// The number of bytes that the four blocks take.
pub const DATASET_BYTES: usize = 54_950_000;

/// The blocks follow each other without a gap.
pub proof fn lemma_layout()
    ensures
        TRAIN_Y_OFFSET == TRAIN_SIZE * X_ENTRY_SIZE,
        TEST_X_OFFSET == TRAIN_Y_OFFSET + TRAIN_SIZE,
        TEST_Y_OFFSET == TEST_X_OFFSET + TEST_SIZE * X_ENTRY_SIZE,
        DATASET_BYTES == TEST_Y_OFFSET + TEST_SIZE,
{
}

/// The target of class `label`: one where the class is, zero elsewhere.
pub open spec fn one_hot(label: u8) -> Seq<Binary32> {
    Seq::new(
        LABELS as nat,
        |i: int|
            if i == label {
                ONE
            } else {
                ZERO
            },
    )
}

/// `r` may be the brightness of the pixel `b`: `b` over 255.
pub open spec fn is_pixel<O: Arithmetic>(ops: &O, b: u8, r: Binary32) -> bool {
    exists|level: Binary32|
        #![trigger ops.is_quotient(level, FULL_SCALE, r)]
        ops.is_conversion(b as usize, level) && ops.is_quotient(level, FULL_SCALE, r)
}

/// `v` may be the image whose pixels start at `bytes[start]`.
pub open spec fn is_image<O: Arithmetic>(ops: &O, bytes: Seq<u8>, start: int, v: Seq<Binary32>) -> bool {
    &&& v.len() == X_ENTRY_SIZE
    &&& forall|j: int| 0 <= j < X_ENTRY_SIZE ==> is_pixel(ops, bytes[start + j], #[trigger] v[j])
}

/// `images` may be the `count` images whose pixels start at `bytes[start]`.
pub open spec fn are_images<O: Arithmetic>(
    ops: &O,
    bytes: Seq<u8>,
    start: int,
    count: nat,
    images: Seq<Vector>,
) -> bool {
    &&& images.len() == count
    &&& forall|i: int|
        0 <= i < count ==> is_image(ops, bytes, start + i * X_ENTRY_SIZE, (#[trigger] images[i])@)
}

/// `targets` are the targets of the `count` labels that start at
/// `bytes[start]`.
pub open spec fn are_targets(bytes: Seq<u8>, start: int, count: nat, targets: Seq<Vector>) -> bool {
    &&& targets.len() == count
    &&& forall|i: int| 0 <= i < count ==> (#[trigger] targets[i])@ == one_hot(bytes[start + i])
}

/// Each of the `count` labels that start at `bytes[start]` names a class.
pub open spec fn labels_in_range(bytes: Seq<u8>, start: int, count: nat) -> bool {
    forall|i: int| 0 <= i < count ==> #[trigger] bytes[start + i] < LABELS
}

/// `bytes` hold a data set: they reach to the end of the last block, and
/// every label names a class.
pub open spec fn holds_dataset(bytes: Seq<u8>) -> bool {
    &&& bytes.len() >= DATASET_BYTES
    &&& labels_in_range(bytes, TRAIN_Y_OFFSET as int, TRAIN_SIZE as nat)
    &&& labels_in_range(bytes, TEST_Y_OFFSET as int, TEST_SIZE as nat)
}

/// `d` may be the data set that `bytes` hold.
pub open spec fn is_dataset<O: Arithmetic>(ops: &O, bytes: Seq<u8>, d: Dataset) -> bool {
    &&& are_images(ops, bytes, 0, TRAIN_SIZE as nat, d.0@)
    &&& are_targets(bytes, TRAIN_Y_OFFSET as int, TRAIN_SIZE as nat, d.1@)
    &&& are_images(ops, bytes, TEST_X_OFFSET as int, TEST_SIZE as nat, d.2@)
    &&& are_targets(bytes, TEST_Y_OFFSET as int, TEST_SIZE as nat, d.3@)
}

/// The target vector of class `label`.
pub fn one_hot_encode(label: u8) -> (r: Vector)
    requires
        label < LABELS,
    ensures
        r@ == one_hot(label),
{
    let mut data = vec![ZERO; LABELS];
    data[label as usize] = ONE;
    Vector::from_data(data)
}

/// The images of one block.
fn decode_images<O: Arithmetic>(bytes: &Vec<u8>, start: usize, count: usize, ops: &O) -> (r: Vec<
    Vector,
>)
    requires
        start + count * X_ENTRY_SIZE <= bytes.len(),
    ensures
        are_images(ops, bytes@, start as int, count as nat, r@),
{
    let mut images: Vec<Vector> = Vec::with_capacity(count);
    let mut i: usize = 0;
    while i < count
        invariant
            start + count * X_ENTRY_SIZE <= bytes.len(),
            i <= count,
            are_images(ops, bytes@, start as int, i as nat, images@),
        decreases count - i,
    {
        assert(i * X_ENTRY_SIZE + X_ENTRY_SIZE <= count * X_ENTRY_SIZE) by (nonlinear_arith)
            requires
                i < count,
        ;
        let first = start + i * X_ENTRY_SIZE;
        let mut data: Vec<Binary32> = Vec::with_capacity(X_ENTRY_SIZE);
        let mut j: usize = 0;
        while j < X_ENTRY_SIZE
            invariant
                first + X_ENTRY_SIZE <= bytes.len(),
                j <= X_ENTRY_SIZE,
                data.len() == j,
                forall|k: int| 0 <= k < j ==> is_pixel(ops, bytes@[first + k], #[trigger] data@[k]),
            decreases X_ENTRY_SIZE - j,
        {
            let b = bytes[first + j];
            let level = ops.from_count(b as usize);
            let value = ops.div(level, FULL_SCALE);
            data.push(value);
            j += 1;
        }
        images.push(Vector::from_data(data));
        i += 1;
    }
    images
}

/// The targets of one block of labels.
fn decode_targets(bytes: &Vec<u8>, start: usize, count: usize) -> (r: Vec<Vector>)
    requires
        start + count <= bytes.len(),
        labels_in_range(bytes@, start as int, count as nat),
    ensures
        are_targets(bytes@, start as int, count as nat, r@),
{
    let mut targets: Vec<Vector> = Vec::with_capacity(count);
    let mut i: usize = 0;
    while i < count
        invariant
            start + count <= bytes.len(),
            labels_in_range(bytes@, start as int, count as nat),
            i <= count,
            are_targets(bytes@, start as int, i as nat, targets@),
        decreases count - i,
    {
        let label = bytes[start + i];
        targets.push(one_hot_encode(label));
        i += 1;
    }
    targets
}

/// The data set that `bytes` hold: each pixel as its brightness between zero
/// and one, each label as a target vector. Bytes after the last block are
/// passed over.
pub fn load_from_binary<O: Arithmetic>(bytes: Vec<u8>, ops: &O) -> (d: Dataset)
    requires
        holds_dataset(bytes@),
    ensures
        is_dataset(ops, bytes@, d),
{
    let train_x = decode_images(&bytes, 0, TRAIN_SIZE, ops);
    let train_y = decode_targets(&bytes, TRAIN_Y_OFFSET, TRAIN_SIZE);
    let test_x = decode_images(&bytes, TEST_X_OFFSET, TEST_SIZE, ops);
    let test_y = decode_targets(&bytes, TEST_Y_OFFSET, TEST_SIZE);
    (train_x, train_y, test_x, test_y)
}

/// Whether each of the `count` labels from `bytes[start]` on names a class.
fn check_labels(bytes: &Vec<u8>, start: usize, count: usize) -> (r: bool)
    requires
        start + count <= bytes.len(),
    ensures
        r == labels_in_range(bytes@, start as int, count as nat),
{
    let mut i: usize = 0;
    while i < count
        invariant
            start + count <= bytes.len(),
            i <= count,
            labels_in_range(bytes@, start as int, i as nat),
        decreases count - i,
    {
        if bytes[start + i] >= 10 {
            return false;
        }
        i += 1;
    }
    true
}

/// Whether `bytes` hold a data set.
pub fn is_well_formed(bytes: &Vec<u8>) -> (r: bool)
    ensures
        r == holds_dataset(bytes@),
{
    bytes.len() >= DATASET_BYTES && check_labels(bytes, TRAIN_Y_OFFSET, TRAIN_SIZE) && check_labels(
        bytes,
        TEST_Y_OFFSET,
        TEST_SIZE,
    )
}

/// What the first member of the gzip stream `compressed` holds, where that
/// member is intact.
pub uninterp spec fn gunzip(compressed: Seq<u8>) -> Option<Seq<u8>>;

/// `std::io::Error`, as a value that is handed on and never looked into.
#[verifier::external_type_specification]
#[verifier::external_body]
pub struct ExIoError(std::io::Error);

/// The contents of the first member of a gzip stream.
///
/// Reads `flate2::read::GzDecoder::new(compressed)` to its end with
/// `std::io::Read::read_to_end`. The decoder gives out what the member
/// holds and then checks its length and checksum; it fails on a header or a
/// body that is not a gzip member, and on one that is cut short. What comes
/// out depends on the bytes that went in and on nothing else.
#[verifier::external_body]
fn inflate(compressed: &Vec<u8>) -> (r: Result<Vec<u8>, std::io::Error>)
    ensures
        match r {
            Ok(bytes) => gunzip(compressed@) == Some(bytes@),
            Err(_) => gunzip(compressed@).is_none(),
        },
{
    let mut buffer = Vec::new();
    let mut decoder = flate2::read::GzDecoder::new(compressed.as_slice());
    decoder.read_to_end(&mut buffer)?;
    Ok(buffer)
}

/// Decodes what came out of the decompression: fails as the decompression
/// did, fails where the bytes hold no data set, and decodes them otherwise.
pub fn load_inflated<O: Arithmetic>(inflated: Option<Vec<u8>>, ops: &O) -> (r: Result<
    Dataset,
    Failure,
>)
    ensures
        match inflated {
            None => r == Err::<Dataset, Failure>(Failure::IOFailure),
            Some(bytes) => if holds_dataset(bytes@) {
                r is Ok && is_dataset(ops, bytes@, r->Ok_0)
            } else {
                r == Err::<Dataset, Failure>(Failure::IndexOutOfRange)
            },
        },
{
    match inflated {
        None => Err(Failure::IOFailure),
        Some(bytes) => {
            if is_well_formed(&bytes) {
                Ok(load_from_binary(bytes, ops))
            } else {
                Err(Failure::IndexOutOfRange)
            }
        },
    }
}

/// The data set in the gzip stream `compressed`. Fails where the stream
/// cannot be decompressed, and where what it holds is no data set.
pub fn load_from_gzip<O: Arithmetic>(compressed: &Vec<u8>, ops: &O) -> (r: Result<Dataset, Failure>)
    ensures
        match gunzip(compressed@) {
            None => r == Err::<Dataset, Failure>(Failure::IOFailure),
            Some(bytes) => if holds_dataset(bytes) {
                r is Ok && is_dataset(ops, bytes, r->Ok_0)
            } else {
                r == Err::<Dataset, Failure>(Failure::IndexOutOfRange)
            },
        },
{
    match inflate(compressed) {
        Ok(bytes) => load_inflated(Some(bytes), ops),
        Err(_) => load_inflated(None, ops),
    }
}

} // verus!
