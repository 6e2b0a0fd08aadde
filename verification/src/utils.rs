//! Index shuffling, batching, and the byte-level checks and conversions for
//! the labeled-dataset files the engine consumes.

use vstd::prelude::*;

use crate::arith::{ffrom_uint, uint_bits};
use crate::matrix::Matrix;

verus! {

/// Relies on rand's `SliceRandom::shuffle` with a thread-local generator to
/// reorder the vector in place.  Nothing is assumed of the order that comes
/// back, only that it is a rearrangement: the multiset of elements is
/// unchanged.
#[verifier::external_body]
fn shuffle_indices(v: &mut Vec<u32>)
    ensures
        final(v)@.len() == old(v)@.len(),
        final(v)@.to_multiset() == old(v)@.to_multiset(),
{
    let mut rng = rand::thread_rng();
    rand::seq::SliceRandom::shuffle(v.as_mut_slice(), &mut rng);
}

/// The indices `0 .. size` in a uniformly random order: a permutation of
/// `0 .. size`.
pub fn generate_vec_rand_unique(size: u32) -> (r: Vec<u32>)
    ensures
        r.len() == size,
        r@.to_multiset() == Seq::new(size as nat, |i: int| i as u32).to_multiset(),
{
    let mut output: Vec<u32> = Vec::new();
    let mut i: u32 = 0;
    while i < size
        invariant
            i <= size,
            output@ == Seq::new(i as nat, |j: int| j as u32),
        decreases size - i,
    {
        output.push(i);
        proof {
            assert(output@ =~= Seq::new((i + 1) as nat, |j: int| j as u32));
        }
        i = i + 1;
    }
    shuffle_indices(&mut output);
    output
}

/// Partition the index table into contiguous batches of `batch_size`; the
/// final batch may be short, and no empty batch is produced.
pub fn generate_batch_index(index_table: &Vec<u32>, batch_size: u32) -> (r: Vec<Vec<u32>>)
    requires
        index_table.len() >= batch_size,
        batch_size > 0,
    ensures
        r.len() >= 1,
        (r.len() - 1) * (batch_size as int) < index_table.len(),
        index_table.len() <= r.len() * (batch_size as int),
        forall|b: int|
            0 <= b < r.len() ==> (#[trigger] r[b]).len() == if (b + 1) * (batch_size as int)
                <= index_table.len() {
                batch_size as int
            } else {
                index_table.len() - b * (batch_size as int)
            },
        forall|b: int, j: int|
            0 <= b < r.len() && 0 <= j < r[b].len() ==> #[trigger] r[b][j] == index_table[b * (
            batch_size as int) + j],
{
    let bs: usize = batch_size as usize;
    let n: usize = index_table.len();
    let mut output: Vec<Vec<u32>> = Vec::new();
    let mut start: usize = 0;
    while start < n
        invariant
            bs == batch_size as int,
            bs > 0,
            n == index_table.len(),
            start <= n,
            start == output.len() * bs || (start == n && output.len() >= 1 && (output.len() - 1)
                * (bs as int) < n && n <= output.len() * (bs as int)),
            forall|b: int|
                0 <= b < output.len() ==> (#[trigger] output[b]).len() == if (b + 1) * (bs as int)
                    <= n {
                    bs as int
                } else {
                    n - b * (bs as int)
                },
            forall|b: int, j: int|
                0 <= b < output.len() && 0 <= j < output[b].len() ==> #[trigger] output[b][j]
                    == index_table[b * (bs as int) + j],
        decreases n - start,
    {
        let take: usize = if n - start < bs {
            n - start
        } else {
            bs
        };
        let mut batch: Vec<u32> = Vec::new();
        let mut j: usize = 0;
        while j < take
            invariant
                n == index_table.len(),
                start + take <= n,
                j <= take,
                batch.len() == j,
                forall|j2: int| 0 <= j2 < j ==> #[trigger] batch[j2] == index_table[start + j2],
            decreases take - j,
        {
            batch.push(index_table[start + j]);
            j = j + 1;
        }
        let ghost b = output.len() as int;
        output.push(batch);
        proof {
            assert((b + 1) * (bs as int) == b * (bs as int) + bs) by (nonlinear_arith);
            assert(b * (bs as int) == (b + 1) * (bs as int) - bs) by (nonlinear_arith);
        }
        start = start + take;
    }
    proof {
        let b = output.len() as int;
        if start == b * (bs as int) {
            assert(b >= 1) by {
                if b == 0 {
                    assert(0 * (bs as int) == 0) by (nonlinear_arith);
                }
            }
            assert((b - 1) * (bs as int) == b * (bs as int) - bs) by (nonlinear_arith);
        }
    }
    output
}

/// The big-endian 32-bit value held in exactly four bytes.
pub fn convert_4_bytes_to_u32_big_endian(bytes: Vec<u8>) -> (r: u32)
    requires
        bytes.len() == 4,
    ensures
        r == (bytes[0] as int) * 0x100_0000 + (bytes[1] as int) * 0x1_0000 + (bytes[2] as int)
            * 0x100 + (bytes[3] as int),
{
    (bytes[0] as u32) * 0x100_0000 + (bytes[1] as u32) * 0x1_0000 + (bytes[2] as u32) * 0x100 + (
    bytes[3] as u32)
}

/// The dataset's label file is well formed: its magic, then a count that
/// matches the payload.
pub open spec fn label_file_ok(s: Seq<u8>) -> bool {
    &&& s.len() >= 8
    &&& s[0] == 0 && s[1] == 0 && s[2] == 8 && s[3] == 1
    &&& (s[4] as int) * 0x100_0000 + (s[5] as int) * 0x1_0000 + (s[6] as int) * 0x100 + (
    s[7] as int) == s.len() - 8
}

/// Check the label file's magic and count.
pub fn check_label_file_header(array: &Vec<u8>) -> (r: bool)
    ensures
        r == label_file_ok(array@),
{
    if array.len() < 8 {
        return false;
    }
    if array[0] != 0 || array[1] != 0 || array[2] != 8 || array[3] != 1 {
        return false;
    }
    let declared: u32 = (array[4] as u32) * 0x100_0000 + (array[5] as u32) * 0x1_0000 + (
    array[6] as u32) * 0x100 + (array[7] as u32);
    array.len() - 8 == declared as usize
}

/// The dataset's image file is well formed: its magic, then three
/// dimensions whose product matches the payload.
pub open spec fn image_file_ok(s: Seq<u8>) -> bool {
    &&& s.len() >= 16
    &&& s[0] == 0 && s[1] == 0 && s[2] == 8 && s[3] == 3
    &&& image_count(s) * image_rows(s) * image_cols(s) == s.len() - 16
}

pub open spec fn image_count(s: Seq<u8>) -> int {
    (s[4] as int) * 0x100_0000 + (s[5] as int) * 0x1_0000 + (s[6] as int) * 0x100 + (s[7] as int)
}

pub open spec fn image_rows(s: Seq<u8>) -> int {
    (s[8] as int) * 0x100_0000 + (s[9] as int) * 0x1_0000 + (s[10] as int) * 0x100 + (
    s[11] as int)
}

pub open spec fn image_cols(s: Seq<u8>) -> int {
    (s[12] as int) * 0x100_0000 + (s[13] as int) * 0x1_0000 + (s[14] as int) * 0x100 + (
    s[15] as int)
}

/// Check the image file's magic and that the three dimensions account for
/// the payload.
pub fn check_image_file_header(array: &Vec<u8>) -> (r: bool)
    ensures
        r == image_file_ok(array@),
{
    if array.len() < 16 {
        return false;
    }
    if array[0] != 0 || array[1] != 0 || array[2] != 8 || array[3] != 3 {
        return false;
    }
    let count: u64 = ((array[4] as u64) * 0x100_0000 + (array[5] as u64) * 0x1_0000 + (
    array[6] as u64) * 0x100 + (array[7] as u64));
    let rows: u64 = ((array[8] as u64) * 0x100_0000 + (array[9] as u64) * 0x1_0000 + (
    array[10] as u64) * 0x100 + (array[11] as u64));
    let cols: u64 = ((array[12] as u64) * 0x100_0000 + (array[13] as u64) * 0x1_0000 + (
    array[14] as u64) * 0x100 + (array[15] as u64));
    proof {
        let a = count as int;
        let b = rows as int;
        let c2 = cols as int;
        assert(a * b < 0x1_0000_0000_0000_0000) by (nonlinear_arith)
            requires
                0 <= a < 0x1_0000_0000,
                0 <= b < 0x1_0000_0000,
        ;
        assert(a * b * c2 < 0x1_0000_0000_0000_0000_0000_0000) by (nonlinear_arith)
            requires
                0 <= a * b < 0x1_0000_0000_0000_0000,
                0 <= c2 < 0x1_0000_0000,
        ;
    }
    let product: u128 = (count as u128) * (rows as u128) * (cols as u128);
    product == (array.len() - 16) as u128
}

/// The payload of a label file as a 1-row matrix of binary64 class indices.
/// The caller reads the file; this converts its bytes.
pub fn extract_labels(bytes: &Vec<u8>) -> (r: Matrix)
    requires
        label_file_ok(bytes@),
    ensures
        r.wf(),
        r.height == 1,
        r.width == bytes.len() - 8,
        !r.transposed,
        forall|i: int|
            0 <= i < bytes.len() - 8 ==> r.data[i] == ffrom_uint(bytes[8 + i] as u64),
{
    let n: usize = bytes.len() - 8;
    proof {
        assert(1 * (n as int) == n as int) by (nonlinear_arith);
    }
    let mut output: Matrix = Matrix::init_zero(1, n);
    let mut i: usize = 0;
    while i < n
        invariant
            n == bytes.len() - 8,
            output.wf(),
            output.height == 1,
            output.width == n,
            !output.transposed,
            output.data.len() == n,
            i <= n,
            forall|j: int| 0 <= j < i ==> output.data[j] == ffrom_uint(bytes[8 + j] as u64),
        decreases n - i,
    {
        let v: u64 = uint_bits(bytes[8 + i] as u64);
        output.set_1d(v, i);
        i = i + 1;
    }
    output
}

/// The payload of an image file as one matrix row per image, each pixel a
/// binary64 intensity.  The caller reads the file; this converts its bytes.
pub fn extract_images(bytes: &Vec<u8>) -> (r: Matrix)
    requires
        image_file_ok(bytes@),
        image_rows(bytes@) * image_cols(bytes@) <= usize::MAX,
    ensures
        r.wf(),
        r.height == image_count(bytes@),
        r.width == image_rows(bytes@) * image_cols(bytes@),
        !r.transposed,
        forall|i: int|
            0 <= i < bytes.len() - 16 ==> r.data[i] == ffrom_uint(bytes[16 + i] as u64),
{
    let count: usize = convert_4_bytes_to_u32_big_endian(
        slice_4(bytes, 4),
    ) as usize;
    let rows: usize = convert_4_bytes_to_u32_big_endian(slice_4(bytes, 8)) as usize;
    let cols: usize = convert_4_bytes_to_u32_big_endian(slice_4(bytes, 12)) as usize;
    let pixels: usize = rows * cols;
    proof {
        let cc = count as int;
        let rr = rows as int;
        let ww = cols as int;
        assert(cc * (rr * ww) == cc * rr * ww) by (nonlinear_arith);
    }
    let mut output: Matrix = Matrix::init_zero(count, pixels);
    let n: usize = bytes.len() - 16;
    let mut i: usize = 0;
    while i < n
        invariant
            n == bytes.len() - 16,
            output.wf(),
            output.height == count,
            output.width == pixels,
            !output.transposed,
            output.data.len() == n,
            i <= n,
            forall|j: int| 0 <= j < i ==> output.data[j] == ffrom_uint(bytes[16 + j] as u64),
        decreases n - i,
    {
        let v: u64 = uint_bits(bytes[16 + i] as u64);
        output.set_1d(v, i);
        i = i + 1;
    }
    output
}

/// Four consecutive bytes as a fresh vector.
fn slice_4(bytes: &Vec<u8>, at: usize) -> (r: Vec<u8>)
    requires
        at + 4 <= bytes.len(),
    ensures
        r.len() == 4,
        r[0] == bytes[at as int],
        r[1] == bytes[at as int + 1],
        r[2] == bytes[at as int + 2],
        r[3] == bytes[at as int + 3],
{
    let mut out: Vec<u8> = Vec::new();
    out.push(bytes[at]);
    out.push(bytes[at + 1]);
    out.push(bytes[at + 2]);
    out.push(bytes[at + 3]);
    out
}

} // verus!
