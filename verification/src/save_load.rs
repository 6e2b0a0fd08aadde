//! The binary persistence format: a fixed 15-byte file header followed by a
//! sequence of self-describing tagged objects.
//!
//! Every multi-byte integer is big-endian.  A matrix entry travels as the 8
//! bytes of its binary64 bit pattern, so encoding and decoding are pure byte
//! logic here; reading and writing files is left to the caller.

use vstd::prelude::*;

use vstd::string::StringSliceAdditionalSpecFns;

use crate::layers::Layer;
use crate::matrix::Matrix;
use crate::model::Model;
use crate::optimizer::Optimizer;

verus! {

/// Format version carried in the file header.
pub const VERSION: u8 = 2;

/// Size of the file header in bytes.
pub const HEADER_SIZE: u64 = 15;

/// Learning step given to a freshly loaded model (bits of 0.01); the
/// optimizer is not persisted.
pub const DEFAULT_LOADED_STEP: u64 = 0x3f84_7ae1_47ae_147b;

pub const MATRIX_ID: u8 = 0;

pub const LAYER_ID: u8 = 1;

pub const MODEL_ID: u8 = 2;

/// The three bytes that precede every object.
pub open spec fn obj_magic() -> Seq<u8> {
    seq![67u8, 65u8, 84u8]
}

/// The six bytes that open every file.
pub open spec fn file_magic() -> Seq<u8> {
    seq![67u8, 79u8, 79u8, 75u8, 73u8, 69u8]
}

pub open spec fn bool_byte(b: bool) -> u8 {
    if b {
        1u8
    } else {
        0u8
    }
}

/// Byte `k` (0 is the most significant) of the big-endian encoding of `x`.
pub open spec fn byte_of(x: u64, k: int) -> u8 {
    if k == 0 {
        ((x / 0x100_0000_0000_0000) % 0x100) as u8
    } else if k == 1 {
        ((x / 0x1_0000_0000_0000) % 0x100) as u8
    } else if k == 2 {
        ((x / 0x100_0000_0000) % 0x100) as u8
    } else if k == 3 {
        ((x / 0x1_0000_0000) % 0x100) as u8
    } else if k == 4 {
        ((x / 0x100_0000) % 0x100) as u8
    } else if k == 5 {
        ((x / 0x1_0000) % 0x100) as u8
    } else if k == 6 {
        ((x / 0x100) % 0x100) as u8
    } else {
        (x % 0x100) as u8
    }
}

/// The eight bytes of `x`, big-endian.
pub open spec fn be8(x: u64) -> Seq<u8> {
    Seq::new(8, |k: int| byte_of(x, k))
}

/// The value read back from eight big-endian bytes.
pub open spec fn from_be8(s: Seq<u8>) -> u64 {
    ((s[0] as int) * 0x100_0000_0000_0000 + (s[1] as int) * 0x1_0000_0000_0000 + (s[2] as int)
        * 0x100_0000_0000 + (s[3] as int) * 0x1_0000_0000 + (s[4] as int) * 0x100_0000 + (
    s[5] as int) * 0x1_0000 + (s[6] as int) * 0x100 + (s[7] as int)) as u64
}

/// Reading back the encoding of `x` gives `x`.
pub proof fn lemma_be8_round(x: u64)
    ensures
        from_be8(be8(x)) == x,
{
    assert(from_be8(be8(x)) == x) by (bit_vector)
        requires
            from_be8(be8(x)) == ((((x / 0x100_0000_0000_0000) % 0x100) as int)
                * 0x100_0000_0000_0000 + (((x / 0x1_0000_0000_0000) % 0x100) as int)
                * 0x1_0000_0000_0000 + (((x / 0x100_0000_0000) % 0x100) as int) * 0x100_0000_0000
                + (((x / 0x1_0000_0000) % 0x100) as int) * 0x1_0000_0000 + (((x / 0x100_0000)
                % 0x100) as int) * 0x100_0000 + (((x / 0x1_0000) % 0x100) as int) * 0x1_0000 + (((
            x / 0x100) % 0x100) as int) * 0x100 + ((x % 0x100) as int)) as u64,
    ;
}

/// The flat buffer of a matrix as bytes: each entry big-endian, in order.
pub open spec fn data_bytes(d: Seq<u64>) -> Seq<u8>
    decreases d.len(),
{
    if d.len() == 0 {
        Seq::empty()
    } else {
        data_bytes(d.drop_last()) + be8(d.last())
    }
}

pub proof fn lemma_data_bytes_len(d: Seq<u64>)
    ensures
        data_bytes(d).len() == 8 * d.len(),
    decreases d.len(),
{
    if d.len() > 0 {
        lemma_data_bytes_len(d.drop_last());
    }
}

/// Entry `k` of the buffer sits at bytes `8k .. 8k + 8` of its encoding.
pub proof fn lemma_data_bytes_index(d: Seq<u64>, k: int)
    requires
        0 <= k < d.len(),
    ensures
        data_bytes(d).subrange(8 * k, 8 * k + 8) =~= be8(d[k]),
    decreases d.len(),
{
    lemma_data_bytes_len(d.drop_last());
    if k == d.len() - 1 {
    } else {
        lemma_data_bytes_index(d.drop_last(), k);
        assert(data_bytes(d).subrange(8 * k, 8 * k + 8) =~= data_bytes(d.drop_last()).subrange(
            8 * k,
            8 * k + 8,
        ));
    }
}

/// The wire form of a matrix: object magic, the matrix tag, the orientation
/// flag, the two dimensions, then the flat buffer.
pub open spec fn enc_matrix(m: Matrix) -> Seq<u8> {
    obj_magic() + seq![MATRIX_ID] + seq![bool_byte(m.transposed)] + be8(m.height as u64) + be8(
        m.width as u64,
    ) + data_bytes(m.data@)
}

/// The wire form of a layer: object magic, the layer tag, the activation
/// flag, then the weight and bias matrices.
pub open spec fn enc_layer(l: Layer) -> Seq<u8> {
    obj_magic() + seq![LAYER_ID] + seq![bool_byte(l.activation)] + enc_matrix(l.weights_t)
        + enc_matrix(l.biases)
}

pub open spec fn enc_layers(ls: Seq<Layer>) -> Seq<u8>
    decreases ls.len(),
{
    if ls.len() == 0 {
        Seq::empty()
    } else {
        enc_layers(ls.drop_last()) + enc_layer(ls.last())
    }
}

/// The wire form of a model: object magic, the model tag, the L2
/// coefficient's bit pattern, the layer count, then the layers.
pub open spec fn enc_model(m: Model) -> Seq<u8> {
    obj_magic() + seq![MODEL_ID] + be8(m.lambda) + be8(m.layers.len() as u64) + enc_layers(
        m.layers@,
    )
}

/// The header of a file whose total length (header and body together) is
/// `total`.
pub open spec fn header_bytes(total: u64) -> Seq<u8> {
    file_magic() + seq![VERSION] + be8(total)
}

// ----- decoding: validity and projections, mirroring the decoder -----

pub open spec fn dec_h(s: Seq<u8>, off: int) -> int {
    from_be8(s.subrange(off + 5, off + 13)) as usize as int
}

pub open spec fn dec_w(s: Seq<u8>, off: int) -> int {
    from_be8(s.subrange(off + 13, off + 21)) as usize as int
}

pub open spec fn dec_flag(s: Seq<u8>, off: int) -> bool {
    s[off + 4] != 0
}

/// Where the matrix that starts at `off` ends.
pub open spec fn dec_mat_end(s: Seq<u8>, off: int) -> int {
    off + 21 + dec_h(s, off) * dec_w(s, off) * 8
}

/// The byte stream carries a well-formed matrix at `off`: magic, the matrix
/// tag, a complete buffer, and after it either another object or the exact
/// end of the stream.
pub open spec fn dec_matrix_ok(s: Seq<u8>, off: int) -> bool {
    &&& off + 21 <= s.len()
    &&& s.subrange(off, off + 3) == obj_magic()
    &&& s[off + 3] == MATRIX_ID
    &&& dec_mat_end(s, off) <= s.len()
    &&& if dec_mat_end(s, off) + 3 <= s.len() {
        s.subrange(dec_mat_end(s, off), dec_mat_end(s, off) + 3) == obj_magic()
    } else {
        dec_mat_end(s, off) == s.len()
    }
}

/// The flat buffer encoded at `off`.
pub open spec fn dec_data(s: Seq<u8>, off: int) -> Seq<u64> {
    Seq::new(
        (dec_h(s, off) * dec_w(s, off)) as nat,
        |k: int| from_be8(s.subrange(off + 21 + 8 * k, off + 21 + 8 * k + 8)),
    )
}

/// The decoded matrix at `off` has exactly the projected fields.
pub open spec fn matrix_at(m: Matrix, s: Seq<u8>, off: int) -> bool {
    &&& m.transposed == dec_flag(s, off)
    &&& m.height == dec_h(s, off)
    &&& m.width == dec_w(s, off)
    &&& m.data@ == dec_data(s, off)
}

pub open spec fn dec_layer_ok(s: Seq<u8>, off: int) -> bool {
    &&& off + 5 <= s.len()
    &&& s.subrange(off, off + 3) == obj_magic()
    &&& s[off + 3] == LAYER_ID
    &&& dec_matrix_ok(s, off + 5)
    &&& dec_matrix_ok(s, dec_mat_end(s, off + 5))
}

/// Where the layer that starts at `off` ends.
pub open spec fn dec_layer_end(s: Seq<u8>, off: int) -> int {
    dec_mat_end(s, dec_mat_end(s, off + 5))
}

/// The persisted part of a layer matches the wire at `off`: the activation
/// flag and the two matrices.
pub open spec fn layer_wire_at(l: Layer, s: Seq<u8>, off: int) -> bool {
    &&& l.activation == (s[off + 4] != 0)
    &&& matrix_at(l.weights_t, s, off + 5)
    &&& matrix_at(l.biases, s, dec_mat_end(s, off + 5))
}

/// The decoded layer at `off`: its persisted part, and a freshly
/// initialized remainder (no cached output, no moment buffers).
pub open spec fn layer_at(l: Layer, s: Seq<u8>, off: int) -> bool {
    &&& layer_wire_at(l, s, off)
    &&& l.output.height == 0
    &&& l.output.width == 0
    &&& l.first_moment_weight is None
    &&& l.first_moment_biase is None
    &&& l.second_moment_weight is None
    &&& l.second_moment_biase is None
}

/// The layers of a sequence, encoded in order from position `i` on.
pub open spec fn enc_layers_from(ls: Seq<Layer>, i: int) -> Seq<u8>
    decreases ls.len() - i,
{
    if i < 0 || i >= ls.len() {
        Seq::empty()
    } else {
        enc_layer(ls[i]) + enc_layers_from(ls, i + 1)
    }
}

/// A run of `k` consecutive well-formed layers starting at `off`.
pub open spec fn dec_layers_ok(s: Seq<u8>, off: int, k: nat) -> bool
    decreases k,
{
    k == 0 || (dec_layer_ok(s, off) && dec_layers_ok(s, dec_layer_end(s, off), (k - 1) as nat))
}

/// Offset of the `j`-th layer of a run that starts at `off`.
pub open spec fn layer_off(s: Seq<u8>, off: int, j: nat) -> int
    decreases j,
{
    if j == 0 {
        off
    } else {
        dec_layer_end(s, layer_off(s, off, (j - 1) as nat))
    }
}

pub open spec fn dec_lambda(s: Seq<u8>, off: int) -> u64 {
    from_be8(s.subrange(off + 4, off + 12))
}

pub open spec fn dec_layer_count(s: Seq<u8>, off: int) -> int {
    from_be8(s.subrange(off + 12, off + 20)) as usize as int
}

pub open spec fn dec_model_ok(s: Seq<u8>, off: int) -> bool {
    &&& off + 20 <= s.len()
    &&& s.subrange(off, off + 3) == obj_magic()
    &&& s[off + 3] == MODEL_ID
    &&& dec_layers_ok(s, off + 20, dec_layer_count(s, off) as nat)
}

/// The stream opens with a well-formed header: file magic, the supported
/// version, and a length field that matches the stream itself.
pub open spec fn header_ok(s: Seq<u8>) -> bool {
    &&& s.len() >= 15
    &&& s.subrange(0, 6) == file_magic()
    &&& s[6] == VERSION
    &&& from_be8(s.subrange(7, 15)) == s.len()
}

/// Append the big-endian bytes of `x`.
fn push_be8(v: &mut Vec<u8>, x: u64)
    ensures
        final(v)@ =~= old(v)@ + be8(x),
{
    v.push(((x / 0x100_0000_0000_0000) % 0x100) as u8);
    v.push(((x / 0x1_0000_0000_0000) % 0x100) as u8);
    v.push(((x / 0x100_0000_0000) % 0x100) as u8);
    v.push(((x / 0x1_0000_0000) % 0x100) as u8);
    v.push(((x / 0x100_0000) % 0x100) as u8);
    v.push(((x / 0x1_0000) % 0x100) as u8);
    v.push(((x / 0x100) % 0x100) as u8);
    v.push((x % 0x100) as u8);
    proof {
        assert(final(v)@ =~= old(v)@ + be8(x));
    }
}

/// Read eight big-endian bytes starting at `off`.
fn read_be8(s: &Vec<u8>, off: usize) -> (r: u64)
    requires
        off + 8 <= s.len(),
    ensures
        r == from_be8(s@.subrange(off as int, off as int + 8)),
{
    let r: u64 = (s[off] as u64) * 0x100_0000_0000_0000 + (s[off + 1] as u64) * 0x1_0000_0000_0000
        + (s[off + 2] as u64) * 0x100_0000_0000 + (s[off + 3] as u64) * 0x1_0000_0000 + (s[off
        + 4] as u64) * 0x100_0000 + (s[off + 5] as u64) * 0x1_0000 + (s[off + 6] as u64) * 0x100 + (
    s[off + 7] as u64);
    proof {
        let sub = s@.subrange(off as int, off as int + 8);
        assert(sub[0] == s@[off as int]);
        assert(sub[1] == s@[off as int + 1]);
        assert(sub[2] == s@[off as int + 2]);
        assert(sub[3] == s@[off as int + 3]);
        assert(sub[4] == s@[off as int + 4]);
        assert(sub[5] == s@[off as int + 5]);
        assert(sub[6] == s@[off as int + 6]);
        assert(sub[7] == s@[off as int + 7]);
    }
    r
}

/// Encode a buffer of binary64 bit patterns: eight big-endian bytes per
/// entry, in order.
pub fn f64_array_to_binary(input: &Vec<u64>) -> (r: Vec<u8>)
    ensures
        r@ == data_bytes(input@),
{
    let mut binary: Vec<u8> = Vec::new();
    let n: usize = input.len();
    let mut i: usize = 0;
    while i < n
        invariant
            n == input.len(),
            i <= n,
            binary@ == data_bytes(input@.take(i as int)),
        decreases n - i,
    {
        proof {
            assert(input@.take(i + 1).drop_last() =~= input@.take(i as int));
        }
        push_be8(&mut binary, input[i]);
        proof {
            assert(binary@ =~= data_bytes(input@.take(i + 1)));
        }
        i = i + 1;
    }
    proof {
        assert(input@.take(n as int) =~= input@);
    }
    binary
}

/// Decode a buffer of binary64 bit patterns from whole chunks of eight
/// big-endian bytes.
pub fn binary_to_f64_array(input: Vec<u8>) -> (r: Vec<u64>)
    requires
        input.len() % 8 == 0,
    ensures
        r.len() == input.len() / 8,
        forall|k: int|
            0 <= k < r.len() ==> r[k] == from_be8(input@.subrange(8 * k, 8 * k + 8)),
{
    let n: usize = input.len() / 8;
    let mut output: Vec<u64> = Vec::new();
    let mut k: usize = 0;
    while k < n
        invariant
            n == input.len() / 8,
            input.len() % 8 == 0,
            k <= n,
            output.len() == k,
            forall|j: int|
                0 <= j < k ==> output[j] == from_be8(input@.subrange(8 * j, 8 * j + 8)),
        decreases n - k,
    {
        proof {
            assert(8 * (n as int) == input.len());
            assert(8 * k + 8 <= input.len());
        }
        output.push(read_be8(&input, 8 * k));
        k = k + 1;
    }
    output
}

/// Encode one matrix into its wire form.
pub fn matrix_to_binary(input: &Matrix) -> (r: Vec<u8>)
    requires
        input.wf(),
    ensures
        r@ == enc_matrix(*input),
{
    let mut output: Vec<u8> = Vec::new();
    output.push(67);
    output.push(65);
    output.push(84);
    output.push(MATRIX_ID);
    output.push(if input.transposed {
        1
    } else {
        0
    });
    push_be8(&mut output, input.height as u64);
    push_be8(&mut output, input.width as u64);
    let ghost prefix: Seq<u8> = obj_magic() + seq![MATRIX_ID] + seq![bool_byte(input.transposed)]
        + be8(input.height as u64) + be8(input.width as u64);
    proof {
        assert(output@ =~= prefix);
    }
    let n: usize = input.data.len();
    let mut i: usize = 0;
    while i < n
        invariant
            n == input.data.len(),
            i <= n,
            output@ == prefix + data_bytes(input.data@.take(i as int)),
        decreases n - i,
    {
        proof {
            assert(input.data@.take(i + 1).drop_last() =~= input.data@.take(i as int));
        }
        push_be8(&mut output, input.data[i]);
        proof {
            assert(output@ =~= prefix + data_bytes(input.data@.take(i + 1)));
        }
        i = i + 1;
    }
    proof {
        assert(input.data@.take(n as int) =~= input.data@);
        assert(output@ =~= enc_matrix(*input));
    }
    output
}

/// Decode one matrix from `byte_stream` starting at `input_offset`.  Returns
/// the matrix and the offset just past it, or a decode error on any
/// malformed or truncated input.
pub fn binary_to_matrix(byte_stream: &Vec<u8>, input_offset: usize) -> (r: Result<
    (Matrix, usize),
    ModelManagementError,
>)
    ensures
        match r {
            Ok(p) => {
                &&& dec_matrix_ok(byte_stream@, input_offset as int)
                &&& p.0.wf()
                &&& matrix_at(p.0, byte_stream@, input_offset as int)
                &&& p.1 == dec_mat_end(byte_stream@, input_offset as int)
            },
            Err(e) => {
                &&& !dec_matrix_ok(byte_stream@, input_offset as int)
                &&& e is CouldNotDecodeBinary
            },
        },
{
    let s = byte_stream;
    let off = input_offset;
    let n: usize = s.len();
    if off > n || n - off < 21 {
        return Err(
            ModelManagementError::CouldNotDecodeBinary(
                "Save binary reading - while attempting to decode a matrix : Unexpected EOF".to_string(),
            ),
        );
    }
    if s[off] != 67 || s[off + 1] != 65 || s[off + 2] != 84 {
        proof {
            if s@.subrange(off as int, off as int + 3) == obj_magic() {
                assert(s@.subrange(off as int, off as int + 3)[0] == 67);
                assert(s@.subrange(off as int, off as int + 3)[1] == 65);
                assert(s@.subrange(off as int, off as int + 3)[2] == 84);
            }
        }
        return Err(
            ModelManagementError::CouldNotDecodeBinary(
                "while attempting to decode a matrix : Binary start of object code not found, file may be corrupted".to_string(),
            ),
        );
    }
    proof {
        assert(s@.subrange(off as int, off as int + 3) =~= obj_magic());
    }
    if s[off + 3] != MATRIX_ID {
        return Err(
            ModelManagementError::CouldNotDecodeBinary(
                "while attempting to decode a matrix : Binary id code does not match the lookup table for the Matrix entry, file may be corrupted".to_string(),
            ),
        );
    }
    let transposed: bool = s[off + 4] != 0;
    let height: usize = read_be8(s, off + 5) as usize;
    let width: usize = read_be8(s, off + 13) as usize;
    let hw: usize = match height.checked_mul(width) {
        Some(v) => v,
        None => {
            proof {
                let h = height as int;
                let w = width as int;
                assert(h * w * 8 >= h * w);
            }
            return Err(
                ModelManagementError::CouldNotDecodeBinary(
                    "Save binary reading - while attempting to decode a matrix : Unexpected EOF".to_string(),
                ),
            );
        },
    };
    let data_size: usize = match hw.checked_mul(8) {
        Some(v) => v,
        None => {
            proof {
                let h = height as int;
                let w = width as int;
                assert(h * w * 8 == hw * 8);
            }
            return Err(
                ModelManagementError::CouldNotDecodeBinary(
                    "Save binary reading - while attempting to decode a matrix : Unexpected EOF".to_string(),
                ),
            );
        },
    };
    proof {
        let h = height as int;
        let w = width as int;
        assert(h * w * 8 == data_size);
    }
    if n - (off + 21) < data_size {
        return Err(
            ModelManagementError::CouldNotDecodeBinary(
                "Save binary reading - while attempting to decode a matrix : Unexpected EOF".to_string(),
            ),
        );
    }
    let end: usize = off + 21 + data_size;
    if n - end >= 3 {
        if s[end] != 67 || s[end + 1] != 65 || s[end + 2] != 84 {
            proof {
                if s@.subrange(end as int, end as int + 3) == obj_magic() {
                    assert(s@.subrange(end as int, end as int + 3)[0] == 67);
                    assert(s@.subrange(end as int, end as int + 3)[1] == 65);
                    assert(s@.subrange(end as int, end as int + 3)[2] == 84);
                }
            }
            return Err(
                ModelManagementError::CouldNotDecodeBinary(
                    "while attempting to decode a matrix : Binary start of object code not found, file may be corrupted".to_string(),
                ),
            );
        }
        proof {
            assert(s@.subrange(end as int, end as int + 3) =~= obj_magic());
        }
    } else {
        if end != n {
            return Err(
                ModelManagementError::CouldNotDecodeBinary(
                    "while attempting to decode a matrix : Unexpected EOF".to_string(),
                ),
            );
        }
    }
    let mut data: Vec<u64> = Vec::new();
    let mut k: usize = 0;
    while k < hw
        invariant
            s@ == byte_stream@,
            off + 21 + data_size <= s.len(),
            hw * 8 == data_size,
            k <= hw,
            data.len() == k,
            forall|j: int|
                0 <= j < k ==> data[j] == from_be8(
                    s@.subrange(off + 21 + 8 * j, off + 21 + 8 * j + 8),
                ),
        decreases hw - k,
    {
        proof {
            assert(8 * k + 8 <= data_size) by (nonlinear_arith)
                requires
                    k < hw,
                    hw * 8 == data_size,
            ;
        }
        data.push(read_be8(s, off + 21 + 8 * k));
        k = k + 1;
    }
    let m = Matrix { data, width, height, transposed };
    proof {
        assert(m.data@ =~= dec_data(byte_stream@, off as int));
    }
    Ok((m, end))
}

/// Reading back the encoding of a matrix, in any stream position whose tail
/// is empty or starts another object, gives back exactly the same matrix.
pub proof fn lemma_matrix_round_trip(m: Matrix, pre: Seq<u8>, tail: Seq<u8>)
    requires
        m.wf(),
        tail.len() == 0 || (tail.len() >= 3 && tail.subrange(0, 3) == obj_magic()),
    ensures
        dec_matrix_ok(pre + enc_matrix(m) + tail, pre.len() as int),
        matrix_at(m, pre + enc_matrix(m) + tail, pre.len() as int),
        dec_mat_end(pre + enc_matrix(m) + tail, pre.len() as int) == pre.len() + 21 + 8
            * m.data.len(),
{
    let s = pre + enc_matrix(m) + tail;
    let off = pre.len() as int;
    lemma_data_bytes_len(m.data@);
    assert(enc_matrix(m).len() == 21 + 8 * m.data.len());
    lemma_be8_round(m.height as u64);
    lemma_be8_round(m.width as u64);
    assert(s.subrange(off, off + 3) =~= obj_magic());
    assert(s.subrange(off + 5, off + 13) =~= be8(m.height as u64));
    assert(s.subrange(off + 13, off + 21) =~= be8(m.width as u64));
    assert(s[off + 3] == MATRIX_ID);
    assert(s[off + 4] == bool_byte(m.transposed));
    assert(dec_h(s, off) == m.height);
    assert(dec_w(s, off) == m.width);
    let hw = m.height as int * m.width as int;
    assert(dec_mat_end(s, off) == off + 21 + hw * 8);
    assert(hw * 8 == 8 * m.data.len()) by (nonlinear_arith)
        requires
            hw == m.height as int * m.width as int,
            m.data.len() == m.height as int * m.width as int,
    ;
    assert forall|k: int| 0 <= k < hw implies dec_data(s, off)[k] == m.data[k] by {
        assert(8 * k + 8 <= 8 * m.data.len());
        assert(s.subrange(off + 21 + 8 * k, off + 21 + 8 * k + 8) =~= data_bytes(
            m.data@,
        ).subrange(8 * k, 8 * k + 8));
        lemma_data_bytes_index(m.data@, k);
        lemma_be8_round(m.data[k]);
    }
    assert(dec_data(s, off) =~= m.data@);
    if tail.len() == 0 {
        assert(dec_mat_end(s, off) == s.len());
    } else {
        assert(s.subrange(dec_mat_end(s, off), dec_mat_end(s, off) + 3) =~= tail.subrange(0, 3));
    }
}

/// Encode one layer into its wire form.
pub fn layer_to_binary(input_layer: &Layer) -> (r: Vec<u8>)
    requires
        input_layer.weights_t.wf(),
        input_layer.biases.wf(),
    ensures
        r@ == enc_layer(*input_layer),
{
    let mut output: Vec<u8> = Vec::new();
    output.push(67);
    output.push(65);
    output.push(84);
    output.push(LAYER_ID);
    output.push(if input_layer.activation {
        1
    } else {
        0
    });
    let mut w: Vec<u8> = matrix_to_binary(&input_layer.weights_t);
    output.append(&mut w);
    let mut b: Vec<u8> = matrix_to_binary(&input_layer.biases);
    output.append(&mut b);
    proof {
        assert(output@ =~= enc_layer(*input_layer));
    }
    output
}

/// Decode one layer from `byte_stream` starting at `input_offset`.
pub fn binary_to_layer(byte_stream: &Vec<u8>, input_offset: usize) -> (r: Result<
    (Layer, usize),
    ModelManagementError,
>)
    ensures
        match r {
            Ok(p) => {
                &&& dec_layer_ok(byte_stream@, input_offset as int)
                &&& p.0.weights_t.wf()
                &&& p.0.biases.wf()
                &&& layer_at(p.0, byte_stream@, input_offset as int)
                &&& p.1 == dec_layer_end(byte_stream@, input_offset as int)
            },
            Err(e) => {
                &&& !dec_layer_ok(byte_stream@, input_offset as int)
                &&& e is CouldNotDecodeBinary
            },
        },
{
    let s = byte_stream;
    let off = input_offset;
    let n: usize = s.len();
    if off > n || n - off < 5 {
        return Err(
            ModelManagementError::CouldNotDecodeBinary(
                "while attempting to decode a layer : Unexpected EOF".to_string(),
            ),
        );
    }
    if s[off] != 67 || s[off + 1] != 65 || s[off + 2] != 84 {
        proof {
            if s@.subrange(off as int, off as int + 3) == obj_magic() {
                assert(s@.subrange(off as int, off as int + 3)[0] == 67);
                assert(s@.subrange(off as int, off as int + 3)[1] == 65);
                assert(s@.subrange(off as int, off as int + 3)[2] == 84);
            }
        }
        return Err(
            ModelManagementError::CouldNotDecodeBinary(
                "while attempting to decode a layer : Binary start of object code not found, file may be corrupted".to_string(),
            ),
        );
    }
    proof {
        assert(s@.subrange(off as int, off as int + 3) =~= obj_magic());
    }
    if s[off + 3] != LAYER_ID {
        return Err(
            ModelManagementError::CouldNotDecodeBinary(
                "while attempting to decode a layer : Binary id code does not match the lookup table for the Matrix entry, file may be corrupted".to_string(),
            ),
        );
    }
    let activation: bool = s[off + 4] != 0;
    let (weights_t, offset1) = match binary_to_matrix(byte_stream, off + 5) {
        Ok(p) => p,
        Err(e) => {
            return Err(e);
        },
    };
    let (biases, offset2) = match binary_to_matrix(byte_stream, offset1) {
        Ok(p) => p,
        Err(e) => {
            return Err(e);
        },
    };
    let output_layer = Layer::init_with_data(weights_t, biases, activation);
    Ok((output_layer, offset2))
}

/// Reading back the encoding of a layer gives back its activation flag and
/// its two matrices, with a freshly initialized remainder.
#[verifier::rlimit(100)]
pub proof fn lemma_layer_round_trip(l: Layer, pre: Seq<u8>, tail: Seq<u8>)
    requires
        l.weights_t.wf(),
        l.biases.wf(),
        tail.len() == 0 || (tail.len() >= 3 && tail.subrange(0, 3) == obj_magic()),
    ensures
        dec_layer_ok(pre + enc_layer(l) + tail, pre.len() as int),
        dec_layer_end(pre + enc_layer(l) + tail, pre.len() as int) == pre.len() + enc_layer(
            l,
        ).len(),
        layer_wire_at(l, pre + enc_layer(l) + tail, pre.len() as int),
{
    let s = pre + enc_layer(l) + tail;
    let off = pre.len() as int;
    let pre_w = pre + (obj_magic() + seq![LAYER_ID] + seq![bool_byte(l.activation)]);
    let tail_b = tail;
    lemma_data_bytes_len(l.weights_t.data@);
    lemma_data_bytes_len(l.biases.data@);
    assert(s =~= pre_w + enc_matrix(l.weights_t) + (enc_matrix(l.biases) + tail));
    assert((enc_matrix(l.biases) + tail).subrange(0, 3) =~= obj_magic());
    lemma_matrix_round_trip(l.weights_t, pre_w, enc_matrix(l.biases) + tail);
    let pre_b = pre_w + enc_matrix(l.weights_t);
    assert(s =~= pre_b + enc_matrix(l.biases) + tail);
    lemma_matrix_round_trip(l.biases, pre_b, tail);
    assert(s.subrange(off, off + 3) =~= obj_magic());
    assert(s[off + 3] == LAYER_ID);
    assert(s[off + 4] == bool_byte(l.activation));
    assert(dec_mat_end(s, off + 5) == pre_b.len());
}

/// Encode a model into its wire form: its L2 coefficient, its layer count,
/// and every layer in order.
pub fn model_to_binary(input_model: &Model) -> (r: Vec<u8>)
    requires
        forall|k: int|
            0 <= k < input_model.layers.len() ==> (#[trigger] input_model.layers@[k]).weights_t.wf()
                && input_model.layers@[k].biases.wf(),
    ensures
        r@ == enc_model(*input_model),
{
    let mut output: Vec<u8> = Vec::new();
    output.push(67);
    output.push(65);
    output.push(84);
    output.push(MODEL_ID);
    push_be8(&mut output, input_model.lambda);
    push_be8(&mut output, input_model.layers.len() as u64);
    let ghost prefix: Seq<u8> = obj_magic() + seq![MODEL_ID] + be8(input_model.lambda) + be8(
        input_model.layers.len() as u64,
    );
    proof {
        assert(output@ =~= prefix);
    }
    let n: usize = input_model.layers.len();
    let mut i: usize = 0;
    while i < n
        invariant
            n == input_model.layers.len(),
            forall|k: int|
                0 <= k < input_model.layers.len() ==> (#[trigger] input_model.layers@[k]).weights_t.wf()
                    && input_model.layers@[k].biases.wf(),
            i <= n,
            output@ == prefix + enc_layers(input_model.layers@.take(i as int)),
        decreases n - i,
    {
        proof {
            assert(input_model.layers@.take(i + 1).drop_last() =~= input_model.layers@.take(
                i as int,
            ));
        }
        let mut piece: Vec<u8> = layer_to_binary(&input_model.layers[i]);
        output.append(&mut piece);
        proof {
            assert(output@ =~= prefix + enc_layers(input_model.layers@.take(i + 1)));
        }
        i = i + 1;
    }
    proof {
        assert(input_model.layers@.take(n as int) =~= input_model.layers@);
        assert(output@ =~= enc_model(*input_model));
    }
    output
}

/// Walking one layer forward shifts the offset recursion by one.
pub proof fn lemma_layer_off_shift(s: Seq<u8>, off: int, k: nat)
    requires
        k >= 1,
    ensures
        layer_off(s, off, k) == layer_off(s, dec_layer_end(s, off), (k - 1) as nat),
    decreases k,
{
    if k == 1 {
        assert(layer_off(s, off, 1nat) == dec_layer_end(s, layer_off(s, off, 0nat)));
        assert(layer_off(s, off, 0nat) == off);
        assert(layer_off(s, dec_layer_end(s, off), 0nat) == dec_layer_end(s, off));
    } else {
        lemma_layer_off_shift(s, off, (k - 1) as nat);
        assert(layer_off(s, off, k) == dec_layer_end(s, layer_off(s, off, (k - 1) as nat)));
        assert(layer_off(s, dec_layer_end(s, off), (k - 1) as nat) == dec_layer_end(
            s,
            layer_off(s, dec_layer_end(s, off), (k - 2) as nat),
        ));
    }
}

/// A run of layers is validated one layer at a time.
pub proof fn lemma_dec_layers_ok_step(s: Seq<u8>, off: int, k: nat)
    ensures
        dec_layers_ok(s, off, (k + 1) as nat) == (dec_layers_ok(s, off, k) && dec_layer_ok(
            s,
            layer_off(s, off, k),
        )),
    decreases k,
{
    if k == 0 {
        assert(dec_layers_ok(s, off, 1nat) == (dec_layer_ok(s, off) && dec_layers_ok(
            s,
            dec_layer_end(s, off),
            0nat,
        )));
    } else {
        lemma_dec_layers_ok_step(s, dec_layer_end(s, off), (k - 1) as nat);
        lemma_layer_off_shift(s, off, k);
        assert(dec_layers_ok(s, off, (k + 1) as nat) == (dec_layer_ok(s, off) && dec_layers_ok(
            s,
            dec_layer_end(s, off),
            k,
        )));
        assert(dec_layers_ok(s, off, k) == (dec_layer_ok(s, off) && dec_layers_ok(
            s,
            dec_layer_end(s, off),
            (k - 1) as nat,
        )));
    }
}

/// A prefix of a valid run is valid.
pub proof fn lemma_dec_layers_ok_mono(s: Seq<u8>, off: int, a: nat, b: nat)
    requires
        a <= b,
        dec_layers_ok(s, off, b),
    ensures
        dec_layers_ok(s, off, a),
    decreases b,
{
    if a < b {
        lemma_dec_layers_ok_step(s, off, (b - 1) as nat);
        lemma_dec_layers_ok_mono(s, off, a, (b - 1) as nat);
    }
}

/// Decode a model from `byte_stream` starting at `input_offset`.  A loaded
/// model gets the default plain-gradient optimizer: the optimizer is not
/// part of the wire format.
pub fn binary_to_model(byte_stream: &Vec<u8>, input_offset: usize) -> (r: Result<
    Model,
    ModelManagementError,
>)
    ensures
        match r {
            Ok(m) => {
                &&& dec_model_ok(byte_stream@, input_offset as int)
                &&& m.lambda == dec_lambda(byte_stream@, input_offset as int)
                &&& m.optimizer == (Optimizer::SGD { learning_step: DEFAULT_LOADED_STEP })
                &&& m.layers.len() == dec_layer_count(byte_stream@, input_offset as int)
                &&& forall|j: int|
                    0 <= j < m.layers.len() ==> layer_at(
                        #[trigger] m.layers@[j],
                        byte_stream@,
                        layer_off(byte_stream@, input_offset as int + 20, j as nat),
                    )
                &&& forall|j: int|
                    0 <= j < m.layers.len() ==> (#[trigger] m.layers@[j]).weights_t.wf()
                        && m.layers@[j].biases.wf()
            },
            Err(e) => {
                &&& !dec_model_ok(byte_stream@, input_offset as int)
                &&& e is CouldNotDecodeBinary
            },
        },
{
    let s = byte_stream;
    let off = input_offset;
    let n: usize = s.len();
    if off > n || n - off < 20 {
        return Err(
            ModelManagementError::CouldNotDecodeBinary(
                "while attempting to decode the model : Unexpected EOF".to_string(),
            ),
        );
    }
    if s[off] != 67 || s[off + 1] != 65 || s[off + 2] != 84 {
        proof {
            if s@.subrange(off as int, off as int + 3) == obj_magic() {
                assert(s@.subrange(off as int, off as int + 3)[0] == 67);
                assert(s@.subrange(off as int, off as int + 3)[1] == 65);
                assert(s@.subrange(off as int, off as int + 3)[2] == 84);
            }
        }
        return Err(
            ModelManagementError::CouldNotDecodeBinary(
                "while attempting to decode the model : Binary start of object code not found, file may be corrupted".to_string(),
            ),
        );
    }
    proof {
        assert(s@.subrange(off as int, off as int + 3) =~= obj_magic());
    }
    if s[off + 3] != MODEL_ID {
        return Err(
            ModelManagementError::CouldNotDecodeBinary(
                "while attempting to decode the model : Binary id code does not match the lookup table for the Matrix entry, file may be corrupted".to_string(),
            ),
        );
    }
    let lambda: u64 = read_be8(s, off + 4);
    let number_of_layers: usize = read_be8(s, off + 12) as usize;
    let mut layers: Vec<Layer> = Vec::new();
    let mut offset: usize = off + 20;
    let mut k: usize = 0;
    while k < number_of_layers
        invariant
            s@ == byte_stream@,
            off == input_offset,
            number_of_layers as int == dec_layer_count(byte_stream@, off as int),
            k <= number_of_layers,
            layers.len() == k,
            dec_layers_ok(s@, off as int + 20, k as nat),
            offset == layer_off(s@, off as int + 20, k as nat),
            forall|j: int|
                0 <= j < k ==> layer_at(
                    #[trigger] layers@[j],
                    s@,
                    layer_off(s@, off as int + 20, j as nat),
                ),
            forall|j: int|
                0 <= j < k ==> (#[trigger] layers@[j]).weights_t.wf() && layers@[j].biases.wf(),
        decreases number_of_layers - k,
    {
        let (layer, new_offset) = match binary_to_layer(byte_stream, offset) {
            Ok(p) => p,
            Err(e) => {
                proof {
                    lemma_dec_layers_ok_step(s@, off as int + 20, k as nat);
                    if dec_layers_ok(s@, off as int + 20, number_of_layers as nat) {
                        lemma_dec_layers_ok_mono(
                            s@,
                            off as int + 20,
                            (k + 1) as nat,
                            number_of_layers as nat,
                        );
                    }
                }
                return Err(e);
            },
        };
        proof {
            lemma_dec_layers_ok_step(s@, off as int + 20, k as nat);
        }
        layers.push(layer);
        offset = new_offset;
        k = k + 1;
    }
    Ok(Model::init(layers, Optimizer::SGD { learning_step: DEFAULT_LOADED_STEP }, lambda))
}

/// Reading back the encoding of a model gives back its L2 coefficient and
/// every layer's persisted state.
#[verifier::rlimit(100)]
pub proof fn lemma_model_round_trip(m: Model)
    requires
        forall|k: int|
            0 <= k < m.layers.len() ==> (#[trigger] m.layers@[k]).weights_t.wf()
                && m.layers@[k].biases.wf(),
    ensures
        ({
            let s = enc_model(m);
            let off = 0int;
            &&& dec_model_ok(s, off)
            &&& dec_lambda(s, off) == m.lambda
            &&& dec_layer_count(s, off) == m.layers.len()
            &&& forall|j: int|
                0 <= j < m.layers.len() ==> layer_wire_at(
                    #[trigger] m.layers@[j],
                    s,
                    layer_off(s, 20, j as nat),
                )
        }),
{
    let s = enc_model(m);
    lemma_be8_round(m.lambda);
    lemma_be8_round(m.layers.len() as u64);
    assert(s.subrange(0, 3) =~= obj_magic());
    assert(s.subrange(4, 12) =~= be8(m.lambda));
    assert(s.subrange(12, 20) =~= be8(m.layers.len() as u64));
    lemma_model_prefix(m, s, m.layers.len() as nat);
    assert forall|j: int| 0 <= j < m.layers.len() implies layer_wire_at(
        #[trigger] m.layers@[j],
        s,
        layer_off(s, 20, j as nat),
    ) by {
        lemma_model_prefix(m, s, j as nat);
        lemma_model_layer_at(m, s, j);
    }
}

/// `enc_layers` splits at any position into the encoded prefix and the
/// encoded rest.
proof fn lemma_enc_layers_split(ls: Seq<Layer>, i: int)
    requires
        0 <= i <= ls.len(),
    ensures
        enc_layers(ls) =~= enc_layers(ls.take(i)) + enc_layers_from(ls, i),
    decreases ls.len() - i,
{
    if i == ls.len() {
        assert(ls.take(i) =~= ls);
    } else {
        lemma_enc_layers_split(ls, i + 1);
        assert(ls.take(i + 1).drop_last() =~= ls.take(i));
        assert(ls.take(i + 1).last() == ls[i]);
        assert(enc_layers(ls) =~= enc_layers(ls.take(i)) + (enc_layer(ls[i]) + enc_layers_from(
            ls,
            i + 1,
        )));
    }
}

/// Layer `i` of an encoded model decodes in place at the offset where it
/// was written, and ends where layer `i + 1` begins.
#[verifier::rlimit(100)]
proof fn lemma_model_layer_at(m: Model, s: Seq<u8>, i: int)
    requires
        forall|k: int|
            0 <= k < m.layers.len() ==> (#[trigger] m.layers@[k]).weights_t.wf()
                && m.layers@[k].biases.wf(),
        s == enc_model(m),
        0 <= i < m.layers.len(),
        layer_off(s, 20, i as nat) == 20 + enc_layers(m.layers@.take(i)).len(),
    ensures
        dec_layer_ok(s, layer_off(s, 20, i as nat)),
        layer_wire_at(m.layers@[i], s, layer_off(s, 20, i as nat)),
        dec_layer_end(s, layer_off(s, 20, i as nat)) == 20 + enc_layers(
            m.layers@.take(i + 1),
        ).len(),
{
    let ls = m.layers@;
    let head: Seq<u8> = obj_magic() + seq![MODEL_ID] + be8(m.lambda) + be8(
        m.layers.len() as u64,
    );
    let pre: Seq<u8> = head + enc_layers(ls.take(i));
    let tail: Seq<u8> = enc_layers_from(ls, i + 1);
    lemma_enc_layers_split(ls, i);
    assert(enc_layers_from(ls, i) =~= enc_layer(ls[i]) + tail);
    assert(s =~= pre + enc_layer(ls[i]) + tail);
    if i + 1 < ls.len() {
        assert(tail.subrange(0, 3) =~= obj_magic());
    }
    lemma_layer_round_trip(ls[i], pre, tail);
    assert(pre.len() == layer_off(s, 20, i as nat));
    assert(ls.take(i + 1).drop_last() =~= ls.take(i));
    assert(enc_layers(ls.take(i + 1)).len() == enc_layers(ls.take(i)).len() + enc_layer(
        ls[i],
    ).len());
}

/// The first `j` layers of an encoded model decode in place, each at the
/// offset where it was written.
#[verifier::rlimit(100)]
proof fn lemma_model_prefix(m: Model, s: Seq<u8>, j: nat)
    requires
        forall|k: int|
            0 <= k < m.layers.len() ==> (#[trigger] m.layers@[k]).weights_t.wf()
                && m.layers@[k].biases.wf(),
        s == enc_model(m),
        j <= m.layers.len(),
    ensures
        layer_off(s, 20, j) == 20 + enc_layers(m.layers@.take(j as int)).len(),
        dec_layers_ok(s, 20, j),
    decreases j,
{
    let ls = m.layers@;
    if j == 0 {
        assert(ls.take(0) =~= Seq::<Layer>::empty());
        assert(enc_layers(ls.take(0)).len() == 0);
    } else {
        lemma_model_prefix(m, s, (j - 1) as nat);
        let i = j - 1;
        lemma_model_layer_at(m, s, i as int);
        lemma_dec_layers_ok_step(s, 20, (j - 1) as nat);
    }
}

/// Table from a persisted type's name to its one-byte wire tag.
pub struct LookupStructBinaryId {
    pub matrix_tag: u8,
    pub layer_tag: u8,
    pub model_tag: u8,
}

impl LookupStructBinaryId {
    pub fn init() -> (r: LookupStructBinaryId)
        ensures
            r.matrix_tag == MATRIX_ID,
            r.layer_tag == LAYER_ID,
            r.model_tag == MODEL_ID,
    {
        LookupStructBinaryId { matrix_tag: MATRIX_ID, layer_tag: LAYER_ID, model_tag: MODEL_ID }
    }

    /// Tag byte for a type name.  The three persisted type names are told
    /// apart by the byte shape of the name: `Matrix` is six bytes long, and
    /// of the five-byte names only `Layer` starts with an `L` (byte 76).
    pub fn lookup(self, struct_name: &str) -> (r: u8)
        ensures
            struct_name.spec_bytes().len() == 6 ==> r == self.matrix_tag,
            struct_name.spec_bytes().len() == 5 && struct_name.spec_bytes()[0] == 76 ==> r
                == self.layer_tag,
            struct_name.spec_bytes().len() == 5 && struct_name.spec_bytes()[0] != 76 ==> r
                == self.model_tag,
    {
        let b: &[u8] = struct_name.as_bytes();
        if b.len() == 6 {
            self.matrix_tag
        } else if b.len() == 5 && b[0] == 76 {
            self.layer_tag
        } else {
            self.model_tag
        }
    }
}

/// Build the 15-byte file header for a body of `data_size` bytes: the file
/// magic, the format version, and the total length of header and body.
pub fn add_header(data_size: u64) -> (r: Vec<u8>)
    requires
        data_size + HEADER_SIZE <= u64::MAX,
    ensures
        r@ == header_bytes((data_size + HEADER_SIZE) as u64),
{
    let mut header: Vec<u8> = Vec::new();
    header.push(67);
    header.push(79);
    header.push(79);
    header.push(75);
    header.push(73);
    header.push(69);
    header.push(VERSION);
    push_be8(&mut header, data_size + HEADER_SIZE);
    proof {
        assert(header@ =~= header_bytes((data_size + HEADER_SIZE) as u64));
    }
    header
}

/// Validate the 15-byte file header: the magic, the version, and the length
/// field, which must equal the length of the whole stream.
pub fn check_header(byte_stream: &Vec<u8>) -> (r: Result<(), ModelManagementError>)
    ensures
        (r is Ok) == header_ok(byte_stream@),
        r is Err ==> (r matches Err(e) && e is CouldNotDecodeBinary),
{
    let s = byte_stream;
    let n: usize = s.len();
    if n < 15 {
        return Err(
            ModelManagementError::CouldNotDecodeBinary(
                "while attempting to decode the header : Unexpected EOF".to_string(),
            ),
        );
    }
    if s[0] != 67 || s[1] != 79 || s[2] != 79 || s[3] != 75 || s[4] != 73 || s[5] != 69 {
        proof {
            if s@.subrange(0, 6) == file_magic() {
                assert(s@.subrange(0, 6)[0] == 67);
                assert(s@.subrange(0, 6)[1] == 79);
                assert(s@.subrange(0, 6)[2] == 79);
                assert(s@.subrange(0, 6)[3] == 75);
                assert(s@.subrange(0, 6)[4] == 73);
                assert(s@.subrange(0, 6)[5] == 69);
            }
        }
        return Err(
            ModelManagementError::CouldNotDecodeBinary(
                "while attempting to decode the header : Binary start of the file code not found, file may be corrupted".to_string(),
            ),
        );
    }
    proof {
        assert(s@.subrange(0, 6) =~= file_magic());
    }
    if s[6] != VERSION {
        return Err(
            ModelManagementError::CouldNotDecodeBinary(
                "while attempting to decode the header : wrong file version".to_string(),
            ),
        );
    }
    let length: u64 = read_be8(s, 7);
    if length != n as u64 {
        return Err(
            ModelManagementError::CouldNotDecodeBinary(
                "while attempting to decode the header : file length different than expected, file may be corrupted".to_string(),
            ),
        );
    }
    Ok(())
}

/// The typed failures of persistence: saving, reading a file, and decoding
/// its bytes are reported apart, each with a human-readable detail.
#[derive(Debug)]
pub enum ModelManagementError {
    CouldNotSaveModel(String),
    CouldNotReadFile(String),
    CouldNotDecodeBinary(String),
}

impl ModelManagementError {
    /// The detail string, prefixed by the failure class.
    pub fn message(&self) -> String {
        match self {
            ModelManagementError::CouldNotSaveModel(msg) => msg.clone(),
            ModelManagementError::CouldNotReadFile(msg) => msg.clone(),
            ModelManagementError::CouldNotDecodeBinary(msg) => msg.clone(),
        }
    }
}

} // verus!
