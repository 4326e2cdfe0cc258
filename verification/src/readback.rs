//! Turning a row-padded texture copy into tightly packed pixels.
//!
//! A graphics device copies a texture into a buffer whose rows each start at
//! a multiple of the device's row alignment, so every row but a perfectly
//! sized one is followed by padding. The functions here compute that row
//! stride and strip the padding again.

use vstd::arithmetic::div_mod::lemma_fundamental_div_mod;
use vstd::arithmetic::div_mod::lemma_fundamental_div_mod_converse;
use vstd::arithmetic::mul::lemma_mul_inequality;
use vstd::prelude::*;
use vstd::slice::slice_subrange;

verus! {

/// Bytes that one pixel occupies in the output format: four 8-bit channels.
pub const BYTES_PER_PIXEL: u32 = 4;

/// Why a padded buffer could not be unpacked.
#[derive(Clone, Copy, Debug, PartialEq, Eq, Structural)]
pub enum ReadbackError {
    /// The row alignment is zero, so no stride is a multiple of it.
    ZeroAlignment,
    /// The buffer ends before the last row that has to be read.
    BufferTooShort,
}

/// The smallest multiple of `align` that is at least `n`.
pub open spec fn round_up_to_multiple(n: int, align: int) -> int
    recommends
        n >= 0,
        align > 0,
{
    ((n + align - 1) / align) * align
}

/// Bytes of pixel data in one row of an image `width` pixels wide.
pub open spec fn row_bytes(width: u32) -> int {
    width * 4
}

/// Distance in bytes between the starts of two rows in the padded buffer.
pub open spec fn padded_row_bytes(width: u32, align: u32) -> int {
    round_up_to_multiple(row_bytes(width), align as int)
}

/// Length that a padded buffer must have for every row to lie inside it:
/// the last row needs its pixels but not its padding.
pub open spec fn required_len(width: u32, height: u32, align: u32) -> int {
    if height == 0 {
        0
    } else {
        (height - 1) * padded_row_bytes(width, align) + row_bytes(width)
    }
}

/// The packed image held by `src`: byte `col` of row `row` is read at
/// `row * stride + col` and lands at `row * row_len + col`.
pub open spec fn unpadded(src: Seq<u8>, row_len: int, stride: int, rows: int) -> Seq<u8> {
    Seq::new((rows * row_len) as nat, |i: int| src[(i / row_len) * stride + i % row_len])
}

/// `src` holds the rows of `packed`, each at a multiple of `stride`, with
/// anything at all in between.
pub open spec fn holds_rows(
    src: Seq<u8>,
    packed: Seq<u8>,
    row_len: int,
    stride: int,
    rows: int,
) -> bool {
    &&& packed.len() == rows * row_len
    &&& forall|i: int|
        0 <= i < packed.len() ==> {
            let at = (i / row_len) * stride + i % row_len;
            0 <= at < src.len() && src[at] == #[trigger] packed[i]
        }
}

/// Rounding up yields a multiple of `align` in `n ..= n + align - 1`.
pub proof fn lemma_round_up_bounds(n: int, align: int)
    requires
        n >= 0,
        align > 0,
    ensures
        n <= round_up_to_multiple(n, align) < n + align,
        round_up_to_multiple(n, align) % align == 0,
        round_up_to_multiple(n, align) == align * ((n + align - 1) / align),
{
    let x = n + align - 1;
    let q = x / align;
    lemma_fundamental_div_mod(x, align);
    assert(q * align == align * q) by (nonlinear_arith);
    assert(0 <= x % align < align);
    lemma_fundamental_div_mod_converse(q * align, align, q, 0);
}

/// A multiple of `align` that is at least `n` is at least the rounded value:
/// rounding up gives the smallest such multiple.
pub proof fn lemma_round_up_is_least(n: int, align: int, m: int)
    requires
        n >= 0,
        align > 0,
        m >= n,
        m % align == 0,
    ensures
        round_up_to_multiple(n, align) <= m,
{
    lemma_round_up_bounds(n, align);
    let r = round_up_to_multiple(n, align);
    let q = (n + align - 1) / align;
    let k = m / align;
    lemma_fundamental_div_mod(m, align);
    if r > m {
        assert(align * q > align * k);
        assert(q > k) by (nonlinear_arith)
            requires
                align > 0,
                align * q > align * k,
        ;
        assert(align * q >= align * (k + 1)) by (nonlinear_arith)
            requires
                align > 0,
                q >= k + 1,
        ;
        assert(align * (k + 1) == align * k + align) by (nonlinear_arith);
        assert(r >= m + align);
    }
}

/// Where byte `col` of row `row` is found in the packed image and where it
/// came from.
pub proof fn lemma_unpadded_at(
    src: Seq<u8>,
    row_len: int,
    stride: int,
    rows: int,
    row: int,
    col: int,
)
    requires
        0 <= row < rows,
        0 <= col < row_len,
    ensures
        0 <= row * row_len + col < unpadded(src, row_len, stride, rows).len(),
        unpadded(src, row_len, stride, rows)[row * row_len + col] == src[row * stride + col],
{
    let i = row * row_len + col;
    assert(row_len * row == row * row_len) by (nonlinear_arith);
    lemma_fundamental_div_mod_converse(i, row_len, row, col);
    assert(0 <= row * row_len && (row + 1) * row_len <= rows * row_len) by (nonlinear_arith)
        requires
            0 <= row < rows,
            0 < row_len,
    ;
    assert((row + 1) * row_len == row * row_len + row_len) by (nonlinear_arith);
}

/// The packed image has `rows * row_len` bytes.
pub proof fn lemma_unpadded_len(src: Seq<u8>, row_len: int, stride: int, rows: int)
    requires
        0 <= row_len,
        0 <= rows,
    ensures
        unpadded(src, row_len, stride, rows).len() == rows * row_len,
{
    assert(rows * row_len >= 0) by (nonlinear_arith)
        requires
            0 <= row_len,
            0 <= rows,
    ;
}

/// Unpacking one more row appends that row's pixel bytes.
pub proof fn lemma_unpadded_next_row(src: Seq<u8>, row_len: int, stride: int, rows: int)
    requires
        0 <= row_len,
        0 <= rows,
        0 <= rows * stride,
        rows * stride + row_len <= src.len(),
    ensures
        unpadded(src, row_len, stride, rows + 1) == unpadded(src, row_len, stride, rows)
            + src.subrange(rows * stride, rows * stride + row_len),
{
    let before = unpadded(src, row_len, stride, rows);
    let after = unpadded(src, row_len, stride, rows + 1);
    let row = src.subrange(rows * stride, rows * stride + row_len);
    lemma_unpadded_len(src, row_len, stride, rows);
    lemma_unpadded_len(src, row_len, stride, rows + 1);
    assert((rows + 1) * row_len == rows * row_len + row_len) by (nonlinear_arith);
    assert(after.len() == (before + row).len());
    assert forall|i: int| 0 <= i < after.len() implies after[i] == (before + row)[i] by {
        if i >= rows * row_len {
            let col = i - rows * row_len;
            lemma_unpadded_at(src, row_len, stride, rows + 1, rows, col);
        }
    }
    assert(after =~= before + row);
}

/// Padding round trip: whatever stands between the rows, unpacking a buffer
/// that holds the rows of `packed` gives `packed` back.
pub proof fn lemma_padding_round_trip(
    src: Seq<u8>,
    packed: Seq<u8>,
    row_len: int,
    stride: int,
    rows: int,
)
    requires
        0 <= row_len,
        0 <= rows,
        holds_rows(src, packed, row_len, stride, rows),
    ensures
        unpadded(src, row_len, stride, rows) == packed,
{
    lemma_unpadded_len(src, row_len, stride, rows);
    assert(unpadded(src, row_len, stride, rows) =~= packed);
}

/// A buffer of `height` whole padded rows is long enough to be unpacked.
pub proof fn lemma_whole_rows_suffice(width: u32, height: u32, align: u32)
    requires
        align > 0,
    ensures
        required_len(width, height, align) <= height * padded_row_bytes(width, align),
        height * row_bytes(width) <= required_len(width, height, align),
{
    let stride = padded_row_bytes(width, align);
    let row_len = row_bytes(width);
    lemma_round_up_bounds(row_len, align as int);
    if height > 0 {
        assert(height * stride == (height - 1) * stride + stride) by (nonlinear_arith);
        assert(height * row_len == (height - 1) * row_len + row_len) by (nonlinear_arith);
        lemma_mul_inequality(row_len, stride, height - 1);
        assert(row_len * (height - 1) == (height - 1) * row_len) by (nonlinear_arith);
        assert(stride * (height - 1) == (height - 1) * stride) by (nonlinear_arith);
    } else {
        assert(height * stride == 0) by (nonlinear_arith)
            requires
                height == 0,
        ;
        assert(height * row_len == 0) by (nonlinear_arith)
            requires
                height == 0,
        ;
    }
}

/// The row stride for a texture copy, as the device wants it: the pixel
/// bytes of one row rounded up to the device's row alignment. `None` when
/// the alignment is zero or the stride does not fit in 32 bits.
pub fn bytes_per_row(width: u32, align: u32) -> (stride: Option<u32>)
    ensures
        stride == if align > 0 && padded_row_bytes(width, align) <= u32::MAX {
            Some(padded_row_bytes(width, align) as u32)
        } else {
            None
        },
{
    if align == 0 {
        return None;
    }
    let padded = padded_stride(width, align);
    if padded > u32::MAX as u64 {
        None
    } else {
        Some(padded as u32)
    }
}

/// Size in bytes of the staging buffer that receives a `width` by `height`
/// texture: `height` whole padded rows. `None` exactly when
/// [`bytes_per_row`] is.
pub fn staging_buffer_size(width: u32, height: u32, align: u32) -> (size: Option<u64>)
    ensures
        size == if align > 0 && padded_row_bytes(width, align) <= u32::MAX {
            Some((height * padded_row_bytes(width, align)) as u64)
        } else {
            None
        },
{
    match bytes_per_row(width, align) {
        Some(stride) => {
            assert(height * stride <= u32::MAX * u32::MAX) by (nonlinear_arith)
                requires
                    height <= u32::MAX,
                    stride <= u32::MAX,
            ;
            Some(height as u64 * stride as u64)
        },
        None => None,
    }
}

/// Strips the row padding from a texture copy.
///
/// Row `row` of the result is the `width * 4` bytes of `src` that start at
/// `row * stride`, where `stride` is `width * 4` rounded up to a multiple of
/// `align`. The result has exactly `width * height * 4` bytes. The call
/// succeeds whenever `align` is positive and every row lies inside `src`;
/// bytes of `src` after the last row are ignored.
pub fn unpad_rows(src: &[u8], width: u32, height: u32, align: u32) -> (packed: Result<
    Vec<u8>,
    ReadbackError,
>)
    ensures
        align == 0 ==> packed == Err::<Vec<u8>, ReadbackError>(ReadbackError::ZeroAlignment),
        align > 0 && src@.len() < required_len(width, height, align) ==> packed == Err::<
            Vec<u8>,
            ReadbackError,
        >(ReadbackError::BufferTooShort),
        align > 0 && src@.len() >= required_len(width, height, align) ==> packed is Ok
            && packed->Ok_0@ == unpadded(
            src@,
            row_bytes(width),
            padded_row_bytes(width, align),
            height as int,
        ) && packed->Ok_0@.len() == width * height * 4,
{
    if align == 0 {
        return Err(ReadbackError::ZeroAlignment);
    }
    let row_len: u64 = width as u64 * 4;
    let stride: u64 = padded_stride(width, align);
    let ghost row_len_int = row_bytes(width);
    let ghost stride_int = padded_row_bytes(width, align);
    if height == 0 {
        let empty: Vec<u8> = Vec::new();
        proof {
            lemma_unpadded_len(src@, row_len_int, stride_int, 0);
            assert(empty@ =~= unpadded(src@, row_len_int, stride_int, 0));
            assert(width * height * 4 == 0) by (nonlinear_arith)
                requires
                    height == 0,
            ;
        }
        return Ok(empty);
    }
    assert((height - 1) * stride <= u32::MAX * stride) by (nonlinear_arith)
        requires
            0 <= height - 1 <= u32::MAX,
            0 <= stride,
    ;
    let needed: u128 = (height as u128 - 1) * stride as u128 + row_len as u128;
    if (src.len() as u128) < needed {
        return Err(ReadbackError::BufferTooShort);
    }
    let mut out: Vec<u8> = Vec::new();
    let mut row: u32 = 0;
    proof {
        lemma_unpadded_len(src@, row_len_int, stride_int, 0);
        assert(out@ =~= unpadded(src@, row_len_int, stride_int, 0));
    }
    while row < height
        invariant
            row <= height,
            0 < height,
            row_len == row_len_int,
            stride == stride_int,
            row_len_int == row_bytes(width),
            row_len_int <= stride_int,
            (height - 1) * stride_int + row_len_int <= src@.len() <= usize::MAX,
            out@ == unpadded(src@, row_len_int, stride_int, row as int),
        decreases height - row,
    {
        proof {
            assert(0 <= row * stride_int <= (height - 1) * stride_int) by (nonlinear_arith)
                requires
                    0 <= row <= height - 1,
                    0 <= stride_int,
            ;
            lemma_unpadded_next_row(src@, row_len_int, stride_int, row as int);
        }
        let start: usize = (row as u64 * stride) as usize;
        let end: usize = start + row_len as usize;
        let pixels = slice_subrange(src, start, end);
        let ghost before = out@;
        out.extend_from_slice(pixels);
        assert(out@ =~= before + pixels@);
        row = row + 1;
    }
    proof {
        lemma_unpadded_len(src@, row_len_int, stride_int, height as int);
        assert(height * (width * 4) == width * height * 4) by (nonlinear_arith);
    }
    Ok(out)
}

/// `width * 4` rounded up to a multiple of `align`, in 64 bits, where it
/// always fits.
fn padded_stride(width: u32, align: u32) -> (stride: u64)
    requires
        align > 0,
    ensures
        stride == padded_row_bytes(width, align),
        row_bytes(width) <= stride < row_bytes(width) + align,
{
    let row_len: u64 = width as u64 * 4;
    let step: u64 = align as u64;
    let blocks: u64 = (row_len + step - 1) / step;
    proof {
        lemma_round_up_bounds(row_len as int, step as int);
        assert(blocks * step == step * blocks) by (nonlinear_arith);
    }
    blocks * step
}

} // verus!
