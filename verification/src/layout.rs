//! Rows of a buffer and where the three blocks of the view lie.

use crate::geometry::advance;
use crate::geometry::clip;
use crate::geometry::LINE_SPACING;
use crate::geometry::MARGIN;
use std::ops::Range;
use vstd::prelude::*;

verus! {

/// The number of rows that `len` bytes take with `column_count` bytes a
/// row: `len / column_count`, rounded up.
pub open spec fn rows_of(len: int, column_count: int) -> int {
    (len + column_count - 1) / column_count
}

/// The offset of the first byte of a row.
pub open spec fn row_start(column_count: int, row: int) -> int {
    row * column_count
}

/// The offset behind the last byte of a row: a full row's worth behind its
/// start, or the end of the buffer where that comes first.
pub open spec fn row_end(len: int, column_count: int, row: int) -> int {
    if (row + 1) * column_count < len {
        (row + 1) * column_count
    } else {
        len
    }
}

/// The bytes of the first `upto` rows of a buffer, row after row.
pub open spec fn rows_concat(bytes: Seq<u8>, column_count: int, upto: int) -> Seq<u8>
    decreases upto,
{
    if upto <= 0 {
        Seq::empty()
    } else {
        rows_concat(bytes, column_count, upto - 1) + bytes.subrange(
            row_start(column_count, upto - 1),
            row_end(bytes.len() as int, column_count, upto - 1),
        )
    }
}

/// Counts the rows of a buffer of `len` bytes.
pub fn row_count(len: usize, column_count: usize) -> (rows: usize)
    requires
        column_count >= 1,
    ensures
        rows == rows_of(len as int, column_count as int),
        rows <= len,
{
    proof {
        lemma_rows_of(len as int, column_count as int);
    }
    if len % column_count == 0 {
        len / column_count
    } else {
        len / column_count + 1
    }
}

/// The half-open range of offsets that a row covers.
pub fn row_range(len: usize, column_count: usize, row: usize) -> (r: Range<usize>)
    requires
        column_count >= 1,
        row < rows_of(len as int, column_count as int),
    ensures
        r.start == row_start(column_count as int, row as int),
        r.end == row_end(len as int, column_count as int, row as int),
        r.start < r.end <= len,
        r.end - r.start <= column_count,
{
    proof {
        lemma_row_bounds(len as int, column_count as int, row as int);
        assert((row + 1) * column_count == row * column_count + column_count)
            by (nonlinear_arith);
    }
    let start = row * column_count;
    let end = if column_count < len - start {
        start + column_count
    } else {
        len
    };
    Range { start, end }
}

/// `rows_of` rounds the quotient up: it is the quotient where the division
/// leaves nothing over, and one more where it leaves something.
pub proof fn lemma_rows_of(len: int, column_count: int)
    requires
        len >= 0,
        column_count >= 1,
    ensures
        rows_of(len, column_count) == len / column_count + (if len % column_count == 0 {
            0int
        } else {
            1int
        }),
        0 <= rows_of(len, column_count) <= len,
        (rows_of(len, column_count) - 1) * column_count < len || len == 0,
        len <= rows_of(len, column_count) * column_count,
        len == 0 <==> rows_of(len, column_count) == 0,
{
    let q = len / column_count;
    let r = len % column_count;
    vstd::arithmetic::div_mod::lemma_fundamental_div_mod(len, column_count);
    assert(len == column_count * q + r);
    assert(0 <= r < column_count);
    assert(q >= 0) by (nonlinear_arith)
        requires
            len == column_count * q + r,
            0 <= r < column_count,
            len >= 0,
            column_count >= 1,
    ;
    assert(q <= len) by (nonlinear_arith)
        requires
            len == column_count * q + r,
            0 <= r,
            q >= 0,
            column_count >= 1,
    ;
    assert(len == 0 <==> q == 0 && r == 0) by (nonlinear_arith)
        requires
            len == column_count * q + r,
            0 <= r < column_count,
            q >= 0,
    ;
    if r == 0 {
        vstd::arithmetic::div_mod::lemma_fundamental_div_mod_converse(
            len + column_count - 1,
            column_count,
            q,
            column_count - 1,
        );
        assert((q - 1) * column_count < len || len == 0) by (nonlinear_arith)
            requires
                len == column_count * q,
                column_count >= 1,
                q >= 0,
        ;
        assert(len <= q * column_count) by (nonlinear_arith)
            requires
                len == column_count * q,
        ;
    } else {
        assert(column_count * (q + 1) + (r - 1) == len + column_count - 1) by (nonlinear_arith)
            requires
                len == column_count * q + r,
        ;
        vstd::arithmetic::div_mod::lemma_fundamental_div_mod_converse(
            len + column_count - 1,
            column_count,
            q + 1,
            r - 1,
        );
        assert(q * column_count < len) by (nonlinear_arith)
            requires
                len == column_count * q + r,
                r > 0,
        ;
        assert(len <= (q + 1) * column_count) by (nonlinear_arith)
            requires
                len == column_count * q + r,
                r < column_count,
        ;
        assert(q + 1 <= len) by (nonlinear_arith)
            requires
                len == column_count * q + r,
                r > 0,
                q >= 0,
                column_count >= 1,
        ;
    }
}

/// A row of the buffer is not empty, lies in the buffer, and holds at most
/// `column_count` bytes.
pub proof fn lemma_row_bounds(len: int, column_count: int, row: int)
    requires
        len >= 0,
        column_count >= 1,
        0 <= row < rows_of(len, column_count),
    ensures
        0 <= row_start(column_count, row) < row_end(len, column_count, row) <= len,
        row_end(len, column_count, row) - row_start(column_count, row) <= column_count,
        row + 1 < rows_of(len, column_count) ==> row_end(len, column_count, row) == row_start(
            column_count,
            row + 1,
        ),
        row + 1 == rows_of(len, column_count) ==> row_end(len, column_count, row) == len,
{
    lemma_rows_of(len, column_count);
    let rows = rows_of(len, column_count);
    assert(row * column_count <= (rows - 1) * column_count) by (nonlinear_arith)
        requires
            row <= rows - 1,
            column_count >= 1,
    ;
    assert(row * column_count >= 0) by (nonlinear_arith)
        requires
            row >= 0,
            column_count >= 1,
    ;
    assert((row + 1) * column_count == row * column_count + column_count) by (nonlinear_arith);
    if row + 1 < rows {
        assert((row + 1) * column_count <= (rows - 1) * column_count) by (nonlinear_arith)
            requires
                row + 1 <= rows - 1,
                column_count >= 1,
        ;
    } else {
        assert((row + 1) * column_count == rows * column_count);
    }
}

/// The rows of a buffer, one after the other, are the buffer: the first
/// starts at offset 0, each ends where the next starts, the last ends at
/// the end of the buffer, and their bytes in order give the buffer back.
pub proof fn lemma_rows_reconstruct(bytes: Seq<u8>, column_count: int)
    requires
        column_count >= 1,
    ensures
        rows_concat(bytes, column_count, rows_of(bytes.len() as int, column_count)) == bytes,
        forall|row: int|
            0 <= row < rows_of(bytes.len() as int, column_count) - 1 ==> #[trigger] row_end(
                bytes.len() as int,
                column_count,
                row,
            ) == row_start(column_count, row + 1),
{
    let len = bytes.len() as int;
    let rows = rows_of(len, column_count);
    lemma_rows_of(len, column_count);
    lemma_rows_prefix(bytes, column_count, rows);
    if rows > 0 {
        lemma_row_bounds(len, column_count, rows - 1);
    }
    assert(bytes.subrange(0, len) =~= bytes);
    assert forall|row: int| 0 <= row < rows - 1 implies #[trigger] row_end(
        len,
        column_count,
        row,
    ) == row_start(column_count, row + 1) by {
        lemma_row_bounds(len, column_count, row);
    }
}

/// The bytes of the first `upto` rows are the buffer up to the end of the
/// last of them.
pub proof fn lemma_rows_prefix(bytes: Seq<u8>, column_count: int, upto: int)
    requires
        column_count >= 1,
        0 <= upto <= rows_of(bytes.len() as int, column_count),
    ensures
        rows_concat(bytes, column_count, upto) == bytes.subrange(
            0,
            if upto == 0 {
                0
            } else {
                row_end(bytes.len() as int, column_count, upto - 1)
            },
        ),
    decreases upto,
{
    let len = bytes.len() as int;
    if upto == 0 {
        assert(rows_concat(bytes, column_count, upto) =~= bytes.subrange(0, 0));
    } else {
        lemma_rows_prefix(bytes, column_count, upto - 1);
        lemma_row_bounds(len, column_count, upto - 1);
        if upto > 1 {
            lemma_row_bounds(len, column_count, upto - 2);
        }
        assert(rows_concat(bytes, column_count, upto) =~= bytes.subrange(
            0,
            row_end(len, column_count, upto - 1),
        ));
    }
}

/// The widths that the renderer measured, from which the layout is derived.
#[derive(Clone, Copy, Debug, PartialEq, Eq, Structural)]
pub struct Metrics {
    /// The width of the reference offset label.
    pub offset_width: u32,
    /// The width of the heading of the hex block.
    pub hex_width: u32,
    /// The width of the heading of the ASCII block.
    pub ascii_width: u32,
    /// The width of one hex pair.
    pub pair_width: u32,
    /// The width of one space.
    pub space_width: u32,
}

/// Where the blocks of the view lie, relative to the top left corner of its
/// bounds.
#[derive(Clone, Copy, Debug, PartialEq, Eq, Structural)]
pub struct RowLayout {
    /// Left edge of the offset field.
    pub offset_x: i64,
    /// Left edge of the hex block.
    pub hex_x: i64,
    /// Left edge of the ASCII block.
    pub ascii_x: i64,
    /// Width of the offset field.
    pub offset_field_width: i64,
    /// Width of the hex block.
    pub hex_block_width: i64,
    /// Width of the ASCII block.
    pub ascii_block_width: i64,
    /// Top edge of the heading row.
    pub header_y: i64,
    /// Top edge of the first row of bytes.
    pub first_row_y: i64,
    /// Distance from one row's top edge to the next.
    pub row_height: i64,
    /// Height of the whole view, both margins included.
    pub total_height: i64,
}

/// The layout that follows from measured widths, a font size and the
/// number of rows.
pub open spec fn layout_of(metrics: Metrics, font_size: u32, rows: int) -> RowLayout {
    let offset_x = MARGIN as int;
    let hex_x = offset_x + metrics.offset_width + 2 * MARGIN;
    let ascii_x = hex_x + metrics.hex_width + 2 * MARGIN;
    let row_height = font_size + LINE_SPACING;
    RowLayout {
        offset_x: offset_x as i64,
        hex_x: hex_x as i64,
        ascii_x: ascii_x as i64,
        offset_field_width: metrics.offset_width as i64,
        hex_block_width: metrics.hex_width as i64,
        ascii_block_width: metrics.ascii_width as i64,
        header_y: MARGIN as i64,
        first_row_y: (MARGIN + font_size + LINE_SPACING) as i64,
        row_height: row_height as i64,
        total_height: clip(2 * MARGIN + font_size + LINE_SPACING + rows * row_height),
    }
}

/// The height of a view of `len` bytes, cut off at the largest coordinate:
/// both margins, the heading row, and the rows of bytes.
pub open spec fn height_of(len: int, column_count: int, font_size: u32) -> i64 {
    clip(
        2 * MARGIN + font_size + LINE_SPACING + rows_of(len, column_count) * (font_size
            + LINE_SPACING),
    )
}

/// The coordinate `rows` rows below `base`, cut off at the largest
/// coordinate: each row is as high as the font and the line spacing together.
pub fn rows_below(base: i64, rows: usize, font_size: u32) -> (y: i64)
    ensures
        y == clip(base + rows * (font_size + LINE_SPACING)),
{
    assert(rows * (font_size + LINE_SPACING) == rows * font_size + rows * LINE_SPACING
        && rows * font_size >= 0 && rows * LINE_SPACING >= 0) by (nonlinear_arith)
        requires
            rows >= 0,
            font_size >= 0,
    ;
    advance(advance(base, rows, font_size), rows, LINE_SPACING)
}

/// Computes the height of a view of `len` bytes.
pub fn content_height(len: usize, column_count: usize, font_size: u32) -> (h: i64)
    requires
        column_count >= 1,
    ensures
        h == height_of(len as int, column_count as int, font_size),
{
    let rows = row_count(len, column_count);
    let head: i64 = 2 * (MARGIN as i64) + font_size as i64 + LINE_SPACING as i64;
    rows_below(head, rows, font_size)
}

/// Derives the layout of the view from measured widths.
pub fn layout(metrics: Metrics, font_size: u32, len: usize, column_count: usize) -> (l: RowLayout)
    requires
        column_count >= 1,
    ensures
        l == layout_of(metrics, font_size, rows_of(len as int, column_count as int)),
{
    let offset_x: i64 = MARGIN as i64;
    let hex_x: i64 = offset_x + metrics.offset_width as i64 + 2 * (MARGIN as i64);
    let ascii_x: i64 = hex_x + metrics.hex_width as i64 + 2 * (MARGIN as i64);
    RowLayout {
        offset_x,
        hex_x,
        ascii_x,
        offset_field_width: metrics.offset_width as i64,
        hex_block_width: metrics.hex_width as i64,
        ascii_block_width: metrics.ascii_width as i64,
        header_y: MARGIN as i64,
        first_row_y: MARGIN as i64 + font_size as i64 + LINE_SPACING as i64,
        row_height: font_size as i64 + LINE_SPACING as i64,
        total_height: content_height(len, column_count, font_size),
    }
}

} // verus!
