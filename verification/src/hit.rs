//! From a position in the view to the byte under it.

use crate::geometry::Point;
use crate::geometry::Rectangle;
use crate::geometry::LINE_SPACING;
use crate::geometry::MARGIN;
use crate::layout::layout_of;
use crate::layout::lemma_rows_of;
use crate::layout::row_count;
use crate::layout::rows_of;
use crate::layout::Metrics;
use vstd::prelude::*;

verus! {

/// An offset, or none, as a plain value.
pub open spec fn lift(hit: Option<usize>) -> Option<int> {
    match hit {
        Some(index) => Some(index as int),
        None => None,
    }
}

/// A pair of offsets, or none, as plain values.
pub open spec fn lift_pair(r: Option<(usize, usize)>) -> Option<(int, int)> {
    match r {
        Some((a, b)) => Some((a as int, b as int)),
        None => None,
    }
}

/// The distance from the left edge of the hex block to the left edge of
/// column `c`: each column before it takes a pair and a space.
pub open spec fn zone_start(metrics: Metrics, c: int) -> int {
    c * (metrics.pair_width + metrics.space_width)
}

/// Whether the zone of column `c`, one pair wide, takes in the distance
/// `dx` from the left edge of the hex block. Both edges count.
pub open spec fn in_column(metrics: Metrics, c: int, dx: int) -> bool {
    zone_start(metrics, c) <= dx <= zone_start(metrics, c) + metrics.pair_width
}

/// The left edge of the zone behind the last column: the last pair has no
/// space behind it.
pub open spec fn trailing_start(metrics: Metrics, column_count: int) -> int {
    column_count * metrics.pair_width + (column_count - 1) * metrics.space_width
}

/// Whether the zone behind the last column, one space wide, takes in `dx`.
pub open spec fn in_trailing(metrics: Metrics, column_count: int, dx: int) -> bool {
    trailing_start(metrics, column_count) <= dx <= trailing_start(metrics, column_count)
        + metrics.space_width
}

/// The first column from `from` on whose zone takes in `dx`.
pub open spec fn column_from(metrics: Metrics, column_count: int, dx: int, from: int) -> Option<
    int,
>
    decreases column_count - from,
{
    if from >= column_count {
        None
    } else if in_column(metrics, from, dx) {
        Some(from)
    } else {
        column_from(metrics, column_count, dx, from + 1)
    }
}

/// The zone that takes in `dx`: the first column whose zone does, or, with
/// `extend_line`, the zone behind the last column, which counts as column
/// `column_count`.
pub open spec fn zone_at(metrics: Metrics, column_count: int, dx: int, extend_line: bool) -> Option<
    int,
> {
    match column_from(metrics, column_count, dx, 0) {
        Some(c) => Some(c),
        None => if extend_line && in_trailing(metrics, column_count, dx) {
            Some(column_count)
        } else {
            None
        },
    }
}

/// The offset that a hit in zone `c` of row `row` stands for. A column
/// stands for its byte, and for nothing where the buffer ends before it. The
/// zone behind the last column stands for the end of the row.
pub open spec fn offset_at(len: int, column_count: int, row: int, c: int) -> Option<int> {
    let index = row * column_count + c;
    if c < column_count {
        if index < len {
            Some(index)
        } else {
            None
        }
    } else if index < len {
        Some(index)
    } else {
        Some(len)
    }
}

/// The offset under a position, or `None` where the position is outside
/// the hex block or between two of its zones.
///
/// The hex block starts at the layout's `hex_x` and `first_row_y` from the
/// corner of `bounds`. It is as wide as the measured heading, and one space
/// wider with `extend_line`; it is as high as the rows, without the line
/// spacing under the last one. Its edges count as inside. The row is the
/// distance from the top edge divided by the row height.
pub open spec fn hit_of(
    bounds: Rectangle,
    position: Point,
    metrics: Metrics,
    font_size: u32,
    column_count: int,
    extend_line: bool,
    len: int,
) -> Option<int> {
    let rows = rows_of(len, column_count);
    let l = layout_of(metrics, font_size, rows);
    let dx = position.x - (bounds.x + l.hex_x);
    let dy = position.y - (bounds.y + l.first_row_y);
    let width = metrics.hex_width + if extend_line {
        metrics.space_width as int
    } else {
        0
    };
    let height = rows * l.row_height - LINE_SPACING;
    if rows == 0 || !(0 <= dx <= width) || !(0 <= dy <= height) {
        None
    } else {
        match zone_at(metrics, column_count, dx, extend_line) {
            Some(c) => offset_at(len, column_count, dy / (l.row_height as int), c),
            None => None,
        }
    }
}

/// No column from `from` on takes in a distance left of the zone of `from`.
pub proof fn lemma_no_column_right(metrics: Metrics, column_count: int, dx: int, from: int)
    requires
        0 <= from,
        dx < zone_start(metrics, from),
    ensures
        column_from(metrics, column_count, dx, from) is None,
    decreases column_count - from,
{
    if from < column_count {
        assert(zone_start(metrics, from) <= zone_start(metrics, from + 1)) by (nonlinear_arith)
            requires
                0 <= from,
        ;
        lemma_no_column_right(metrics, column_count, dx, from + 1);
    }
}

/// Where pairs and spaces have no width, all zones are one, and a distance
/// outside the first is outside them all.
pub proof fn lemma_no_column_flat(metrics: Metrics, column_count: int, dx: int, from: int)
    requires
        0 <= from,
        metrics.pair_width == 0,
        metrics.space_width == 0,
        dx != 0,
    ensures
        column_from(metrics, column_count, dx, from) is None,
    decreases column_count - from,
{
    if from < column_count {
        assert(zone_start(metrics, from) == 0) by (nonlinear_arith)
            requires
                metrics.pair_width + metrics.space_width == 0,
        ;
        lemma_no_column_flat(metrics, column_count, dx, from + 1);
    }
}

/// With a space of some width between the pairs, every position in the zone
/// of a column is found to be in that column and in no other.
pub proof fn lemma_column_found(metrics: Metrics, column_count: int, c: int, t: int)
    requires
        metrics.space_width >= 1,
        0 <= c < column_count,
        0 <= t <= metrics.pair_width,
    ensures
        zone_at(metrics, column_count, zone_start(metrics, c) + t, false) == Some(c),
        zone_at(metrics, column_count, zone_start(metrics, c) + t, true) == Some(c),
{
    lemma_column_found_from(metrics, column_count, c, t, 0);
}

/// The walk from column `from`, at or left of `c`, to a position in the
/// zone of `c` ends at `c`.
pub proof fn lemma_column_found_from(
    metrics: Metrics,
    column_count: int,
    c: int,
    t: int,
    from: int,
)
    requires
        metrics.space_width >= 1,
        0 <= from <= c < column_count,
        0 <= t <= metrics.pair_width,
    ensures
        column_from(metrics, column_count, zone_start(metrics, c) + t, from) == Some(c),
    decreases c - from,
{
    if from < c {
        assert(zone_start(metrics, from) + metrics.pair_width < zone_start(metrics, c))
            by (nonlinear_arith)
            requires
                from + 1 <= c,
                metrics.space_width >= 1,
                0 <= from,
        ;
        lemma_column_found_from(metrics, column_count, c, t, from + 1);
    }
}

/// The hit test undoes the layout: with a space of some width between the
/// pairs, a position `t` into the pair of column `c` and `s` under the top
/// edge of row `row`, inside the hex block, is found to be on byte
/// `row * column_count + c`, where the buffer has such a byte.
pub proof fn lemma_hit_inverse(
    bounds: Rectangle,
    position: Point,
    metrics: Metrics,
    font_size: u32,
    column_count: int,
    extend_line: bool,
    len: int,
    row: int,
    c: int,
    t: int,
    s: int,
)
    requires
        column_count >= 1,
        len >= 0,
        metrics.space_width >= 1,
        0 <= row < rows_of(len, column_count),
        0 <= c < column_count,
        row * column_count + c < len,
        0 <= t <= metrics.pair_width,
        zone_start(metrics, c) + t <= metrics.hex_width,
        0 <= s <= font_size,
        position.x == bounds.x + layout_of(metrics, font_size, rows_of(len, column_count)).hex_x
            + zone_start(metrics, c) + t,
        position.y == bounds.y + layout_of(
            metrics,
            font_size,
            rows_of(len, column_count),
        ).first_row_y + row * (font_size + LINE_SPACING) + s,
    ensures
        hit_of(bounds, position, metrics, font_size, column_count, extend_line, len) == Some(
            row * column_count + c,
        ),
{
    let rows = rows_of(len, column_count);
    let row_height = font_size + LINE_SPACING;
    let dy = row * row_height + s;
    lemma_column_found(metrics, column_count, c, t);
    assert(zone_start(metrics, c) >= 0) by (nonlinear_arith)
        requires
            c >= 0,
            zone_start(metrics, c) == c * (metrics.pair_width + metrics.space_width),
    ;
    assert(0 <= row * row_height && dy <= rows * row_height - LINE_SPACING) by (nonlinear_arith)
        requires
            0 <= row <= rows - 1,
            row_height == font_size + LINE_SPACING,
            dy == row * row_height + s,
            0 <= s <= font_size,
    ;
    vstd::arithmetic::div_mod::lemma_fundamental_div_mod_converse(dy, row_height, row, s);
}

/// Finds the zone that takes in the distance `dx` from the left edge of the
/// hex block, walking the columns from the left.
pub fn zone(metrics: Metrics, column_count: usize, dx: i64, extend_line: bool) -> (z: Option<
    usize,
>)
    requires
        column_count >= 1,
    ensures
        lift(z) == zone_at(metrics, column_count as int, dx as int, extend_line),
        z matches Some(c) ==> c <= column_count && (c == column_count ==> extend_line),
{
    if dx < 0 {
        proof {
            lemma_no_column_right(metrics, column_count as int, dx as int, 0);
            assert(trailing_start(metrics, column_count as int) >= 0) by (nonlinear_arith)
                requires
                    column_count >= 1,
                    trailing_start(metrics, column_count as int) == column_count
                        * metrics.pair_width + (column_count - 1) * metrics.space_width,
            ;
        }
        return None;
    }
    let pair: i64 = metrics.pair_width as i64;
    let stride: i64 = pair + metrics.space_width as i64;
    let mut start: i64 = 0;
    let mut c: usize = 0;
    let mut found: Option<usize> = None;
    while c < column_count
        invariant_except_break
            c <= column_count,
            start == zone_start(metrics, c as int),
            0 <= start <= dx,
            found is None,
        invariant
            pair == metrics.pair_width,
            stride == metrics.pair_width + metrics.space_width,
            column_from(metrics, column_count as int, dx as int, 0) == column_from(
                metrics,
                column_count as int,
                dx as int,
                c as int,
            ),
        ensures
            found matches Some(k) ==> column_from(metrics, column_count as int, dx as int, 0)
                == Some(k as int) && k < column_count,
            found is None ==> column_from(metrics, column_count as int, dx as int, 0) is None,
        decreases column_count - c,
    {
        let into: i64 = dx - start;
        if into <= pair {
            found = Some(c);
            break ;
        }
        proof {
            assert(zone_start(metrics, c + 1) == zone_start(metrics, c as int) + stride)
                by (nonlinear_arith)
                requires
                    stride == metrics.pair_width + metrics.space_width,
            ;
        }
        if stride == 0 {
            proof {
                lemma_no_column_flat(metrics, column_count as int, dx as int, c as int);
            }
            break ;
        }
        if into < stride {
            proof {
                lemma_no_column_right(metrics, column_count as int, dx as int, c + 1);
            }
            break ;
        }
        start = start + stride;
        c = c + 1;
    }
    match found {
        Some(k) => Some(k),
        None => {
            if extend_line {
                assert(0 <= column_count * metrics.pair_width <= 0xffff_ffff_ffff_ffff
                    * 0xffff_ffff && 0 <= (column_count - 1) * metrics.space_width
                    <= 0xffff_ffff_ffff_ffff * 0xffff_ffff) by (nonlinear_arith)
                    requires
                        1 <= column_count <= 0xffff_ffff_ffff_ffff,
                        0 <= metrics.pair_width <= 0xffff_ffff,
                        0 <= metrics.space_width <= 0xffff_ffff,
                ;
                let first: i128 = (column_count as i128) * (metrics.pair_width as i128) + ((
                column_count - 1) as i128) * (metrics.space_width as i128);
                let wide: i128 = dx as i128;
                if first <= wide && wide <= first + metrics.space_width as i128 {
                    Some(column_count)
                } else {
                    None
                }
            } else {
                None
            }
        },
    }
}

/// Finds the offset under a position in the view, given the widths that
/// were measured.
pub fn hit_test(
    bounds: Rectangle,
    position: Point,
    metrics: Metrics,
    font_size: u32,
    column_count: usize,
    extend_line: bool,
    len: usize,
) -> (hit: Option<usize>)
    requires
        column_count >= 1,
    ensures
        lift(hit) == hit_of(
            bounds,
            position,
            metrics,
            font_size,
            column_count as int,
            extend_line,
            len as int,
        ),
        hit matches Some(index) ==> index <= len && (!extend_line ==> index < len),
{
    let rows = row_count(len, column_count);
    if rows == 0 {
        return None;
    }
    let hex_x: i64 = MARGIN as i64 + metrics.offset_width as i64 + 2 * (MARGIN as i64);
    let first_row_y: i64 = MARGIN as i64 + font_size as i64 + LINE_SPACING as i64;
    let row_height: i64 = font_size as i64 + LINE_SPACING as i64;
    let dx: i64 = position.x as i64 - (bounds.x as i64 + hex_x);
    let dy: i64 = position.y as i64 - (bounds.y as i64 + first_row_y);
    let width: i64 = metrics.hex_width as i64 + if extend_line {
        metrics.space_width as i64
    } else {
        0
    };
    if dx < 0 || dx > width || dy < 0 {
        return None;
    }
    let row_wide: i64 = dy / row_height;
    let below: i64 = dy % row_height;
    proof {
        lemma_rows_of(len as int, column_count as int);
        vstd::arithmetic::div_mod::lemma_fundamental_div_mod(dy as int, row_height as int);
        assert(dy == row_height * row_wide + below);
        assert(0 <= below < row_height);
        assert(row_wide >= 0) by (nonlinear_arith)
            requires
                dy == row_height * row_wide + below,
                0 <= below < row_height,
                dy >= 0,
        ;
    }
    let ghost height = rows * row_height - LINE_SPACING;
    if row_wide as u64 >= rows as u64 {
        assert(dy > height) by (nonlinear_arith)
            requires
                dy == row_height * row_wide + below,
                below >= 0,
                row_wide >= rows,
                row_height > 0,
                height == rows * row_height - LINE_SPACING,
                LINE_SPACING > 0,
        ;
        return None;
    }
    let row: usize = row_wide as usize;
    if row == rows - 1 && below > font_size as i64 {
        assert(dy > height) by (nonlinear_arith)
            requires
                dy == row_height * row_wide + below,
                below > font_size,
                row_wide == rows - 1,
                row_height == font_size + LINE_SPACING,
                height == rows * row_height - LINE_SPACING,
        ;
        return None;
    }
    assert(dy <= height) by (nonlinear_arith)
        requires
            dy == row_height * row_wide + below,
            0 <= below < row_height,
            row_wide <= rows - 1,
            row_wide == rows - 1 ==> below <= font_size,
            row_height == font_size + LINE_SPACING,
            height == rows * row_height - LINE_SPACING,
            LINE_SPACING > 0,
    ;
    proof {
        assert(row * column_count <= (rows - 1) * column_count) by (nonlinear_arith)
            requires
                0 <= row <= rows - 1,
                column_count >= 1,
        ;
    }
    let base: usize = row * column_count;
    match zone(metrics, column_count, dx, extend_line) {
        None => None,
        Some(c) => {
            if c < column_count {
                if c < len - base {
                    Some(base + c)
                } else {
                    None
                }
            } else if column_count < len - base {
                Some(base + column_count)
            } else {
                Some(len)
            }
        },
    }
}

} // verus!
