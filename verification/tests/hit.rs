use hexview::geometry::{Point, Rectangle, Size};
use hexview::hit::{hit_test, zone};
use hexview::layout::Metrics;
use hexview::render::{cursor_offset, measure_columns, measure_headers, Renderer};
use iced_native::Font;

/// A renderer for which every character but the space is 10 wide and the
/// space is 6 wide.
struct Mono;

impl Renderer for Mono {
    fn measure(&self, content: &str, size: u32, _font: Font, _bounds: Size) -> (u32, u32) {
        let width = content.chars().map(|c| if c == ' ' { 6 } else { 10 }).sum();
        (width, size)
    }
}

fn metrics() -> Metrics {
    Metrics {
        offset_width: 80,
        hex_width: 16 * 20 + 15 * 6,
        ascii_width: 0,
        pair_width: 20,
        space_width: 6,
    }
}

fn bounds() -> Rectangle {
    Rectangle { x: 0, y: 0, width: 100_000, height: 100_000 }
}

// The hex block starts at margin + offset width + two margins, and the
// first row under the margin, the heading and the line spacing.
const HEX_X: i32 = 1000 + 80 + 2000;
const FIRST_ROW_Y: i32 = 1000 + 1700 + 800;
const ROW_HEIGHT: i32 = 1700 + 800;

fn hit(x: i32, y: i32, extend_line: bool, len: usize) -> Option<usize> {
    hit_test(bounds(), Point { x, y }, metrics(), 1700, 16, extend_line, len)
}

#[test]
fn left_edge_of_hex_block_is_column_zero() {
    assert_eq!(hit(HEX_X, FIRST_ROW_Y, false, 64), Some(0));
}

#[test]
fn just_inside_second_pair_is_column_one() {
    assert_eq!(hit(HEX_X + 20 + 6 + 1, FIRST_ROW_Y, false, 64), Some(1));
}

#[test]
fn pair_edges_count_as_inside() {
    assert_eq!(hit(HEX_X + 20, FIRST_ROW_Y, false, 64), Some(0));
    assert_eq!(hit(HEX_X + 26, FIRST_ROW_Y, false, 64), Some(1));
    assert_eq!(hit(HEX_X + 46, FIRST_ROW_Y, false, 64), Some(1));
}

#[test]
fn space_between_pairs_hits_nothing() {
    assert_eq!(hit(HEX_X + 21, FIRST_ROW_Y, false, 64), None);
    assert_eq!(hit(HEX_X + 25, FIRST_ROW_Y, false, 64), None);
}

#[test]
fn last_column_and_width_of_block() {
    let last = HEX_X + 15 * 26;
    assert_eq!(hit(last, FIRST_ROW_Y, false, 64), Some(15));
    assert_eq!(hit(last + 20, FIRST_ROW_Y, false, 64), Some(15));
    assert_eq!(hit(last + 21, FIRST_ROW_Y, false, 64), None);
}

#[test]
fn rows_follow_the_row_height() {
    assert_eq!(hit(HEX_X, FIRST_ROW_Y + ROW_HEIGHT - 1, false, 64), Some(0));
    assert_eq!(hit(HEX_X, FIRST_ROW_Y + ROW_HEIGHT, false, 64), Some(16));
    assert_eq!(hit(HEX_X + 27, FIRST_ROW_Y + 3 * ROW_HEIGHT, false, 64), Some(49));
}

#[test]
fn outside_the_block_hits_nothing() {
    assert_eq!(hit(HEX_X - 1, FIRST_ROW_Y, false, 64), None);
    assert_eq!(hit(HEX_X, FIRST_ROW_Y - 1, false, 64), None);
    // Four rows: the block ends a font size under the top of the last one.
    assert_eq!(hit(HEX_X, FIRST_ROW_Y + 3 * ROW_HEIGHT + 1700, false, 64), Some(48));
    assert_eq!(hit(HEX_X, FIRST_ROW_Y + 3 * ROW_HEIGHT + 1701, false, 64), None);
    assert_eq!(hit(HEX_X, FIRST_ROW_Y + 4 * ROW_HEIGHT, false, 64), None);
}

#[test]
fn empty_buffer_hits_nothing() {
    assert_eq!(hit(HEX_X, FIRST_ROW_Y, false, 0), None);
    assert_eq!(hit(HEX_X, FIRST_ROW_Y, true, 0), None);
}

#[test]
fn columns_behind_the_end_of_the_buffer_hit_nothing() {
    // 20 bytes: the second row holds four.
    assert_eq!(hit(HEX_X + 3 * 26, FIRST_ROW_Y + ROW_HEIGHT, false, 20), Some(19));
    assert_eq!(hit(HEX_X + 4 * 26, FIRST_ROW_Y + ROW_HEIGHT, false, 20), None);
}

#[test]
fn extended_line_adds_a_zone_behind_the_last_column() {
    let behind = HEX_X + 16 * 20 + 15 * 6;
    assert_eq!(hit(behind + 3, FIRST_ROW_Y, false, 64), None);
    assert_eq!(hit(behind + 3, FIRST_ROW_Y, true, 64), Some(16));
    assert_eq!(hit(behind + 6, FIRST_ROW_Y + ROW_HEIGHT, true, 64), Some(32));
    assert_eq!(hit(behind + 7, FIRST_ROW_Y, true, 64), None);
    // In the last row the zone stands for the end of the buffer.
    assert_eq!(hit(behind + 3, FIRST_ROW_Y + ROW_HEIGHT, true, 20), Some(20));
}

#[test]
fn bounds_origin_shifts_the_block() {
    let shifted = Rectangle { x: 500, y: -300, width: 1000, height: 1000 };
    let at = Point { x: 500 + HEX_X + 27, y: -300 + FIRST_ROW_Y };
    assert_eq!(hit_test(shifted, at, metrics(), 1700, 16, false, 64), Some(1));
}

#[test]
fn zone_walks_columns_from_the_left() {
    assert_eq!(zone(metrics(), 16, 0, false), Some(0));
    assert_eq!(zone(metrics(), 16, 27, false), Some(1));
    assert_eq!(zone(metrics(), 16, 23, false), None);
    assert_eq!(zone(metrics(), 2, 52, false), None);
    assert_eq!(zone(metrics(), 2, 47, true), Some(2));
}

#[test]
fn zone_with_flat_metrics() {
    let flat = Metrics { offset_width: 0, hex_width: 0, ascii_width: 0, pair_width: 0, space_width: 0 };
    assert_eq!(zone(flat, 1000, 0, false), Some(0));
    assert_eq!(zone(flat, 1000, 1, false), None);
}

#[test]
fn cursor_offset_measures_through_the_renderer() {
    let bytes = [0u8; 64];
    let at = Point { x: HEX_X + 27, y: FIRST_ROW_Y + ROW_HEIGHT };
    assert_eq!(
        cursor_offset(&Mono, bounds(), at, Font::Default, 1700, 16, false, &bytes),
        Some(17)
    );
    let gap = Point { x: HEX_X + 23, y: FIRST_ROW_Y };
    assert_eq!(
        cursor_offset(&Mono, bounds(), gap, Font::Default, 1700, 16, false, &bytes),
        None
    );
}

#[test]
fn measured_metrics() {
    let size = Size { width: 100, height: 100 };
    let columns = measure_columns(&Mono, Font::Default, 1700, size, 16);
    assert_eq!(columns, metrics());
    let headers = measure_headers(&Mono, Font::Default, 1700, size, 16);
    assert_eq!(
        headers,
        Metrics {
            offset_width: 80,
            hex_width: 410,
            ascii_width: 160,
            pair_width: 0,
            space_width: 0,
        }
    );
}
