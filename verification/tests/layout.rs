use hexview::geometry::{advance, Point, Rectangle, Size, LINE_SPACING, MARGIN};
use hexview::layout::{content_height, layout, row_count, row_range, rows_below, Metrics};

#[test]
fn row_count_rounds_up() {
    assert_eq!(row_count(0, 16), 0);
    assert_eq!(row_count(1, 16), 1);
    assert_eq!(row_count(16, 16), 1);
    assert_eq!(row_count(17, 16), 2);
    assert_eq!(row_count(20, 8), 3);
    assert_eq!(row_count(5, 1), 5);
    assert_eq!(row_count(usize::MAX, 1), usize::MAX);
}

#[test]
fn rows_reconstruct_the_buffer() {
    let buffer: Vec<u8> = (0..=99).collect();
    for columns in 1..=32usize {
        let mut joined = Vec::new();
        let mut expected_start = 0;
        for row in 0..row_count(buffer.len(), columns) {
            let range = row_range(buffer.len(), columns, row);
            assert_eq!(range.start, expected_start);
            assert!(range.start < range.end);
            expected_start = range.end;
            joined.extend_from_slice(&buffer[range]);
        }
        assert_eq!(expected_start, buffer.len());
        assert_eq!(joined, buffer);
    }
}

#[test]
fn row_range_of_last_partial_row() {
    assert_eq!(row_range(20, 8, 0), 0..8);
    assert_eq!(row_range(20, 8, 1), 8..16);
    assert_eq!(row_range(20, 8, 2), 16..20);
}

#[test]
fn content_height_counts_margins_heading_and_rows() {
    // 2 * 1000 + 1700 + 800 + 3 * (1700 + 800)
    assert_eq!(content_height(20, 8, 1700), 12000);
    // No rows: margins and the heading row alone.
    assert_eq!(content_height(0, 16, 1700), 4500);
}

#[test]
fn content_height_is_cut_off_at_the_largest_coordinate() {
    assert_eq!(content_height(usize::MAX, 1, u32::MAX), i64::MAX);
}

#[test]
fn rows_below_and_advance() {
    assert_eq!(rows_below(3500, 2, 1700), 8500);
    assert_eq!(advance(-10, 3, 7), 11);
    assert_eq!(advance(i64::MAX - 5, 1, 6), i64::MAX);
    assert_eq!(LINE_SPACING, 800);
    assert_eq!(MARGIN, 1000);
}

#[test]
fn layout_places_the_three_blocks() {
    let metrics = Metrics {
        offset_width: 8000,
        hex_width: 41000,
        ascii_width: 16000,
        pair_width: 2000,
        space_width: 600,
    };
    let l = layout(metrics, 1700, 20, 8);
    assert_eq!(l.offset_x, 1000);
    assert_eq!(l.hex_x, 1000 + 8000 + 2000);
    assert_eq!(l.ascii_x, 11000 + 41000 + 2000);
    assert_eq!(l.offset_field_width, 8000);
    assert_eq!(l.hex_block_width, 41000);
    assert_eq!(l.ascii_block_width, 16000);
    assert_eq!(l.header_y, 1000);
    assert_eq!(l.first_row_y, 3500);
    assert_eq!(l.row_height, 2500);
    assert_eq!(l.total_height, 12000);
}

#[test]
fn rectangle_contains_its_edges() {
    let r = Rectangle { x: 10, y: 20, width: 30, height: 40 };
    assert!(r.contains(Point { x: 10, y: 20 }));
    assert!(r.contains(Point { x: 40, y: 60 }));
    assert!(r.contains(Point { x: 25, y: 30 }));
    assert!(!r.contains(Point { x: 9, y: 20 }));
    assert!(!r.contains(Point { x: 41, y: 60 }));
    assert!(!r.contains(Point { x: 40, y: 61 }));
    assert_eq!(r.size(), Size { width: 30, height: 40 });
}
