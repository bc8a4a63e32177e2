use hexview::geometry::{Area, Point, Rectangle, Size};
use hexview::layout::Metrics;
use hexview::render::Renderer;
use hexview::scene::{
    cursor_marker, draw, row_selection, Marker, Paint, Quad, Scene, CURSOR_HEIGHT, CURSOR_PADDING,
};
use hexview::state::{KeyCode, State};
use hexview::style::{Color, Dark, Light, Style, StyleSheet};
use hexview::view::{Event, Hexview};
use iced_native::Font;

struct Mono;

impl Renderer for Mono {
    fn measure(&self, content: &str, size: u32, _font: Font, _bounds: Size) -> (u32, u32) {
        let width = content.chars().map(|c| if c == ' ' { 6 } else { 10 }).sum();
        (width, size)
    }
}

fn bounds() -> Rectangle {
    Rectangle { x: 100, y: 200, width: 50_000, height: 30_000 }
}

const HEX_X: i32 = 100 + 1000 + 80 + 2000;
const FIRST_ROW_Y: i32 = 200 + 1000 + 1700 + 800;

fn sample() -> Vec<u8> {
    let mut bytes: Vec<u8> = (0x41..0x55).collect();
    bytes[5] = 0x01;
    bytes
}

fn plain_style() -> Style {
    Style { non_printable_color: None, ..Light.active() }
}

fn scene(style: &Style, cursor: usize, selection: Option<(usize, usize)>, debug: bool) -> Scene {
    draw(
        &Mono,
        bounds(),
        Point { x: 0, y: 0 },
        style,
        1700,
        8,
        true,
        cursor,
        0,
        debug,
        Font::Default,
        Font::Default,
        &selection,
        &sample(),
    )
}

#[test]
fn light_and_dark_palettes() {
    let light = Light.active();
    assert_eq!(light.background_color, Color { r: 1000, g: 1000, b: 1000, a: 1000 });
    assert_eq!(light.line_color, Color::from_rgb(750, 750, 750));
    assert_eq!(light.offset_color, Color::from_rgb(330, 330, 330));
    assert_eq!(light.data_color, Color::from_rgb(196, 196, 196));
    assert_eq!(light.non_printable_color, Some(Color::from_rgb(640, 640, 640)));
    assert_eq!(light.cursor_color, Color::from_rgb(630, 630, 630));
    assert!(light.highlights());
    let dark = Dark.active();
    assert_eq!(dark.background_color, Color::from_rgb(180, 210, 220));
    assert_eq!(dark.line_color, Color::from_rgb(278, 330, 345));
    assert_eq!(dark.offset_color, Color::from_rgb(294, 372, 372));
    assert_eq!(dark.data_color, Color::from_rgb(440, 530, 530));
    assert_eq!(dark.non_printable_color, Some(Color::from_rgb(270, 368, 368)));
    assert_eq!(dark.cursor_color, Color::from_rgb(150, 380, 440));
    assert!(!plain_style().highlights());
}

#[test]
fn new_view_has_sixteen_columns() {
    let view = Hexview::new();
    assert_eq!(view.columns(), 16);
}

#[test]
fn column_count_is_clamped() {
    assert_eq!(Hexview::new().column_count(0).columns(), 1);
    assert_eq!(Hexview::new().column_count(1).columns(), 1);
    assert_eq!(Hexview::new().column_count(8).columns(), 8);
    assert_eq!(Hexview::new().column_count(32).columns(), 32);
    assert_eq!(Hexview::new().column_count(33).columns(), 32);
    assert_eq!(Hexview::new().column_count(255).columns(), 32);
}

#[test]
fn view_height_follows_font_size_and_columns() {
    let mut state = State::new();
    state.set_bytes(&sample());
    let view = Hexview::new().column_count(8);
    assert_eq!(view.height(&state), 2000 + 1700 + 800 + 3 * 2500);
    let view = view.font_size(1000);
    assert_eq!(view.height(&state), 2000 + 1000 + 800 + 3 * 1800);
    // A font size under the smallest is raised to it.
    let view = view.font_size(0);
    assert_eq!(view.height(&state), 2000 + 100 + 800 + 3 * 900);
}

#[test]
fn events_drive_the_state() {
    let mut state = State::new();
    state.set_bytes(&sample());
    let view = Hexview::new()
        .column_count(8)
        .style(Dark.active())
        .header_font(Font::Default)
        .data_font(Font::Default);
    let over = |column: i32, row: i32| Point {
        x: HEX_X + column * 26 + 1,
        y: FIRST_ROW_Y + row * 2500 + 1,
    };

    // A key without the focus does nothing.
    view.on_event(&mut state, Event::KeyPressed(KeyCode::Right), bounds(), over(0, 0), &Mono);
    assert_eq!(state.cursor(), 0);

    // Press on byte 10 (row 1, column 2), drag to byte 3, release there.
    view.on_event(&mut state, Event::ButtonPressed, bounds(), over(2, 1), &Mono);
    assert_eq!(state.cursor(), 10);
    assert!(state.is_dragging());
    view.on_event(&mut state, Event::CursorMoved, bounds(), over(3, 0), &Mono);
    assert_eq!(state.selection(), Some((3, 10)));
    view.on_event(&mut state, Event::Other, bounds(), over(5, 0), &Mono);
    assert_eq!(state.selection(), Some((3, 10)));
    view.on_event(&mut state, Event::ButtonReleased, bounds(), over(3, 0), &Mono);
    assert!(!state.is_dragging());
    assert!(state.keyboard_focus());
    assert_eq!(state.selection(), Some((3, 10)));

    // Now the keys move the cursor.
    view.on_event(&mut state, Event::KeyPressed(KeyCode::Right), bounds(), over(0, 0), &Mono);
    assert_eq!(state.cursor(), 11);
    view.on_event(&mut state, Event::KeyPressed(KeyCode::End), bounds(), over(0, 0), &Mono);
    assert_eq!(state.cursor(), 15);
    view.on_event(&mut state, Event::KeyPressed(KeyCode::Down), bounds(), over(0, 0), &Mono);
    assert_eq!(state.cursor(), 19);

    // A plain click drops the selection.
    view.on_event(&mut state, Event::ButtonPressed, bounds(), over(1, 0), &Mono);
    view.on_event(&mut state, Event::ButtonReleased, bounds(), over(1, 0), &Mono);
    assert_eq!(state.cursor(), 1);
    assert_eq!(state.selection(), None);

    // A press outside the bounds changes nothing, and its release takes the focus.
    let outside = Point { x: 0, y: 0 };
    view.on_event(&mut state, Event::ButtonPressed, bounds(), outside, &Mono);
    assert_eq!(state.cursor(), 1);
    assert!(!state.is_dragging());
    view.on_event(&mut state, Event::ButtonReleased, bounds(), outside, &Mono);
    assert!(!state.keyboard_focus());
}

#[test]
fn dragging_past_the_last_column_selects_to_the_end_of_the_row() {
    let mut state = State::new();
    state.set_bytes(&sample());
    let view = Hexview::new().column_count(8);
    let press = Point { x: HEX_X + 2 * 26 + 1, y: FIRST_ROW_Y + 1 };
    view.on_event(&mut state, Event::ButtonPressed, bounds(), press, &Mono);
    assert_eq!(state.cursor(), 2);
    let behind = Point { x: HEX_X + 8 * 20 + 7 * 6 + 2, y: FIRST_ROW_Y + 1 };
    view.on_event(&mut state, Event::CursorMoved, bounds(), behind, &Mono);
    assert_eq!(state.selection(), Some((2, 8)));
}

#[test]
fn scene_frame() {
    let s = scene(&Light.active(), 0, None, false);
    assert_eq!(
        s.metrics,
        Metrics { offset_width: 80, hex_width: 202, ascii_width: 80, pair_width: 0, space_width: 0 }
    );
    assert_eq!(
        s.back,
        Quad {
            bounds: Area { x: 100, y: 200, width: 50_000, height: 30_000 },
            paint: Paint::Background,
        }
    );
    assert_eq!(
        s.offset_separator,
        Quad {
            bounds: Area { x: 100 + 1000 + 80 + 1000, y: 1200, width: 50, height: 28_000 },
            paint: Paint::Line,
        }
    );
    assert_eq!(
        s.bytes_separator,
        Quad {
            bounds: Area { x: 3180 + 202 + 1000, y: 1200, width: 50, height: 28_000 },
            paint: Paint::Line,
        }
    );
    assert_eq!(s.bytes_header.content, "00 01 02 03 04 05 06 07");
    assert_eq!(s.bytes_header.bounds, Area { x: 3180, y: 1200, width: 202, height: 1700 });
    assert_eq!(s.bytes_header.paint, Paint::Offset);
    assert_eq!(s.ascii_columns.content, "01234567");
    assert_eq!(
        s.ascii_columns.bounds,
        Area { x: 3180 + 202 + 2000, y: 1200, width: 80, height: 1700 }
    );
    assert_eq!(s.rows.len(), 3);
    assert_eq!(s.debug, None);
}

#[test]
fn scene_rows_with_highlight() {
    let s = scene(&Light.active(), 0, None, false);
    let row = &s.rows[0];
    assert_eq!(row.offset.content, "00000000");
    assert_eq!(row.offset.bounds, Area { x: 1100, y: 3700, width: 80, height: 1700 });
    assert_eq!(row.offset.paint, Paint::Offset);

    let hex: Vec<(&str, Paint, i64, i64)> = row
        .hex
        .iter()
        .map(|t| (t.content.as_str(), t.paint, t.bounds.x, t.bounds.width))
        .collect();
    assert_eq!(
        hex,
        vec![
            ("41 42 43 44 45 ", Paint::Data, 3180, 130),
            ("01 ", Paint::NonPrintable, 3180 + 130, 26),
            ("47 48", Paint::Data, 3180 + 156, 46),
        ]
    );
    let ascii: Vec<(&str, Paint, i64, i64)> = row
        .ascii
        .iter()
        .map(|t| (t.content.as_str(), t.paint, t.bounds.x, t.bounds.width))
        .collect();
    assert_eq!(
        ascii,
        vec![
            ("ABCDE", Paint::Data, 5382, 50),
            (".", Paint::NonPrintable, 5432, 10),
            ("GH", Paint::Data, 5442, 20),
        ]
    );
    for t in row.hex.iter().chain(row.ascii.iter()) {
        assert_eq!(t.bounds.y, 3700);
        assert_eq!(t.bounds.height, 1700);
        assert_eq!(t.size, 1700);
    }

    assert_eq!(s.rows[1].offset.content, "00000008");
    assert_eq!(s.rows[1].offset.bounds.y, 3700 + 2500);
    assert_eq!(s.rows[2].offset.content, "00000010");
    assert_eq!(s.rows[2].hex.len(), 1);
    assert_eq!(s.rows[2].hex[0].content, "51 52 53 54");
    assert_eq!(s.rows[2].hex[0].bounds.y, 3700 + 5000);
    assert_eq!(s.rows[2].ascii[0].content, "QRST");
}

#[test]
fn scene_rows_without_highlight() {
    let s = scene(&plain_style(), 0, None, false);
    let row = &s.rows[0];
    assert_eq!(row.hex.len(), 1);
    assert_eq!(row.hex[0].content, "41 42 43 44 45 01 47 48");
    assert_eq!(row.hex[0].paint, Paint::Data);
    assert_eq!(row.hex[0].bounds, Area { x: 3180, y: 3700, width: 202, height: 1700 });
    assert_eq!(row.ascii.len(), 1);
    assert_eq!(row.ascii[0].content, "ABCDE.GH");
}

#[test]
fn scene_test_offset_spreads_the_runs() {
    let s = draw(
        &Mono,
        bounds(),
        Point { x: 0, y: 0 },
        &Light.active(),
        1700,
        8,
        true,
        0,
        7,
        false,
        Font::Default,
        Font::Default,
        &None,
        &sample(),
    );
    let xs: Vec<i64> = s.rows[0].hex.iter().map(|t| t.bounds.x).collect();
    assert_eq!(xs, vec![3180, 3180 + 130 + 7, 3180 + 130 + 7 + 26 + 7]);
}

#[test]
fn scene_cursor_marker() {
    // Byte 10: row 1, column 2.
    let s = scene(&Light.active(), 10, None, false);
    assert_eq!(
        s.cursor,
        Some(Marker {
            bounds: Area {
                x: 3180 + 52,
                y: 3700 + 1200 + 2500,
                width: 20 + CURSOR_PADDING as i64,
                height: CURSOR_HEIGHT as i64,
            },
            pre_width: 52,
            pair_width: 20,
        })
    );
    // A cursor behind the buffer has no marker.
    assert_eq!(scene(&Light.active(), 20, None, false).cursor, None);
}

#[test]
fn cursor_marker_formula() {
    let metrics =
        Metrics { offset_width: 80, hex_width: 202, ascii_width: 80, pair_width: 0, space_width: 0 };
    assert_eq!(
        cursor_marker(bounds(), metrics, 1700, 3, 26, 20),
        Area { x: 100 + 3080 + 26, y: 200 + 3500 + 1200 + 3 * 2500, width: 420, height: 600 }
    );
}

#[test]
fn scene_selection_shades() {
    // Bytes 6 to 9 are selected: two in the first row, two in the second.
    let s = scene(&Light.active(), 0, Some((6, 10)), false);
    let (hex, ascii) = s.rows[0].selection.unwrap();
    assert_eq!(
        hex,
        Quad {
            bounds: Area { x: 3180 + 6 * 26, y: 3700, width: 46, height: 1700 },
            paint: Paint::Selection,
        }
    );
    assert_eq!(
        ascii,
        Quad {
            bounds: Area { x: 5382 + 60, y: 3700, width: 20, height: 1700 },
            paint: Paint::Selection,
        }
    );
    let (hex, ascii) = s.rows[1].selection.unwrap();
    assert_eq!(hex.bounds, Area { x: 3180, y: 6200, width: 52, height: 1700 });
    assert_eq!(ascii.bounds, Area { x: 5382, y: 6200, width: 20, height: 1700 });
    assert_eq!(s.rows[2].selection, None);
}

#[test]
fn row_selection_is_the_common_part() {
    assert_eq!(row_selection(&Some((6, 10)), 0, 8), Some((6, 8)));
    assert_eq!(row_selection(&Some((6, 10)), 8, 16), Some((0, 2)));
    assert_eq!(row_selection(&Some((6, 10)), 16, 20), None);
    assert_eq!(row_selection(&Some((0, 100)), 8, 16), Some((0, 8)));
    assert_eq!(row_selection(&Some((8, 8)), 8, 16), None);
    assert_eq!(row_selection(&Some((10, 6)), 0, 16), None);
    assert_eq!(row_selection(&None, 0, 8), None);
}

#[test]
fn scene_debug_overlay() {
    let s = scene(&Light.active(), 0, None, true);
    assert_eq!(
        s.debug,
        Some(Area { x: 1100, y: 3700 + 3 * 2500, width: 40_000, height: 11 * 1700 })
    );
}

#[test]
fn scene_of_an_empty_buffer() {
    let s = draw(
        &Mono,
        bounds(),
        Point { x: 0, y: 0 },
        &Light.active(),
        1700,
        16,
        false,
        0,
        0,
        false,
        Font::Default,
        Font::Default,
        &None,
        &[],
    );
    assert_eq!(s.rows.len(), 0);
    assert_eq!(s.cursor, None);
    assert_eq!(s.bytes_header.content.len(), 47);
}

#[test]
fn view_draws_its_state() {
    let mut state = State::new();
    state.set_bytes(&sample());
    let view = Hexview::new().column_count(8);
    let s = view.draw(&state, &Mono, bounds(), Point { x: 0, y: 0 });
    assert_eq!(s.rows.len(), 3);
    assert_eq!(s.rows[0].hex.len(), 3);
    assert_eq!(s.cursor.unwrap().pre_width, 0);
}
