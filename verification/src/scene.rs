//! What the view hands to the renderer to draw: rectangles and runs of text
//! at their places.

use crate::geometry::clip;
use crate::geometry::Area;
use crate::geometry::Point;
use crate::geometry::Rectangle;
use crate::geometry::Size;
use crate::geometry::LINE_SPACING;
use crate::geometry::MARGIN;
use crate::hit::lift_pair;
use crate::layout::layout;
use crate::layout::layout_of;
use crate::layout::lemma_row_bounds;
use crate::layout::row_count;
use crate::layout::row_end;
use crate::layout::row_range;
use crate::layout::row_start;
use crate::layout::rows_below;
use crate::layout::rows_of;
use crate::layout::Metrics;
use crate::layout::RowLayout;
use crate::render::headers_measured;
use crate::render::measure_headers;
use crate::render::measures;
use crate::render::width_of;
use crate::render::Renderer;
use crate::span::kinds_of;
use crate::span::partitions;
use crate::span::row_spans;
use crate::span::segment_row;
use crate::span::LineSpan;
use crate::span::SpanType;
use crate::span::TextKind;
use crate::style::Style;
use crate::text::ascii_header;
use crate::text::ascii_header_text;
use crate::text::ascii_text;
use crate::text::bytes_header;
use crate::text::column_indices;
use crate::text::hex_len;
use crate::text::hex_row;
use crate::text::hex_text;
use crate::text::offset_label;
use crate::text::offset_label_text;
use crate::util::offsets_intersect;
use std::ops::Range;
use iced_native::Font;
use vstd::prelude::*;
use vstd::string::StringExecFns;
use vstd::utf8::is_ascii_chars;

verus! {

/// Which color of the style a piece of the scene is drawn in.
#[derive(Clone, Copy, Debug, PartialEq, Eq, Structural)]
pub enum Paint {
    /// The background of the view.
    Background,
    /// The separators between the blocks.
    Line,
    /// Offsets and headings.
    Offset,
    /// Printable bytes.
    Data,
    /// Non-printable bytes.
    NonPrintable,
    /// The cursor marker.
    Cursor,
    /// The shade over selected bytes.
    Selection,
}

/// A filled rectangle.
#[derive(Clone, Copy, Debug, PartialEq, Eq, Structural)]
pub struct Quad {
    pub bounds: Area,
    pub paint: Paint,
}

/// A run of text at its place.
#[derive(Debug)]
pub struct Text {
    pub content: String,
    pub bounds: Area,
    pub paint: Paint,
    pub font: Font,
    pub size: u32,
}

/// The color that a span of a kind is drawn in.
pub open spec fn paint_of(ty: SpanType) -> Paint {
    match ty {
        SpanType::Printable => Paint::Data,
        SpanType::NonPrintable => Paint::NonPrintable,
    }
}

/// The left edge of run `j` in a row of runs that starts at `x0`: each run
/// starts where the one before it ends, `step` further to the right.
pub open spec fn run_x(runs: Seq<Text>, x0: int, step: int, j: int) -> int
    decreases j,
{
    if j <= 0 {
        x0
    } else {
        run_x(runs, x0, step, j - 1) + runs[j - 1].bounds.width + step
    }
}

/// Whether `runs` are the spans of `text` set one after the other from
/// `x0` on at height `y`: one run for each span, with the span's slice of
/// the text, in the color of the span's kind, as wide as it was measured.
pub open spec fn runs_ok<R: Renderer>(
    renderer: &R,
    runs: Seq<Text>,
    text: Seq<char>,
    spans: Seq<LineSpan>,
    x0: int,
    y: i64,
    step: int,
    size: u32,
    font: Font,
    bounds: Size,
) -> bool {
    &&& runs.len() == spans.len()
    &&& forall|j: int|
        0 <= j < runs.len() ==> {
            &&& (#[trigger] runs[j]).content@ == text.subrange(
                spans[j].start as int,
                spans[j].end as int,
            )
            &&& runs[j].paint == paint_of(spans[j].ty)
            &&& runs[j].font == font
            &&& runs[j].size == size
            &&& runs[j].bounds.x == run_x(runs, x0, step, j)
            &&& runs[j].bounds.y == y
            &&& 0 <= runs[j].bounds.width <= u32::MAX
            &&& measures(
                renderer,
                runs[j].content@,
                size,
                font,
                bounds,
                runs[j].bounds.width as u32,
            )
            &&& runs[j].bounds.height == size
        }
}

/// The color for a span of a kind.
pub fn span_paint(ty: SpanType) -> (p: Paint)
    ensures
        p == paint_of(ty),
{
    match ty {
        SpanType::Printable => Paint::Data,
        SpanType::NonPrintable => Paint::NonPrintable,
    }
}

/// Sets the spans of a row's text one after the other, each as wide as the
/// renderer measures its slice, with `step` between one and the next.
fn place_runs<R: Renderer>(
    renderer: &R,
    text: &String,
    spans: &Vec<LineSpan>,
    x0: i64,
    y: i64,
    step: i32,
    size: u32,
    font: Font,
    bounds: Size,
) -> (runs: Vec<Text>)
    requires
        is_ascii_chars(text@),
        partitions(spans@, text@.len() as int),
        spans@.len() <= 32,
        -0x100_0000_0000 <= x0 <= 0x100_0000_0000,
    ensures
        runs_ok(renderer, runs@, text@, spans@, x0 as int, y, step as int, size, font, bounds),
{
    let mut runs: Vec<Text> = Vec::new();
    let mut x: i64 = x0;
    let n = spans.len();
    let mut j: usize = 0;
    while j < n
        invariant
            n == spans@.len(),
            n <= 32,
            j <= n,
            is_ascii_chars(text@),
            partitions(spans@, text@.len() as int),
            -0x100_0000_0000 <= x0 <= 0x100_0000_0000,
            runs@.len() == j,
            x == run_x(runs@, x0 as int, step as int, j as int),
            x0 - j * 0x1_0000_0000 <= x <= x0 + j * 0x2_0000_0000,
            forall|k: int|
                0 <= k < j ==> {
                    &&& (#[trigger] runs@[k]).content@ == text@.subrange(
                        spans@[k].start as int,
                        spans@[k].end as int,
                    )
                    &&& runs@[k].paint == paint_of(spans@[k].ty)
                    &&& runs@[k].font == font
                    &&& runs@[k].size == size
                    &&& runs@[k].bounds.x == run_x(runs@, x0 as int, step as int, k)
                    &&& runs@[k].bounds.y == y
                    &&& 0 <= runs@[k].bounds.width <= u32::MAX
                    &&& measures(
                        renderer,
                        runs@[k].content@,
                        size,
                        font,
                        bounds,
                        runs@[k].bounds.width as u32,
                    )
                    &&& runs@[k].bounds.height == size
                },
        decreases n - j,
    {
        let span = spans[j];
        proof {
            crate::span::lemma_span_bounds(spans@, text@.len() as int, j as int);
        }
        let slice = text.as_str().substring_ascii(span.start, span.end);
        let content = String::from_str(slice);
        let width = width_of(renderer, content.as_str(), size, font, bounds);
        let ghost before = runs@;
        runs.push(
            Text {
                content,
                bounds: Area { x, y, width: width as i64, height: size as i64 },
                paint: span_paint(span.ty),
                font,
                size,
            },
        );
        proof {
            assert forall|k: int| 0 <= k <= j implies run_x(runs@, x0 as int, step as int, k)
                == run_x(before, x0 as int, step as int, k) by {
                lemma_run_x_prefix(before, runs@, x0 as int, step as int, k);
            }
            assert(run_x(runs@, x0 as int, step as int, j + 1) == x + width + step);
        }
        x = x + width as i64 + step as i64;
        j = j + 1;
    }
    runs
}

/// The left edge of a run depends on the runs before it alone.
pub proof fn lemma_run_x_prefix(a: Seq<Text>, b: Seq<Text>, x0: int, step: int, k: int)
    requires
        0 <= k <= a.len() <= b.len(),
        forall|i: int| 0 <= i < a.len() ==> a[i] == b[i],
    ensures
        run_x(a, x0, step, k) == run_x(b, x0, step, k),
    decreases k,
{
    if k > 0 {
        lemma_run_x_prefix(a, b, x0, step, k - 1);
    }
}

/// How much wider than a pair the cursor marker is.
pub const CURSOR_PADDING: u32 = 400;

/// How far under the top edge of its row the cursor marker lies.
pub const CURSOR_DROP: u32 = 1200;

/// The height of the cursor marker.
pub const CURSOR_HEIGHT: u32 = 600;

/// The width of the separators between the blocks.
pub const SEPARATOR_WIDTH: u32 = 50;

/// The width reserved for the debug overlay.
pub const DEBUG_WIDTH: u32 = 40000;

/// The number of lines of the debug overlay.
pub const DEBUG_LINES: u32 = 11;

/// The cursor marker, with the two widths it was placed by.
#[derive(Clone, Copy, Debug, PartialEq, Eq, Structural)]
pub struct Marker {
    /// Where the marker lies.
    pub bounds: Area,
    /// The measured width of the row's hex text before the cursor's pair.
    pub pre_width: u32,
    /// The measured width of the cursor's pair.
    pub pair_width: u32,
}

/// One row of the view.
#[derive(Debug)]
pub struct Row {
    /// The label with the offset of the row's first byte.
    pub offset: Text,
    /// The runs of the hex text.
    pub hex: Vec<Text>,
    /// The runs of the ASCII mirror.
    pub ascii: Vec<Text>,
    /// The shades over the selected bytes of the row, in the hex block and
    /// in the ASCII block, where some are selected.
    pub selection: Option<(Quad, Quad)>,
}

/// All that is drawn of a view.
#[derive(Debug)]
pub struct Scene {
    /// The widths that the headings were measured at.
    pub metrics: Metrics,
    /// The background.
    pub back: Quad,
    /// The line between the offsets and the hex block.
    pub offset_separator: Quad,
    /// The line between the hex block and the ASCII block.
    pub bytes_separator: Quad,
    /// The heading of the hex block.
    pub bytes_header: Text,
    /// The heading of the ASCII block.
    pub ascii_columns: Text,
    /// The rows, from the top.
    pub rows: Vec<Row>,
    /// The cursor marker, where the cursor is on a byte.
    pub cursor: Option<Marker>,
    /// The place of the debug overlay, where it is switched on.
    pub debug: Option<Area>,
}

/// The part of a row that is selected, as offsets from the row's first
/// byte: what the selection and the row `[lower, upper)` have in common, or
/// `None` where that is nothing.
pub open spec fn selected_in_row(selection: Option<(int, int)>, lower: int, upper: int)
    -> Option<(int, int)> {
    match selection {
        None => None,
        Some((start, end)) => {
            let from = if start > lower {
                start
            } else {
                lower
            };
            let to = if end < upper {
                end
            } else {
                upper
            };
            if from < to {
                Some((from - lower, to - lower))
            } else {
                None
            }
        },
    }
}

/// Finds the part of the row `[lower, upper)` that is selected.
pub fn row_selection(selection: &Option<(usize, usize)>, lower: usize, upper: usize) -> (r:
    Option<(usize, usize)>)
    requires
        lower <= upper,
    ensures
        lift_pair(r) == selected_in_row(lift_pair(*selection), lower as int, upper as int),
        r matches Some((from, to)) ==> from < to <= upper - lower,
{
    match selection {
        Some((start, end)) => {
            let row: Range<usize> = Range { start: lower, end: upper };
            let chosen: Range<usize> = Range { start: *start, end: *end };
            let common = offsets_intersect(row, chosen);
            if common.start < common.end {
                let from = common.start - lower;
                Some((from, from + (common.end - common.start)))
            } else {
                None
            }
        },
        None => None,
    }
}

/// Whether a shade covers the slice `[from, to)` of a row's text that
/// starts at `x0`: it starts to the right of `x0` by a width that the
/// renderer reports for the text before the slice, is as wide as the
/// renderer reports the slice, lies at height `y` and is as high as the font.
pub open spec fn shade_ok<R: Renderer>(
    renderer: &R,
    q: Quad,
    text: Seq<char>,
    from: int,
    to: int,
    x0: int,
    y: i64,
    size: u32,
    font: Font,
    bounds: Size,
) -> bool {
    &&& q.paint == Paint::Selection
    &&& exists|before: u32|
        #[trigger] measures(renderer, text.subrange(0, from), size, font, bounds, before)
            && q.bounds.x == x0 + before
    &&& q.bounds.y == y
    &&& 0 <= q.bounds.width <= u32::MAX
    &&& measures(renderer, text.subrange(from, to), size, font, bounds, q.bounds.width as u32)
    &&& q.bounds.height == size
}

/// The end in a row's hex text of the characters of the bytes before byte
/// `to`: three characters a byte, as far as the text goes.
pub open spec fn hex_slice_end(to: int, len: int) -> int {
    if 3 * to < len {
        3 * to
    } else {
        len
    }
}

/// Whether the shades of a row are there exactly where part of the row is
/// selected, the first over the selected bytes in the hex text and the
/// second over the same bytes in the ASCII mirror.
pub open spec fn selection_ok<R: Renderer>(
    renderer: &R,
    shades: Option<(Quad, Quad)>,
    selected: Option<(int, int)>,
    hex: Seq<char>,
    ascii: Seq<char>,
    hex_x0: int,
    ascii_x0: int,
    y: i64,
    size: u32,
    font: Font,
    bounds: Size,
) -> bool {
    match (shades, selected) {
        (Some((over_hex, over_ascii)), Some((from, to))) => {
            &&& shade_ok(
                renderer,
                over_hex,
                hex,
                3 * from,
                hex_slice_end(to, hex.len() as int),
                hex_x0,
                y,
                size,
                font,
                bounds,
            )
            &&& shade_ok(
                renderer,
                over_ascii,
                ascii,
                from,
                to,
                ascii_x0,
                y,
                size,
                font,
                bounds,
            )
        },
        (None, None) => true,
        _ => false,
    }
}

/// Measures the slice `[from, to)` of an ASCII text.
fn slice_width<R: Renderer>(
    renderer: &R,
    text: &String,
    from: usize,
    to: usize,
    size: u32,
    font: Font,
    bounds: Size,
) -> (w: u32)
    requires
        is_ascii_chars(text@),
        from <= to <= text@.len(),
    ensures
        measures(renderer, text@.subrange(from as int, to as int), size, font, bounds, w),
{
    let slice = text.as_str().substring_ascii(from, to);
    width_of(renderer, slice, size, font, bounds)
}

/// Places one shade over the slice `[from, to)` of a row's text.
fn shade<R: Renderer>(
    renderer: &R,
    text: &String,
    from: usize,
    to: usize,
    x0: i64,
    y: i64,
    size: u32,
    font: Font,
    bounds: Size,
) -> (q: Quad)
    requires
        is_ascii_chars(text@),
        from <= to <= text@.len(),
        -0x100_0000_0000 <= x0 <= 0x100_0000_0000,
    ensures
        shade_ok(renderer, q, text@, from as int, to as int, x0 as int, y, size, font, bounds),
{
    let before = slice_width(renderer, text, 0, from, size, font, bounds);
    let width = slice_width(renderer, text, from, to, size, font, bounds);
    Quad {
        bounds: Area { x: x0 + before as i64, y, width: width as i64, height: size as i64 },
        paint: Paint::Selection,
    }
}

/// Places the shades over the bytes `[from, to)` of a row. In the hex text
/// a byte takes three characters, as far as the text goes.
fn selection_quads<R: Renderer>(
    renderer: &R,
    hex: &String,
    ascii: &String,
    from: usize,
    to: usize,
    hex_x0: i64,
    ascii_x0: i64,
    y: i64,
    size: u32,
    font: Font,
    bounds: Size,
) -> (shades: (Quad, Quad))
    requires
        is_ascii_chars(hex@),
        is_ascii_chars(ascii@),
        hex@.len() == hex_len(ascii@.len() as int),
        from < to <= ascii@.len() <= 32,
        -0x100_0000_0000 <= hex_x0 <= 0x100_0000_0000,
        -0x100_0000_0000 <= ascii_x0 <= 0x100_0000_0000,
    ensures
        selection_ok(
            renderer,
            Some(shades),
            Some((from as int, to as int)),
            hex@,
            ascii@,
            hex_x0 as int,
            ascii_x0 as int,
            y,
            size,
            font,
            bounds,
        ),
{
    let hex_total = hex.as_str().unicode_len();
    let hex_to = if to * 3 < hex_total {
        to * 3
    } else {
        hex_total
    };
    (
        shade(renderer, hex, from * 3, hex_to, hex_x0, y, size, font, bounds),
        shade(renderer, ascii, from, to, ascii_x0, y, size, font, bounds),
    )
}

/// Where the cursor marker lies for a cursor in row `row`: it starts at
/// the left edge of the hex block plus the width of the text before the
/// cursor's pair, is wider than the pair by the padding, and lies a fixed
/// drop under the top edge of the row.
pub open spec fn marker_of(
    bounds: Rectangle,
    l: RowLayout,
    row: int,
    pre_width: u32,
    pair_width: u32,
) -> Area {
    Area {
        x: (bounds.x + l.hex_x + pre_width) as i64,
        y: clip(bounds.y + l.first_row_y + CURSOR_DROP + row * l.row_height),
        width: (pair_width + CURSOR_PADDING) as i64,
        height: CURSOR_HEIGHT as i64,
    }
}

/// Places the cursor marker from the two measured widths.
pub fn cursor_marker(
    bounds: Rectangle,
    metrics: Metrics,
    font_size: u32,
    row: usize,
    pre_width: u32,
    pair_width: u32,
) -> (area: Area)
    ensures
        forall|rows: int|
            area == marker_of(
                bounds,
                #[trigger] layout_of(metrics, font_size, rows),
                row as int,
                pre_width,
                pair_width,
            ),
{
    let hex_x: i64 = MARGIN as i64 + metrics.offset_width as i64 + 2 * (MARGIN as i64);
    let top: i64 = bounds.y as i64 + MARGIN as i64 + font_size as i64 + LINE_SPACING as i64
        + CURSOR_DROP as i64;
    Area {
        x: bounds.x as i64 + hex_x + pre_width as i64,
        y: rows_below(top, row, font_size),
        width: pair_width as i64 + CURSOR_PADDING as i64,
        height: CURSOR_HEIGHT as i64,
    }
}

/// Whether `mk` marks the cursor: it lies where the two widths it holds
/// put it, and these are widths that the renderer reports for the hex text
/// of the cursor's row before the cursor's pair, and for the pair.
pub open spec fn marker_ok<R: Renderer>(
    renderer: &R,
    mk: Marker,
    bounds: Rectangle,
    l: RowLayout,
    size: u32,
    column_count: int,
    cursor: int,
    font: Font,
    data: Seq<u8>,
) -> bool {
    let row = cursor / column_count;
    let column = cursor % column_count;
    let hex = hex_text(
        data.subrange(
            row_start(column_count, row),
            row_end(data.len() as int, column_count, row),
        ),
    );
    &&& mk.bounds == marker_of(bounds, l, row, mk.pre_width, mk.pair_width)
    &&& measures(
        renderer,
        hex.subrange(0, 3 * column),
        size,
        font,
        bounds.size_of(),
        mk.pre_width,
    )
    &&& measures(
        renderer,
        hex.subrange(3 * column, 3 * column + 2),
        size,
        font,
        bounds.size_of(),
        mk.pair_width,
    )
}

/// Whether a text has the given content, place and looks.
pub open spec fn text_ok(t: Text, content: Seq<char>, bounds: Area, paint: Paint, font: Font, size: u32)
    -> bool {
    &&& t.content@ == content
    &&& t.bounds == bounds
    &&& t.paint == paint
    &&& t.font == font
    &&& t.size == size
}

/// The top edge of row `i` of a view.
pub open spec fn row_y(bounds: Rectangle, l: RowLayout, i: int) -> i64 {
    clip(bounds.y + l.first_row_y + i * l.row_height)
}

/// Whether `row` is row `i` of the view of `data` as it is drawn: the label
/// of the row's first offset in the offset field, the runs of its hex text
/// from the left edge of the hex block on, the runs of its ASCII mirror
/// from the left edge of the ASCII block on, and the shades over its
/// selected bytes.
pub open spec fn row_ok<R: Renderer>(
    renderer: &R,
    row: Row,
    i: int,
    bounds: Rectangle,
    metrics: Metrics,
    size: u32,
    column_count: int,
    step: int,
    header_font: Font,
    data_font: Font,
    highlight: bool,
    selection: Option<(int, int)>,
    data: Seq<u8>,
) -> bool {
    let len = data.len() as int;
    let l = layout_of(metrics, size, rows_of(len, column_count));
    let lower = row_start(column_count, i);
    let upper = row_end(len, column_count, i);
    let bytes = data.subrange(lower, upper);
    let kinds = kinds_of(bytes, highlight);
    let y = row_y(bounds, l, i);
    &&& text_ok(
        row.offset,
        offset_label_text(lower),
        Area {
            x: (bounds.x + l.offset_x) as i64,
            y,
            width: metrics.offset_width as i64,
            height: size as i64,
        },
        Paint::Offset,
        header_font,
        size,
    )
    &&& runs_ok(
        renderer,
        row.hex@,
        hex_text(bytes),
        row_spans(kinds, TextKind::Hex),
        bounds.x + l.hex_x,
        y,
        step,
        size,
        data_font,
        bounds.size_of(),
    )
    &&& runs_ok(
        renderer,
        row.ascii@,
        ascii_text(bytes),
        row_spans(kinds, TextKind::Ascii),
        bounds.x + l.ascii_x,
        y,
        step,
        size,
        data_font,
        bounds.size_of(),
    )
    &&& selection_ok(
        renderer,
        row.selection,
        selected_in_row(selection, lower, upper),
        hex_text(bytes),
        ascii_text(bytes),
        bounds.x + l.hex_x,
        bounds.x + l.ascii_x,
        y,
        size,
        data_font,
        bounds.size_of(),
    )
}

/// Draws row `i` of the view.
fn draw_row<R: Renderer>(
    renderer: &R,
    bounds: Rectangle,
    metrics: Metrics,
    size: u32,
    column_count: usize,
    i: usize,
    step: i32,
    header_font: Font,
    data_font: Font,
    highlight: bool,
    selection: &Option<(usize, usize)>,
    data: &[u8],
) -> (row: Row)
    requires
        1 <= column_count <= 32,
        i < rows_of(data@.len() as int, column_count as int),
    ensures
        row_ok(
            renderer,
            row,
            i as int,
            bounds,
            metrics,
            size,
            column_count as int,
            step as int,
            header_font,
            data_font,
            highlight,
            lift_pair(*selection),
            data@,
        ),
{
    let len = data.len();
    let l = layout(metrics, size, len, column_count);
    let range = row_range(len, column_count, i);
    let bytes = vstd::slice::slice_subrange(data, range.start, range.end);
    let y = rows_below(bounds.y as i64 + l.first_row_y, i, size);
    let text = segment_row(bytes, highlight);
    proof {
        let kinds = kinds_of(bytes@, highlight);
        crate::span::lemma_row_spans_partition(kinds, TextKind::Hex);
        crate::span::lemma_row_spans_partition(kinds, TextKind::Ascii);
        crate::text::lemma_hex_text_ascii(bytes@);
        crate::text::lemma_ascii_text_ascii(bytes@);
    }
    let hex_x0 = bounds.x as i64 + l.hex_x;
    let ascii_x0 = bounds.x as i64 + l.ascii_x;
    let size_of_bounds = bounds.size();
    let hex = place_runs(
        renderer,
        &text.hex,
        &text.hex_spans,
        hex_x0,
        y,
        step,
        size,
        data_font,
        size_of_bounds,
    );
    let ascii = place_runs(
        renderer,
        &text.ascii,
        &text.ascii_spans,
        ascii_x0,
        y,
        step,
        size,
        data_font,
        size_of_bounds,
    );
    let shades = match row_selection(selection, range.start, range.end) {
        Some((from, to)) => Some(
            selection_quads(
                renderer,
                &text.hex,
                &text.ascii,
                from,
                to,
                hex_x0,
                ascii_x0,
                y,
                size,
                data_font,
                size_of_bounds,
            ),
        ),
        None => None,
    };
    Row {
        offset: Text {
            content: offset_label(range.start),
            bounds: Area {
                x: bounds.x as i64 + l.offset_x,
                y,
                width: metrics.offset_width as i64,
                height: size as i64,
            },
            paint: Paint::Offset,
            font: header_font,
            size,
        },
        hex,
        ascii,
        selection: shades,
    }
}

/// Whether `scene` is the view of `data` as it is drawn in `bounds`, for
/// the widths of the headings that `scene.metrics` reports: the background
/// over the bounds, a separator a margin left of the hex block and of the
/// ASCII block, the two headings in the heading row, one row for each row of
/// the buffer, the cursor marker in the cursor's row, and the place of the
/// debug overlay under the last row.
pub open spec fn scene_ok<R: Renderer>(
    renderer: &R,
    scene: Scene,
    bounds: Rectangle,
    highlight: bool,
    size: u32,
    column_count: int,
    cursor: int,
    step: int,
    debug_enabled: bool,
    header_font: Font,
    data_font: Font,
    selection: Option<(int, int)>,
    data: Seq<u8>,
) -> bool {
    let len = data.len() as int;
    let rows = rows_of(len, column_count);
    let m = scene.metrics;
    let l = layout_of(m, size, rows);
    &&& headers_measured(renderer, m, header_font, size, bounds.size_of(), column_count)
    &&& scene.back == Quad {
        bounds: Area {
            x: bounds.x as i64,
            y: bounds.y as i64,
            width: bounds.width as i64,
            height: bounds.height as i64,
        },
        paint: Paint::Background,
    }
    &&& scene.offset_separator == Quad {
        bounds: Area {
            x: (bounds.x + l.hex_x - MARGIN) as i64,
            y: (bounds.y + MARGIN) as i64,
            width: SEPARATOR_WIDTH as i64,
            height: (bounds.height - 2 * MARGIN) as i64,
        },
        paint: Paint::Line,
    }
    &&& scene.bytes_separator == Quad {
        bounds: Area {
            x: (bounds.x + l.ascii_x - MARGIN) as i64,
            y: (bounds.y + MARGIN) as i64,
            width: SEPARATOR_WIDTH as i64,
            height: (bounds.height - 2 * MARGIN) as i64,
        },
        paint: Paint::Line,
    }
    &&& text_ok(
        scene.bytes_header,
        hex_text(column_indices(column_count)),
        Area {
            x: (bounds.x + l.hex_x) as i64,
            y: (bounds.y + l.header_y) as i64,
            width: m.hex_width as i64,
            height: size as i64,
        },
        Paint::Offset,
        header_font,
        size,
    )
    &&& text_ok(
        scene.ascii_columns,
        ascii_header_text(column_count),
        Area {
            x: (bounds.x + l.ascii_x) as i64,
            y: (bounds.y + l.header_y) as i64,
            width: m.ascii_width as i64,
            height: size as i64,
        },
        Paint::Offset,
        header_font,
        size,
    )
    &&& scene.rows@.len() == rows
    &&& forall|i: int|
        0 <= i < rows ==> row_ok(
            renderer,
            #[trigger] scene.rows@[i],
            i,
            bounds,
            m,
            size,
            column_count,
            step,
            header_font,
            data_font,
            highlight,
            selection,
            data,
        )
    &&& if 0 <= cursor < len {
        scene.cursor matches Some(mk) && marker_ok(
            renderer,
            mk,
            bounds,
            l,
            size,
            column_count,
            cursor,
            data_font,
            data,
        )
    } else {
        scene.cursor is None
    }
    &&& if debug_enabled {
        scene.debug == Some(
            Area {
                x: (bounds.x + MARGIN) as i64,
                y: row_y(bounds, l, rows),
                width: DEBUG_WIDTH as i64,
                height: (size * DEBUG_LINES) as i64,
            },
        )
    } else {
        scene.debug is None
    }
}

/// The row of a cursor on a byte is a row of the buffer, and the cursor
/// lies in it.
pub proof fn lemma_cursor_row(cursor: int, len: int, column_count: int)
    requires
        0 <= cursor < len,
        column_count >= 1,
    ensures
        0 <= cursor / column_count < rows_of(len, column_count),
        row_start(column_count, cursor / column_count) <= cursor < row_end(
            len,
            column_count,
            cursor / column_count,
        ),
        cursor % column_count == cursor - row_start(column_count, cursor / column_count),
{
    let q = cursor / column_count;
    let rows = rows_of(len, column_count);
    crate::layout::lemma_rows_of(len, column_count);
    vstd::arithmetic::div_mod::lemma_fundamental_div_mod(cursor, column_count);
    assert(cursor == column_count * q + cursor % column_count);
    assert(0 <= q < rows) by (nonlinear_arith)
        requires
            cursor == column_count * q + cursor % column_count,
            0 <= cursor % column_count < column_count,
            0 <= cursor < len,
            len <= rows * column_count,
            column_count >= 1,
    ;
    assert(q * column_count == column_count * q) by (nonlinear_arith);
    assert((q + 1) * column_count == column_count * q + column_count) by (nonlinear_arith);
}

/// Draws the view of `data`.
///
/// The renderer measures the headings in `header_font` and the spans, the
/// selected text and the text at the cursor in `data_font`. Non-printable
/// bytes are set off where the style has a color for them.
pub fn draw<R: Renderer>(
    renderer: &R,
    bounds: Rectangle,
    _cursor_position: Point,
    style: &Style,
    text_size: u32,
    column_count: usize,
    _keyboard_focus: bool,
    cursor: usize,
    test_offset: i32,
    debug_enabled: bool,
    header_font: Font,
    data_font: Font,
    selection: &Option<(usize, usize)>,
    data: &[u8],
) -> (scene: Scene)
    requires
        1 <= column_count <= 32,
    ensures
        scene_ok(
            renderer,
            scene,
            bounds,
            style.non_printable_color is Some,
            text_size,
            column_count as int,
            cursor as int,
            test_offset as int,
            debug_enabled,
            header_font,
            data_font,
            lift_pair(*selection),
            data@,
        ),
{
    let highlight = style.highlights();
    let len = data.len();
    let line_count = row_count(len, column_count);
    let size_of_bounds = bounds.size();
    let metrics = measure_headers(renderer, header_font, text_size, size_of_bounds, column_count);
    let l = layout(metrics, text_size, len, column_count);
    let left: i64 = bounds.x as i64;
    let top: i64 = bounds.y as i64;
    let separator_height: i64 = bounds.height as i64 - 2 * (MARGIN as i64);

    let mut rows: Vec<Row> = Vec::new();
    let mut i: usize = 0;
    while i < line_count
        invariant
            1 <= column_count <= 32,
            line_count == rows_of(data@.len() as int, column_count as int),
            i <= line_count,
            rows@.len() == i,
            forall|k: int|
                0 <= k < i ==> row_ok(
                    renderer,
                    #[trigger] rows@[k],
                    k,
                    bounds,
                    metrics,
                    text_size,
                    column_count as int,
                    test_offset as int,
                    header_font,
                    data_font,
                    highlight,
                    lift_pair(*selection),
                    data@,
                ),
        decreases line_count - i,
    {
        let row = draw_row(
            renderer,
            bounds,
            metrics,
            text_size,
            column_count,
            i,
            test_offset,
            header_font,
            data_font,
            highlight,
            selection,
            data,
        );
        rows.push(row);
        i = i + 1;
    }

    let marker = if cursor < len {
        proof {
            lemma_cursor_row(cursor as int, len as int, column_count as int);
            lemma_row_bounds(len as int, column_count as int, cursor as int / column_count as int);
        }
        let line = cursor / column_count;
        let line_offset = cursor % column_count;
        let range = row_range(len, column_count, line);
        let line_str = hex_row(vstd::slice::slice_subrange(data, range.start, range.end));
        proof {
            crate::text::lemma_hex_text_ascii(data@.subrange(range.start as int, range.end as int));
        }
        let pre_width = slice_width(
            renderer,
            &line_str,
            0,
            line_offset * 3,
            text_size,
            data_font,
            size_of_bounds,
        );
        let pair_width = slice_width(
            renderer,
            &line_str,
            line_offset * 3,
            line_offset * 3 + 2,
            text_size,
            data_font,
            size_of_bounds,
        );
        Some(
            Marker {
                bounds: cursor_marker(bounds, metrics, text_size, line, pre_width, pair_width),
                pre_width,
                pair_width,
            },
        )
    } else {
        None
    };

    let debug = if debug_enabled {
        assert(text_size * DEBUG_LINES == text_size * 11);
        Some(
            Area {
                x: left + MARGIN as i64,
                y: rows_below(top + l.first_row_y, line_count, text_size),
                width: DEBUG_WIDTH as i64,
                height: text_size as i64 * DEBUG_LINES as i64,
            },
        )
    } else {
        None
    };

    Scene {
        metrics,
        back: Quad {
            bounds: Area {
                x: left,
                y: top,
                width: bounds.width as i64,
                height: bounds.height as i64,
            },
            paint: Paint::Background,
        },
        offset_separator: Quad {
            bounds: Area {
                x: left + l.hex_x - MARGIN as i64,
                y: top + MARGIN as i64,
                width: SEPARATOR_WIDTH as i64,
                height: separator_height,
            },
            paint: Paint::Line,
        },
        bytes_separator: Quad {
            bounds: Area {
                x: left + l.ascii_x - MARGIN as i64,
                y: top + MARGIN as i64,
                width: SEPARATOR_WIDTH as i64,
                height: separator_height,
            },
            paint: Paint::Line,
        },
        bytes_header: Text {
            content: bytes_header(column_count),
            bounds: Area {
                x: left + l.hex_x,
                y: top + l.header_y,
                width: metrics.hex_width as i64,
                height: text_size as i64,
            },
            paint: Paint::Offset,
            font: header_font,
            size: text_size,
        },
        ascii_columns: Text {
            content: ascii_header(column_count),
            bounds: Area {
                x: left + l.ascii_x,
                y: top + l.header_y,
                width: metrics.ascii_width as i64,
                height: text_size as i64,
            },
            paint: Paint::Offset,
            font: header_font,
            size: text_size,
        },
        rows,
        cursor: marker,
        debug,
    }
}

} // verus!
