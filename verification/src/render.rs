//! What the view asks of a renderer, and the measuring it does through it.

use crate::geometry::Point;
use crate::geometry::Rectangle;
use crate::geometry::Size;
use crate::hit::hit_of;
use crate::hit::hit_test;
use crate::hit::lift;
use crate::layout::Metrics;
use crate::text::ascii_header;
use crate::text::ascii_header_text;
use crate::text::bytes_header;
use crate::text::column_indices;
use crate::text::hex_text;
use iced_native::Font;
use vstd::prelude::*;

verus! {

/// `iced_native::Font`, a handle to a font. The view hands it on to the
/// renderer and never looks inside.
#[verifier::external_type_specification]
#[verifier::external_body]
pub struct ExFont(Font);

/// The font that `iced_native` calls the default one, `Font::Default`.
/// Nothing is claimed of it.
#[verifier::external_body]
pub(crate) fn default_font() -> (font: Font) {
    Font::Default
}

/// The text that the width of an offset label is measured on.
pub const OFFSET_REFERENCE: &'static str = "00000000";

/// The text that the width of a hex pair is measured on.
pub const PAIR_REFERENCE: &'static str = "FF";

/// The text that the width of a space is measured on.
pub const SPACE_REFERENCE: &'static str = " ";

/// A renderer that can tell how large a text comes out.
pub trait Renderer {
    /// The width and height of `content` set in `font` at `size`, with
    /// `bounds` as the room available. Lengths are in hundredths of a pixel.
    fn measure(&self, content: &str, size: u32, font: Font, bounds: Size) -> (u32, u32);
}

/// Whether `width` is a width that the renderer reports for `text` set in
/// `font` at `size` with `bounds` as the room available.
pub open spec fn measures<R: Renderer>(
    renderer: &R,
    text: Seq<char>,
    size: u32,
    font: Font,
    bounds: Size,
    width: u32,
) -> bool {
    exists|content: &str, height: u32|
        content@ == text && #[trigger] call_ensures(
            R::measure,
            (renderer, content, size, font, bounds),
            (width, height),
        )
}

/// Whether the widths in `metrics` that the hit test goes by are widths
/// that the renderer reports: of the reference offset label, of the heading
/// of the hex block, of a pair and of a space.
pub open spec fn columns_measured<R: Renderer>(
    renderer: &R,
    metrics: Metrics,
    font: Font,
    size: u32,
    bounds: Size,
    column_count: int,
) -> bool {
    &&& measures(renderer, OFFSET_REFERENCE@, size, font, bounds, metrics.offset_width)
    &&& measures(
        renderer,
        hex_text(column_indices(column_count)),
        size,
        font,
        bounds,
        metrics.hex_width,
    )
    &&& measures(renderer, PAIR_REFERENCE@, size, font, bounds, metrics.pair_width)
    &&& measures(renderer, SPACE_REFERENCE@, size, font, bounds, metrics.space_width)
    &&& metrics.ascii_width == 0
}

/// Whether the widths in `metrics` that the blocks are laid out by are
/// widths that the renderer reports: of the reference offset label and of
/// the headings of the hex block and of the ASCII block.
pub open spec fn headers_measured<R: Renderer>(
    renderer: &R,
    metrics: Metrics,
    font: Font,
    size: u32,
    bounds: Size,
    column_count: int,
) -> bool {
    &&& measures(renderer, OFFSET_REFERENCE@, size, font, bounds, metrics.offset_width)
    &&& measures(
        renderer,
        hex_text(column_indices(column_count)),
        size,
        font,
        bounds,
        metrics.hex_width,
    )
    &&& measures(
        renderer,
        ascii_header_text(column_count),
        size,
        font,
        bounds,
        metrics.ascii_width,
    )
    &&& metrics.pair_width == 0
    &&& metrics.space_width == 0
}

/// Has the renderer measure a text, and hands on the width.
pub fn width_of<R: Renderer>(renderer: &R, content: &str, size: u32, font: Font, bounds: Size) -> (width:
    u32)
    ensures
        measures(renderer, content@, size, font, bounds, width),
{
    let r = renderer.measure(content, size, font, bounds);
    assert(call_ensures(R::measure, (renderer, content, size, font, bounds), (r.0, r.1)));
    r.0
}

/// Measures what the hit test needs: the offset label, the heading of the
/// hex block, a pair and a space.
pub fn measure_columns<R: Renderer>(
    renderer: &R,
    font: Font,
    size: u32,
    bounds: Size,
    column_count: usize,
) -> (metrics: Metrics)
    ensures
        columns_measured(renderer, metrics, font, size, bounds, column_count as int),
{
    let header = bytes_header(column_count);
    Metrics {
        offset_width: width_of(renderer, OFFSET_REFERENCE, size, font, bounds),
        hex_width: width_of(renderer, header.as_str(), size, font, bounds),
        ascii_width: 0,
        pair_width: width_of(renderer, PAIR_REFERENCE, size, font, bounds),
        space_width: width_of(renderer, SPACE_REFERENCE, size, font, bounds),
    }
}

/// Measures the headings of the view: the offset label and the headings of
/// the hex block and of the ASCII block.
pub fn measure_headers<R: Renderer>(
    renderer: &R,
    font: Font,
    size: u32,
    bounds: Size,
    column_count: usize,
) -> (metrics: Metrics)
    ensures
        headers_measured(renderer, metrics, font, size, bounds, column_count as int),
{
    let header = bytes_header(column_count);
    let columns = ascii_header(column_count);
    Metrics {
        offset_width: width_of(renderer, OFFSET_REFERENCE, size, font, bounds),
        hex_width: width_of(renderer, header.as_str(), size, font, bounds),
        ascii_width: width_of(renderer, columns.as_str(), size, font, bounds),
        pair_width: 0,
        space_width: 0,
    }
}

/// Finds the offset of the byte under `cursor_position`. The renderer
/// measures the offset label, the heading of the hex block, a pair and a
/// space in `font` at `size`; the result is the hit in the layout that
/// follows from the widths it reports.
pub fn cursor_offset<R: Renderer>(
    renderer: &R,
    bounds: Rectangle,
    cursor_position: Point,
    font: Font,
    size: u32,
    column_count: usize,
    extend_line: bool,
    bytes: &[u8],
) -> (hit: Option<usize>)
    requires
        column_count >= 1,
    ensures
        exists|metrics: Metrics|
            #[trigger] columns_measured(
                renderer,
                metrics,
                font,
                size,
                bounds.size_of(),
                column_count as int,
            ) && lift(hit) == hit_of(
                bounds,
                cursor_position,
                metrics,
                size,
                column_count as int,
                extend_line,
                bytes@.len() as int,
            ),
        hit matches Some(index) ==> index <= bytes@.len() && (!extend_line ==> index
            < bytes@.len()),
{
    let metrics = measure_columns(renderer, font, size, bounds.size(), column_count);
    hit_test(bounds, cursor_position, metrics, size, column_count, extend_line, bytes.len())
}

} // verus!
