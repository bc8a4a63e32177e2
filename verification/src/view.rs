//! The view: its settings, and how it answers events.

use crate::geometry::Point;
use crate::geometry::Rectangle;
use crate::hit::hit_of;
use crate::hit::lift;
use crate::layout::content_height;
use crate::layout::height_of;
use crate::layout::Metrics;
use crate::render::columns_measured;
use crate::render::cursor_offset;
use crate::render::default_font;
use crate::render::Renderer;
use crate::scene::draw;
use crate::scene::scene_ok;
use crate::scene::Scene;
use crate::state::dragged;
use crate::state::keyed;
use crate::state::pressed;
use crate::state::released;
use crate::state::KeyCode;
use crate::state::Model;
use crate::state::State;
use crate::style::light_palette;
use crate::style::Light;
use crate::style::Style;
use crate::style::StyleSheet;
use crate::util::clamp;
use iced_native::Font;
use vstd::prelude::*;

verus! {

/// The font size of a new view: 17 pixels.
pub const DEFAULT_FONT_SIZE: u32 = 1700;

/// The smallest font size a view takes: 1 pixel.
pub const MIN_FONT_SIZE: u32 = 100;

/// The number of columns of a new view.
pub const DEFAULT_COLUMNS: u8 = 16;

/// The largest number of columns a view takes.
pub const MAX_COLUMNS: u8 = 32;

/// What the host reports to the view.
#[derive(Clone, Copy, Debug, PartialEq, Eq, Structural)]
pub enum Event {
    /// The left pointer button went down.
    ButtonPressed,
    /// The left pointer button came up.
    ButtonReleased,
    /// The pointer moved.
    CursorMoved,
    /// A key went down.
    KeyPressed(KeyCode),
    /// Anything else.
    Other,
}

/// The settings of a view, as plain values.
pub struct Settings {
    pub style: Style,
    pub header_font: Font,
    pub data_font: Font,
    pub font_size: u32,
    pub column_count: u8,
}

/// A view into a region of bytes
#[derive(Debug)]
pub struct Hexview {
    style: Style,
    header_font: Font,
    data_font: Font,
    font_size: u32,
    column_count: u8,
}

impl View for Hexview {
    type V = Settings;

    closed spec fn view(&self) -> Settings {
        Settings {
            style: self.style,
            header_font: self.header_font,
            data_font: self.data_font,
            font_size: self.font_size,
            column_count: self.column_count,
        }
    }
}

impl Settings {
    /// Whether `after` is what a press (or, with `moved`, a move) of the
    /// pointer at `position` makes of `before`, for the widths in `metrics`:
    /// these are widths that the renderer reports in the data font, and the
    /// state changes as by the press or the drag at the hit in the layout
    /// that follows from them. A press hits columns alone; a move also hits
    /// the zone behind the last column.
    pub open spec fn pointer_outcome<R: Renderer>(
        self,
        renderer: &R,
        bounds: Rectangle,
        position: Point,
        metrics: Metrics,
        moved: bool,
        before: Model,
        after: Model,
    ) -> bool {
        let hit = hit_of(
            bounds,
            position,
            metrics,
            self.font_size,
            self.column_count as int,
            moved,
            before.bytes.len() as int,
        );
        &&& columns_measured(
            renderer,
            metrics,
            self.data_font,
            self.font_size,
            bounds.size_of(),
            self.column_count as int,
        )
        &&& after == if moved {
            dragged(before, hit)
        } else {
            pressed(before, bounds.holds(position), position, hit)
        }
    }
}

/// A column count in the range that a view takes.
pub open spec fn column_limit(count: u8) -> u8 {
    if count < 1 {
        1
    } else if count > MAX_COLUMNS {
        MAX_COLUMNS
    } else {
        count
    }
}

/// A font size that a view takes: the size asked for, or the smallest one
/// where less was asked for.
pub open spec fn size_limit(size: u32) -> u32 {
    if size < MIN_FONT_SIZE {
        MIN_FONT_SIZE
    } else {
        size
    }
}

impl Hexview {
    #[verifier::type_invariant]
    spec fn inv(&self) -> bool {
        1 <= self.column_count <= MAX_COLUMNS && self.font_size >= MIN_FONT_SIZE
    }

    /// Creates a new Hexview: sixteen columns, the default font size, the
    /// light theme.
    pub fn new() -> (v: Self)
        ensures
            v@.font_size == DEFAULT_FONT_SIZE,
            v@.column_count == DEFAULT_COLUMNS,
            v@.style.palette() == light_palette(),
    {
        Self {
            style: Light.active(),
            font_size: DEFAULT_FONT_SIZE,
            header_font: default_font(),
            data_font: default_font(),
            column_count: DEFAULT_COLUMNS,
        }
    }

    /// The appearance of the view.
    pub fn style(self, style: Style) -> (v: Self)
        ensures
            v@ == (Settings { style, ..self@ }),
    {
        proof {
            use_type_invariant(&self);
        }
        let mut v = self;
        v.style = style;
        v
    }

    /// The size of the font used in the widget, in hundredths of a pixel.
    /// A size under the smallest one is raised to it.
    pub fn font_size(self, size: u32) -> (v: Self)
        ensures
            v@ == (Settings { font_size: size_limit(size), ..self@ }),
    {
        proof {
            use_type_invariant(&self);
        }
        let mut v = self;
        v.font_size = if size < MIN_FONT_SIZE {
            MIN_FONT_SIZE
        } else {
            size
        };
        v
    }

    /// Font for column headers and offsets.
    pub fn header_font(self, font: Font) -> (v: Self)
        ensures
            v@ == (Settings { header_font: font, ..self@ }),
    {
        proof {
            use_type_invariant(&self);
        }
        let mut v = self;
        v.header_font = font;
        v
    }

    /// Font for bytes and ascii.
    pub fn data_font(self, font: Font) -> (v: Self)
        ensures
            v@ == (Settings { data_font: font, ..self@ }),
    {
        proof {
            use_type_invariant(&self);
        }
        let mut v = self;
        v.data_font = font;
        v
    }

    /// How many columns therer are in the view
    ///
    /// `count` will be clamped to a number in the range `1..=32`.
    pub fn column_count(self, count: u8) -> (v: Self)
        ensures
            v@ == (Settings { column_count: column_limit(count), ..self@ }),
    {
        proof {
            use_type_invariant(&self);
        }
        let mut v = self;
        v.column_count = clamp(count, 1, MAX_COLUMNS);
        v
    }

    /// The number of columns.
    pub fn columns(&self) -> (c: u8)
        ensures
            c == self@.column_count,
            1 <= c <= MAX_COLUMNS,
    {
        proof {
            use_type_invariant(self);
        }
        self.column_count
    }

    /// The height that the view takes for the buffer of `state`.
    pub fn height(&self, state: &State) -> (h: i64)
        ensures
            h == height_of(
                state@.bytes.len() as int,
                self@.column_count as int,
                self@.font_size,
            ),
    {
        proof {
            use_type_invariant(self);
        }
        content_height(state.bytes().len(), self.column_count as usize, self.font_size)
    }

    /// Draws the view of the buffer of `state`, with its cursor and its
    /// selection, in the fonts and the style of the view.
    pub fn draw<R: Renderer>(
        &self,
        state: &State,
        renderer: &R,
        bounds: Rectangle,
        cursor_position: Point,
    ) -> (scene: Scene)
        ensures
            scene_ok(
                renderer,
                scene,
                bounds,
                self@.style.non_printable_color is Some,
                self@.font_size,
                self@.column_count as int,
                state@.cursor,
                state@.test_offset,
                state@.debug_enabled,
                self@.header_font,
                self@.data_font,
                state@.selection,
                state@.bytes,
            ),
    {
        proof {
            use_type_invariant(self);
        }
        let selection = state.selection();
        draw(
            renderer,
            bounds,
            cursor_position,
            &self.style,
            self.font_size,
            self.column_count as usize,
            state.keyboard_focus(),
            state.cursor(),
            state.test_offset(),
            state.debug_enabled(),
            self.header_font,
            self.data_font,
            &selection,
            state.bytes(),
        )
    }

    /// Answers an event at `cursor_position` in a view with the given
    /// `bounds`.
    ///
    /// A press or a move of the pointer has the renderer measure the data
    /// font; whatever widths it reports, the state changes as the press or
    /// the drag at the hit in the layout that follows from them. A release
    /// and a key change the state without the renderer.
    pub fn on_event<R: Renderer>(
        &self,
        state: &mut State,
        event: Event,
        bounds: Rectangle,
        cursor_position: Point,
        renderer: &R,
    )
        ensures
            match event {
                Event::ButtonPressed => exists|metrics: Metrics|
                    #[trigger] self@.pointer_outcome(
                        renderer,
                        bounds,
                        cursor_position,
                        metrics,
                        false,
                        old(state)@,
                        final(state)@,
                    ),
                Event::ButtonReleased => final(state)@ == released(
                    old(state)@,
                    cursor_position,
                    bounds.holds(cursor_position),
                ),
                Event::CursorMoved => exists|metrics: Metrics|
                    #[trigger] self@.pointer_outcome(
                        renderer,
                        bounds,
                        cursor_position,
                        metrics,
                        true,
                        old(state)@,
                        final(state)@,
                    ),
                Event::KeyPressed(key) => final(state)@ == keyed(
                    old(state)@,
                    key,
                    self@.column_count as int,
                ),
                Event::Other => final(state)@ == old(state)@,
            },
    {
        proof {
            use_type_invariant(self);
        }
        let column_count = self.column_count as usize;
        match event {
            Event::ButtonPressed => {
                let hit = cursor_offset(
                    renderer,
                    bounds,
                    cursor_position,
                    self.data_font,
                    self.font_size,
                    column_count,
                    false,
                    state.bytes(),
                );
                let inside = bounds.contains(cursor_position);
                let ghost before = state@;
                state.press(inside, cursor_position, hit);
                proof {
                    let metrics = choose|metrics: Metrics|
                        #[trigger] columns_measured(
                            renderer,
                            metrics,
                            self.data_font,
                            self.font_size,
                            bounds.size_of(),
                            column_count as int,
                        ) && lift(hit) == hit_of(
                            bounds,
                            cursor_position,
                            metrics,
                            self.font_size,
                            column_count as int,
                            false,
                            before.bytes.len() as int,
                        );
                    assert(self@.pointer_outcome(
                        renderer,
                        bounds,
                        cursor_position,
                        metrics,
                        false,
                        before,
                        state@,
                    ));
                }
            },
            Event::ButtonReleased => {
                let inside = bounds.contains(cursor_position);
                state.release(cursor_position, inside);
            },
            Event::CursorMoved => {
                let hit = cursor_offset(
                    renderer,
                    bounds,
                    cursor_position,
                    self.data_font,
                    self.font_size,
                    column_count,
                    true,
                    state.bytes(),
                );
                let ghost before = state@;
                state.drag(hit);
                proof {
                    let metrics = choose|metrics: Metrics|
                        #[trigger] columns_measured(
                            renderer,
                            metrics,
                            self.data_font,
                            self.font_size,
                            bounds.size_of(),
                            column_count as int,
                        ) && lift(hit) == hit_of(
                            bounds,
                            cursor_position,
                            metrics,
                            self.font_size,
                            column_count as int,
                            true,
                            before.bytes.len() as int,
                        );
                    assert(self@.pointer_outcome(
                        renderer,
                        bounds,
                        cursor_position,
                        metrics,
                        true,
                        before,
                        state@,
                    ));
                }
            },
            Event::KeyPressed(key) => {
                state.key(key, column_count);
            },
            Event::Other => {},
        }
    }
}

} // verus!
