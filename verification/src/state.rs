//! The cursor, the selection and what moves them.

use crate::digest::bytes_digest;
use crate::digest::digest;
use crate::geometry::Point;
use crate::hit::lift;
use crate::hit::lift_pair;
use vstd::prelude::*;

verus! {

/// The keys that the view tells apart.
#[derive(Clone, Copy, Debug, PartialEq, Eq, Structural)]
pub enum KeyCode {
    Left,
    Right,
    Up,
    Down,
    Home,
    End,
    PageUp,
    PageDown,
    /// Lowers the test offset while the debug overlay is on.
    Minus,
    /// Raises the test offset while the debug overlay is on.
    Equals,
    /// Switches the debug overlay on and off.
    D,
    /// Any other key.
    Other,
}

/// What a `State` holds, as plain values.
pub struct Model {
    /// The buffer.
    pub bytes: Seq<u8>,
    /// The offset of the byte under the cursor.
    pub cursor: int,
    /// The selected half-open range of offsets, if there is one.
    pub selection: Option<(int, int)>,
    /// Whether key presses reach the view.
    pub keyboard_focus: bool,
    /// Whether the pointer button is held down since a press in the view.
    pub dragging: bool,
    /// The cursor as the last press in the view left it: the end of the
    /// selection that stays put while the pointer is dragged.
    pub anchor: int,
    /// Where the pointer button went down, until it comes up again.
    pub press: Option<Point>,
    /// Extra distance between spans, for trying out text placement.
    pub test_offset: int,
    /// Whether the debug overlay is drawn.
    pub debug_enabled: bool,
    /// The digest of the buffer.
    pub bytes_hash: u64,
}

impl Model {
    /// The cursor is on a byte of the buffer, or at 0 where the buffer is
    /// empty; so is the anchor; and a selection is not empty and ends in the
    /// buffer.
    pub open spec fn wf(self) -> bool {
        &&& 0 <= self.cursor
        &&& self.cursor < self.bytes.len() || self.cursor == 0
        &&& 0 <= self.anchor
        &&& self.anchor < self.bytes.len() || self.anchor == 0
        &&& self.selection matches Some((start, end)) ==> 0 <= start < end <= self.bytes.len()
        &&& i32::MIN <= self.test_offset <= i32::MAX
    }
}

/// The state of a view without a buffer.
pub open spec fn initial() -> Model {
    Model {
        bytes: Seq::empty(),
        cursor: 0,
        selection: None,
        keyboard_focus: false,
        dragging: false,
        anchor: 0,
        press: None,
        test_offset: 0,
        debug_enabled: false,
        bytes_hash: 0,
    }
}

/// The state after the buffer was replaced: the cursor and the anchor are
/// back at 0 and nothing is selected, whatever held before.
pub open spec fn loaded(m: Model, bytes: Seq<u8>) -> Model {
    Model { bytes, cursor: 0, anchor: 0, selection: None, bytes_hash: bytes_digest(bytes), ..m }
}

/// The offset of the first byte of the row that `cursor` is in.
pub open spec fn line_start(cursor: int, column_count: int) -> int {
    cursor / column_count * column_count
}

/// The offset of the last byte of the row that `cursor` is in, in a
/// buffer of `len > 0` bytes.
pub open spec fn line_end(cursor: int, column_count: int, len: int) -> int {
    let full = line_start(cursor, column_count) + column_count - 1;
    if full < len - 1 {
        full
    } else {
        len - 1
    }
}

/// Where a key moves the cursor of a focused view. A key whose guard fails
/// leaves the cursor where it is.
pub open spec fn cursor_after(cursor: int, len: int, key: KeyCode, column_count: int) -> int {
    match key {
        KeyCode::Left => if cursor > 0 {
            cursor - 1
        } else {
            cursor
        },
        KeyCode::Right => if len > 0 && cursor < len - 1 {
            cursor + 1
        } else {
            cursor
        },
        KeyCode::Up => if cursor >= column_count {
            cursor - column_count
        } else {
            cursor
        },
        KeyCode::Down => if len > 0 {
            if cursor + column_count < len {
                cursor + column_count
            } else {
                len - 1
            }
        } else {
            cursor
        },
        KeyCode::Home => if cursor > line_start(cursor, column_count) {
            line_start(cursor, column_count)
        } else {
            cursor
        },
        KeyCode::End => if len > 0 && cursor < line_end(cursor, column_count, len) {
            line_end(cursor, column_count, len)
        } else {
            cursor
        },
        KeyCode::PageUp => 0,
        KeyCode::PageDown => if len > 0 {
            len - 1
        } else {
            cursor
        },
        _ => cursor,
    }
}

/// The state after a key press. The cursor keys move the cursor of a view
/// that has the keyboard focus; `D` switches the debug overlay of such a
/// view; `Minus` and `Equals` step the test offset while the overlay is on,
/// and stop at the ends of its range.
pub open spec fn keyed(m: Model, key: KeyCode, column_count: int) -> Model {
    match key {
        KeyCode::Minus => if m.debug_enabled && m.test_offset > i32::MIN {
            Model { test_offset: m.test_offset - 1, ..m }
        } else {
            m
        },
        KeyCode::Equals => if m.debug_enabled && m.test_offset < i32::MAX {
            Model { test_offset: m.test_offset + 1, ..m }
        } else {
            m
        },
        KeyCode::D => if m.keyboard_focus {
            Model { debug_enabled: !m.debug_enabled, ..m }
        } else {
            m
        },
        _ => if m.keyboard_focus {
            Model {
                cursor: cursor_after(m.cursor, m.bytes.len() as int, key, column_count),
                ..m
            }
        } else {
            m
        },
    }
}

/// The state after the pointer button went down at `position`. Outside
/// the bounds nothing changes. Inside, a drag begins and the selection is
/// dropped; a hit on a byte moves the cursor there; the anchor is the
/// cursor as the press leaves it.
pub open spec fn pressed(m: Model, inside: bool, position: Point, hit: Option<int>) -> Model {
    if !inside {
        m
    } else {
        let cursor = match hit {
            Some(index) => if 0 <= index < m.bytes.len() {
                index
            } else {
                m.cursor
            },
            None => m.cursor,
        };
        Model { cursor, anchor: cursor, selection: None, dragging: true, press: Some(position), ..m }
    }
}

/// The half-open range between two offsets, lower first, or `None` where
/// the two are equal.
pub open spec fn ordered_pair(a: int, b: int) -> Option<(int, int)> {
    if a < b {
        Some((a, b))
    } else if b < a {
        Some((b, a))
    } else {
        None
    }
}

/// The state after the pointer moved. While dragging, a hit sets the
/// selection to the range between the anchor and the hit; without a hit, or
/// with one behind the end of the buffer, the selection stays.
pub open spec fn dragged(m: Model, hit: Option<int>) -> Model {
    match hit {
        Some(index) => if m.dragging && 0 <= index <= m.bytes.len() {
            Model { selection: ordered_pair(m.anchor, index), ..m }
        } else {
            m
        },
        None => m,
    }
}

/// The state after the pointer button came up at `position`: the drag is
/// over; a release where the button went down drops the selection; the view
/// has the keyboard focus if the release was inside its bounds.
pub open spec fn released(m: Model, position: Point, inside: bool) -> Model {
    Model {
        selection: if m.press == Some(position) {
            None
        } else {
            m.selection
        },
        press: None,
        dragging: false,
        keyboard_focus: inside,
        ..m
    }
}

/// The local state of a view: its buffer, cursor and selection.
#[derive(Debug)]
pub struct State {
    bytes: Vec<u8>,
    cursor: usize,
    bytes_hash: u64,
    keyboard_focus: bool,
    test_offset: i32,
    debug_enabled: bool,
    last_click_pos: Option<Point>,
    is_dragging: bool,
    selection: Option<(usize, usize)>,
    anchor: usize,
}

impl View for State {
    type V = Model;

    closed spec fn view(&self) -> Model {
        Model {
            bytes: self.bytes@,
            cursor: self.cursor as int,
            selection: lift_pair(self.selection),
            keyboard_focus: self.keyboard_focus,
            dragging: self.is_dragging,
            anchor: self.anchor as int,
            press: self.last_click_pos,
            test_offset: self.test_offset as int,
            debug_enabled: self.debug_enabled,
            bytes_hash: self.bytes_hash,
        }
    }
}

impl State {
    #[verifier::type_invariant]
    spec fn inv(&self) -> bool {
        self@.wf()
    }

    /// A state without a buffer.
    pub fn new() -> (s: Self)
        ensures
            s@ == initial(),
    {
        Self {
            bytes: Vec::new(),
            cursor: 0,
            bytes_hash: 0,
            keyboard_focus: false,
            test_offset: 0,
            debug_enabled: false,
            last_click_pos: None,
            is_dragging: false,
            selection: None,
            anchor: 0,
        }
    }

    /// Replaces the buffer.
    pub fn set_bytes(&mut self, bytes: &[u8])
        ensures
            final(self)@ == loaded(old(self)@, bytes@),
    {
        proof {
            use_type_invariant(&*self);
        }
        self.cursor = 0;
        self.anchor = 0;
        self.selection = None;
        self.bytes_hash = digest(bytes);
        self.bytes = vstd::slice::slice_to_vec(bytes);
    }

    /// Gives or takes the keyboard focus.
    pub fn set_keyboard_focus(&mut self, focus: bool)
        ensures
            final(self)@ == (Model { keyboard_focus: focus, ..old(self)@ }),
    {
        proof {
            use_type_invariant(&*self);
        }
        self.keyboard_focus = focus;
    }

    /// The buffer.
    pub fn bytes(&self) -> (b: &[u8])
        ensures
            b@ == self@.bytes,
    {
        self.bytes.as_slice()
    }

    /// The offset of the byte under the cursor.
    pub fn cursor(&self) -> (c: usize)
        ensures
            c == self@.cursor,
            self@.wf(),
    {
        proof {
            use_type_invariant(self);
        }
        self.cursor
    }

    /// The selected range, if there is one.
    pub fn selection(&self) -> (s: Option<(usize, usize)>)
        ensures
            lift_pair(s) == self@.selection,
    {
        self.selection
    }

    /// Whether key presses reach the view.
    pub fn keyboard_focus(&self) -> (f: bool)
        ensures
            f == self@.keyboard_focus,
    {
        self.keyboard_focus
    }

    /// Whether a drag is under way.
    pub fn is_dragging(&self) -> (d: bool)
        ensures
            d == self@.dragging,
    {
        self.is_dragging
    }

    /// Whether the debug overlay is drawn.
    pub fn debug_enabled(&self) -> (d: bool)
        ensures
            d == self@.debug_enabled,
    {
        self.debug_enabled
    }

    /// The extra distance between spans.
    pub fn test_offset(&self) -> (t: i32)
        ensures
            t == self@.test_offset,
    {
        self.test_offset
    }

    /// The digest of the buffer.
    pub fn bytes_hash(&self) -> (h: u64)
        ensures
            h == self@.bytes_hash,
    {
        self.bytes_hash
    }

    /// Handles a key press.
    pub fn key(&mut self, key: KeyCode, column_count: usize)
        requires
            column_count >= 1,
        ensures
            final(self)@ == keyed(old(self)@, key, column_count as int),
    {
        proof {
            use_type_invariant(&*self);
        }
        let len = self.bytes.len();
        let cursor = self.cursor;
        let focus = self.keyboard_focus;
        match key {
            KeyCode::Minus => {
                if self.debug_enabled && self.test_offset > i32::MIN {
                    self.test_offset = self.test_offset - 1;
                }
            },
            KeyCode::Equals => {
                if self.debug_enabled && self.test_offset < i32::MAX {
                    self.test_offset = self.test_offset + 1;
                }
            },
            KeyCode::D => {
                if focus {
                    self.debug_enabled = !self.debug_enabled;
                }
            },
            _ => {
                if focus {
                    self.cursor = move_cursor(cursor, len, key, column_count);
                }
            },
        }
    }

    /// Handles a press of the pointer button at `position`. `inside` says
    /// whether the position is in the bounds of the view, `hit` which byte
    /// is under it.
    pub fn press(&mut self, inside: bool, position: Point, hit: Option<usize>)
        ensures
            final(self)@ == pressed(old(self)@, inside, position, lift(hit)),
    {
        proof {
            use_type_invariant(&*self);
        }
        if !inside {
            return ;
        }
        self.selection = None;
        self.is_dragging = true;
        if let Some(index) = hit {
            if index < self.bytes.len() {
                self.cursor = index;
            }
        }
        self.anchor = self.cursor;
        self.last_click_pos = Some(position);
    }

    /// Handles a move of the pointer. `hit` says which byte is under it.
    pub fn drag(&mut self, hit: Option<usize>)
        ensures
            final(self)@ == dragged(old(self)@, lift(hit)),
    {
        proof {
            use_type_invariant(&*self);
        }
        if self.is_dragging {
            if let Some(index) = hit {
                if index <= self.bytes.len() {
                    let anchor = self.anchor;
                    if index < anchor {
                        self.selection = Some((index, anchor));
                    } else if index > anchor {
                        self.selection = Some((anchor, index));
                    } else {
                        self.selection = None;
                    }
                }
            }
        }
    }

    /// Handles a release of the pointer button at `position`.
    pub fn release(&mut self, position: Point, inside: bool)
        ensures
            final(self)@ == released(old(self)@, position, inside),
    {
        proof {
            use_type_invariant(&*self);
        }
        if let Some(pos) = self.last_click_pos {
            if position == pos {
                self.selection = None;
            }
        }
        self.last_click_pos = None;
        self.is_dragging = false;
        self.keyboard_focus = inside;
    }
}

/// Moves a cursor as a cursor key asks.
pub fn move_cursor(cursor: usize, len: usize, key: KeyCode, column_count: usize) -> (c: usize)
    requires
        column_count >= 1,
        cursor < len || cursor == 0,
    ensures
        c == cursor_after(cursor as int, len as int, key, column_count as int),
        c < len || c == 0,
{
    proof {
        lemma_line_start(cursor as int, column_count as int);
    }
    let row_first = cursor / column_count * column_count;
    match key {
        KeyCode::Left => if cursor > 0 {
            cursor - 1
        } else {
            cursor
        },
        KeyCode::Right => if len > 0 && cursor < len - 1 {
            cursor + 1
        } else {
            cursor
        },
        KeyCode::Up => if cursor >= column_count {
            cursor - column_count
        } else {
            cursor
        },
        KeyCode::Down => if len > 0 {
            if column_count < len - cursor {
                cursor + column_count
            } else {
                len - 1
            }
        } else {
            cursor
        },
        KeyCode::Home => if cursor > row_first {
            row_first
        } else {
            cursor
        },
        KeyCode::End => if len > 0 {
            let row_last = if column_count - 1 < len - 1 - row_first {
                row_first + (column_count - 1)
            } else {
                len - 1
            };
            if cursor < row_last {
                row_last
            } else {
                cursor
            }
        } else {
            cursor
        },
        KeyCode::PageUp => 0,
        KeyCode::PageDown => if len > 0 {
            len - 1
        } else {
            cursor
        },
        _ => cursor,
    }
}

/// The row of a cursor starts at or before the cursor, less than a row's
/// worth before it, at a multiple of the column count.
pub proof fn lemma_line_start(cursor: int, column_count: int)
    requires
        cursor >= 0,
        column_count >= 1,
    ensures
        0 <= line_start(cursor, column_count) <= cursor,
        cursor < line_start(cursor, column_count) + column_count,
        line_start(cursor, column_count) % column_count == 0,
        0 <= cursor / column_count <= cursor,
{
    let q = cursor / column_count;
    vstd::arithmetic::div_mod::lemma_fundamental_div_mod(cursor, column_count);
    assert(cursor == column_count * q + cursor % column_count);
    assert(q * column_count == column_count * q) by (nonlinear_arith);
    assert(q >= 0 && q <= cursor) by (nonlinear_arith)
        requires
            cursor == column_count * q + cursor % column_count,
            0 <= cursor % column_count < column_count,
            cursor >= 0,
            column_count >= 1,
    ;
    vstd::arithmetic::div_mod::lemma_mod_multiples_basic(q, column_count);
}

/// No key moves the cursor off the buffer: a well-formed state stays
/// well-formed, and its cursor stays on a byte of the buffer, or at 0 in an
/// empty one.
pub proof fn lemma_keyed_in_range(m: Model, key: KeyCode, column_count: int)
    requires
        m.wf(),
        column_count >= 1,
    ensures
        keyed(m, key, column_count).wf(),
        keyed(m, key, column_count).bytes == m.bytes,
        0 <= keyed(m, key, column_count).cursor,
        m.bytes.len() > 0 ==> keyed(m, key, column_count).cursor < m.bytes.len(),
        m.bytes.len() == 0 ==> keyed(m, key, column_count).cursor == 0,
        !m.keyboard_focus ==> keyed(m, key, column_count).cursor == m.cursor,
{
    lemma_line_start(m.cursor, column_count);
}

/// Neither a press, a move nor a release of the pointer, nor a new buffer,
/// leaves the cursor off the buffer or the selection out of order.
pub proof fn lemma_pointer_in_range(
    m: Model,
    inside: bool,
    position: Point,
    hit: Option<int>,
    bytes: Seq<u8>,
)
    requires
        m.wf(),
    ensures
        pressed(m, inside, position, hit).wf(),
        dragged(m, hit).wf(),
        released(m, position, inside).wf(),
        loaded(m, bytes).wf(),
{
}

/// A drag selects the range between the anchor and the hit with the lower
/// offset first, whichever of the two is lower, and nothing where they are
/// equal.
pub proof fn lemma_drag_ordered(m: Model, hit: int)
    requires
        m.wf(),
        m.dragging,
        0 <= hit <= m.bytes.len(),
    ensures
        hit != m.anchor ==> dragged(m, Some(hit)).selection == Some(
            (
                if hit < m.anchor {
                    hit
                } else {
                    m.anchor
                },
                if hit < m.anchor {
                    m.anchor
                } else {
                    hit
                },
            ),
        ),
        hit == m.anchor ==> dragged(m, Some(hit)).selection is None,
        dragged(m, Some(hit)).selection matches Some((start, end)) ==> start < end,
{
}

/// A new buffer puts the cursor at 0 and drops the selection, whatever the
/// cursor and the selection were.
pub proof fn lemma_load_resets(m: Model, bytes: Seq<u8>)
    ensures
        loaded(m, bytes).cursor == 0,
        loaded(m, bytes).selection is None,
        loaded(m, bytes).bytes == bytes,
{
}

} // verus!
