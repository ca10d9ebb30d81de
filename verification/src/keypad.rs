//! One keypad: its fixed geometry and its mutable simulation state.
//!
//! A keypad is a small grid of buttons with one unmapped cell (the gap).
//! Two variants exist: the directional pad (movement arrows plus an
//! activation button) and the numeric pad (digits plus an activation
//! button). The mutable state is a cursor, a sticky error flag and a
//! record of the most recent transition, used only for display.

use vstd::prelude::*;

verus! {

/// A grid position on a keypad: column `x`, row `y`.
#[derive(Clone, Copy, PartialEq, Eq, Structural, Debug)]
pub struct Cell {
    pub x: i32,
    pub y: i32,
}

/// The two keypad geometries.
#[derive(Clone, Copy, PartialEq, Eq, Structural, Debug)]
pub enum PadType {
    /// 3 columns by 2 rows: arrows and an activation button.
    Dir,
    /// 3 columns by 4 rows: digits and an activation button.
    Num,
}

/// Grid width of a pad kind.
pub open spec fn spec_width(pt: PadType) -> i32 {
    match pt {
        PadType::Dir => 3,
        PadType::Num => 3,
    }
}

/// Grid height of a pad kind.
pub open spec fn spec_height(pt: PadType) -> i32 {
    match pt {
        PadType::Dir => 2,
        PadType::Num => 4,
    }
}

/// The one unmapped cell of a pad kind; moving onto it is an error.
pub open spec fn spec_gap(pt: PadType) -> Cell {
    match pt {
        PadType::Dir => Cell { x: 0, y: 0 },
        PadType::Num => Cell { x: 0, y: 3 },
    }
}

/// The cell the cursor occupies after a reset: the activation button.
pub open spec fn spec_home(pt: PadType) -> Cell {
    match pt {
        PadType::Dir => Cell { x: 2, y: 0 },
        PadType::Num => Cell { x: 2, y: 3 },
    }
}

/// True when `c` lies inside the pad's bounding grid.
pub open spec fn spec_in_bounds(pt: PadType, c: Cell) -> bool {
    0 <= c.x < spec_width(pt) && 0 <= c.y < spec_height(pt)
}

/// True when `c` is a cell the cursor may rest on: in bounds and not the gap.
pub open spec fn spec_valid_cell(pt: PadType, c: Cell) -> bool {
    spec_in_bounds(pt, c) && c != spec_gap(pt)
}

/// The signal character mapped to cell `c`, or `None` for the gap and for
/// cells outside the grid.
pub open spec fn spec_button_at(pt: PadType, c: Cell) -> Option<char> {
    match pt {
        PadType::Dir => (if c == (Cell { x: 1, y: 0 }) {
            Some('U')
        } else if c == (Cell { x: 2, y: 0 }) {
            Some('A')
        } else if c == (Cell { x: 0, y: 1 }) {
            Some('L')
        } else if c == (Cell { x: 1, y: 1 }) {
            Some('D')
        } else if c == (Cell { x: 2, y: 1 }) {
            Some('R')
        } else {
            None
        }),
        PadType::Num => (if c == (Cell { x: 0, y: 0 }) {
            Some('7')
        } else if c == (Cell { x: 1, y: 0 }) {
            Some('8')
        } else if c == (Cell { x: 2, y: 0 }) {
            Some('9')
        } else if c == (Cell { x: 0, y: 1 }) {
            Some('4')
        } else if c == (Cell { x: 1, y: 1 }) {
            Some('5')
        } else if c == (Cell { x: 2, y: 1 }) {
            Some('6')
        } else if c == (Cell { x: 0, y: 2 }) {
            Some('1')
        } else if c == (Cell { x: 1, y: 2 }) {
            Some('2')
        } else if c == (Cell { x: 2, y: 2 }) {
            Some('3')
        } else if c == (Cell { x: 1, y: 3 }) {
            Some('0')
        } else if c == (Cell { x: 2, y: 3 }) {
            Some('A')
        } else {
            None
        }),
    }
}

/// The inverse of `spec_button_at`: the cell carrying signal `s`, if any.
pub open spec fn spec_cell_of(pt: PadType, s: char) -> Option<Cell> {
    match pt {
        PadType::Dir => (if s == 'U' {
            Some(Cell { x: 1, y: 0 })
        } else if s == 'A' {
            Some(Cell { x: 2, y: 0 })
        } else if s == 'L' {
            Some(Cell { x: 0, y: 1 })
        } else if s == 'D' {
            Some(Cell { x: 1, y: 1 })
        } else if s == 'R' {
            Some(Cell { x: 2, y: 1 })
        } else {
            None
        }),
        PadType::Num => (if s == '7' {
            Some(Cell { x: 0, y: 0 })
        } else if s == '8' {
            Some(Cell { x: 1, y: 0 })
        } else if s == '9' {
            Some(Cell { x: 2, y: 0 })
        } else if s == '4' {
            Some(Cell { x: 0, y: 1 })
        } else if s == '5' {
            Some(Cell { x: 1, y: 1 })
        } else if s == '6' {
            Some(Cell { x: 2, y: 1 })
        } else if s == '1' {
            Some(Cell { x: 0, y: 2 })
        } else if s == '2' {
            Some(Cell { x: 1, y: 2 })
        } else if s == '3' {
            Some(Cell { x: 2, y: 2 })
        } else if s == '0' {
            Some(Cell { x: 1, y: 3 })
        } else if s == 'A' {
            Some(Cell { x: 2, y: 3 })
        } else {
            None
        }),
    }
}

/// Every valid cell carries a button, and the gap carries none.
pub proof fn lemma_button_total(pt: PadType, c: Cell)
    ensures
        spec_valid_cell(pt, c) ==> spec_button_at(pt, c) is Some,
        spec_button_at(pt, spec_gap(pt)) is None,
{
}

/// The button mapping is a bijection between valid cells and their signals:
/// `spec_cell_of` inverts `spec_button_at` and vice versa.
pub proof fn lemma_button_bijective(pt: PadType, c: Cell, s: char)
    ensures
        spec_button_at(pt, c) == Some(s) ==> spec_cell_of(pt, s) == Some(c),
        spec_cell_of(pt, s) == Some(c) ==> spec_button_at(pt, c) == Some(s),
        spec_cell_of(pt, s) == Some(c) ==> spec_valid_cell(pt, c),
{
}

/// Signals within one layout are unique: no two cells carry the same one.
pub proof fn lemma_signals_unique(pt: PadType, c1: Cell, c2: Cell)
    requires
        spec_button_at(pt, c1) is Some,
        spec_button_at(pt, c1) == spec_button_at(pt, c2),
    ensures
        c1 == c2,
{
}

impl PadType {
    /// Grid width.
    pub fn width(&self) -> (w: i32)
        ensures
            w == spec_width(*self),
    {
        match self {
            PadType::Dir => 3,
            PadType::Num => 3,
        }
    }

    /// Grid height.
    pub fn height(&self) -> (h: i32)
        ensures
            h == spec_height(*self),
    {
        match self {
            PadType::Dir => 2,
            PadType::Num => 4,
        }
    }

    /// The unmapped cell.
    pub fn gap_cell(&self) -> (c: Cell)
        ensures
            c == spec_gap(*self),
    {
        match self {
            PadType::Dir => Cell { x: 0, y: 0 },
            PadType::Num => Cell { x: 0, y: 3 },
        }
    }

    /// The cell occupied after a reset.
    pub fn home_cell(&self) -> (c: Cell)
        ensures
            c == spec_home(*self),
    {
        match self {
            PadType::Dir => Cell { x: 2, y: 0 },
            PadType::Num => Cell { x: 2, y: 3 },
        }
    }

    /// The signal mapped to `c`, or `None` for the gap and out-of-grid cells.
    pub fn button_at(&self, c: Cell) -> (r: Option<char>)
        ensures
            r == spec_button_at(*self, c),
    {
        match self {
            PadType::Dir => (if c.x == 1 && c.y == 0 {
                Some('U')
            } else if c.x == 2 && c.y == 0 {
                Some('A')
            } else if c.x == 0 && c.y == 1 {
                Some('L')
            } else if c.x == 1 && c.y == 1 {
                Some('D')
            } else if c.x == 2 && c.y == 1 {
                Some('R')
            } else {
                None
            }),
            PadType::Num => (if c.x == 0 && c.y == 0 {
                Some('7')
            } else if c.x == 1 && c.y == 0 {
                Some('8')
            } else if c.x == 2 && c.y == 0 {
                Some('9')
            } else if c.x == 0 && c.y == 1 {
                Some('4')
            } else if c.x == 1 && c.y == 1 {
                Some('5')
            } else if c.x == 2 && c.y == 1 {
                Some('6')
            } else if c.x == 0 && c.y == 2 {
                Some('1')
            } else if c.x == 1 && c.y == 2 {
                Some('2')
            } else if c.x == 2 && c.y == 2 {
                Some('3')
            } else if c.x == 1 && c.y == 3 {
                Some('0')
            } else if c.x == 2 && c.y == 3 {
                Some('A')
            } else {
                None
            }),
        }
    }

    /// The cell carrying signal `s`, if this pad has such a button.
    pub fn cell_of(&self, s: char) -> (r: Option<Cell>)
        ensures
            r == spec_cell_of(*self, s),
    {
        match self {
            PadType::Dir => (if s == 'U' {
                Some(Cell { x: 1, y: 0 })
            } else if s == 'A' {
                Some(Cell { x: 2, y: 0 })
            } else if s == 'L' {
                Some(Cell { x: 0, y: 1 })
            } else if s == 'D' {
                Some(Cell { x: 1, y: 1 })
            } else if s == 'R' {
                Some(Cell { x: 2, y: 1 })
            } else {
                None
            }),
            PadType::Num => (if s == '7' {
                Some(Cell { x: 0, y: 0 })
            } else if s == '8' {
                Some(Cell { x: 1, y: 0 })
            } else if s == '9' {
                Some(Cell { x: 2, y: 0 })
            } else if s == '4' {
                Some(Cell { x: 0, y: 1 })
            } else if s == '5' {
                Some(Cell { x: 1, y: 1 })
            } else if s == '6' {
                Some(Cell { x: 2, y: 1 })
            } else if s == '1' {
                Some(Cell { x: 0, y: 2 })
            } else if s == '2' {
                Some(Cell { x: 1, y: 2 })
            } else if s == '3' {
                Some(Cell { x: 2, y: 2 })
            } else if s == '0' {
                Some(Cell { x: 1, y: 3 })
            } else if s == 'A' {
                Some(Cell { x: 2, y: 3 })
            } else {
                None
            }),
        }
    }
}

/// Why a keypad entered its failed state.
#[derive(Clone, Copy, PartialEq, Eq, Structural, Debug)]
pub enum PadError {
    /// A movement would have left the pad's bounding grid.
    OutOfBounds,
    /// A movement would have landed on the pad's unmapped cell.
    LandedOnGap,
    /// An input character is not a signal this pad understands.
    MalformedSignal,
}

/// What happened to a keypad during the most recent signal it processed.
/// Pure observability state for a renderer; never consulted by the logic.
#[derive(Clone, Copy, PartialEq, Eq, Structural, Debug)]
pub enum Transition {
    /// Nothing moved and nothing was pressed.
    Idle,
    /// The cursor moved here from the recorded cell.
    MovedFrom(Cell),
    /// The button under the cursor was pressed.
    Pressed,
}

/// Mutable simulation state of one keypad in a chain.
pub struct Keypad {
    /// Which of the two fixed geometries this pad has.
    pub pad_type: PadType,
    /// A label for display purposes only.
    pub name: String,
    /// The current grid cell; always a valid (mapped) cell.
    pub cursor: Cell,
    /// The sticky error flag: `Some` once any signal failed, until a reset.
    pub error: Option<PadError>,
    /// The most recent transition, for display.
    pub transition: Transition,
}

/// True when `c` is one of the four movement signals.
pub open spec fn spec_is_dir(c: char) -> bool {
    c == 'U' || c == 'D' || c == 'L' || c == 'R'
}

/// Horizontal displacement of one movement signal.
pub open spec fn spec_dx(c: char) -> int {
    if c == 'L' {
        -1
    } else if c == 'R' {
        1
    } else {
        0
    }
}

/// Vertical displacement of one movement signal. Row 0 is the top row,
/// so `U` decreases `y` and `D` increases it.
pub open spec fn spec_dy(c: char) -> int {
    if c == 'U' {
        -1
    } else if c == 'D' {
        1
    } else {
        0
    }
}

/// The cell one step from `c` in the direction of movement signal `d`.
pub open spec fn spec_moved(c: Cell, d: char) -> Cell {
    Cell { x: (c.x + spec_dx(d)) as i32, y: (c.y + spec_dy(d)) as i32 }
}

impl Keypad {
    /// The state invariant: the cursor rests on a mapped cell of the grid.
    pub open spec fn wf(self) -> bool {
        spec_valid_cell(self.pad_type, self.cursor)
    }

    /// The state this keypad has right after construction or a reset.
    pub open spec fn spec_reset(self) -> Keypad {
        Keypad {
            cursor: spec_home(self.pad_type),
            error: None,
            transition: Transition::Idle,
            ..self
        }
    }
}

/// One step of the keypad state machine: the state after receiving `sig`,
/// paired with the signal forwarded to the next device.
///
/// An already-failed pad ignores the signal entirely. Receiving `None`
/// (the idle signal) only clears the transition record. A movement signal
/// shifts the cursor one cell, failing — without moving — when the target
/// leaves the grid or is the gap; a movement never forwards anything.
/// An activation forwards the button under the cursor and moves nothing.
/// Any other character fails as malformed.
pub open spec fn spec_step(k: Keypad, sig: Option<char>) -> (Keypad, Option<char>) {
    if k.error is Some {
        (k, None)
    } else {
        match sig {
            None => (Keypad { transition: Transition::Idle, ..k }, None),
            Some(c) => {
                if c == 'A' {
                    (
                        Keypad { transition: Transition::Pressed, ..k },
                        spec_button_at(k.pad_type, k.cursor),
                    )
                } else if spec_is_dir(c) {
                    let target = spec_moved(k.cursor, c);
                    if !spec_in_bounds(k.pad_type, target) {
                        (
                            Keypad {
                                error: Some(PadError::OutOfBounds),
                                transition: Transition::Idle,
                                ..k
                            },
                            None,
                        )
                    } else if target == spec_gap(k.pad_type) {
                        (
                            Keypad {
                                error: Some(PadError::LandedOnGap),
                                transition: Transition::Idle,
                                ..k
                            },
                            None,
                        )
                    } else {
                        (
                            Keypad {
                                cursor: target,
                                transition: Transition::MovedFrom(k.cursor),
                                ..k
                            },
                            None,
                        )
                    }
                } else {
                    (
                        Keypad {
                            error: Some(PadError::MalformedSignal),
                            transition: Transition::Idle,
                            ..k
                        },
                        None,
                    )
                }
            },
        }
    }
}

/// One manual press on the first keypad of a chain: the operator's finger
/// jumps the cursor straight onto the button labelled `c`, and that label
/// is forwarded unchanged. A character that is no button of this pad fails
/// as malformed; a failed pad ignores the press.
pub open spec fn spec_press(k: Keypad, c: char) -> (Keypad, Option<char>) {
    if k.error is Some {
        (k, None)
    } else {
        match spec_cell_of(k.pad_type, c) {
            Some(cell) => (
                Keypad { cursor: cell, transition: Transition::Pressed, ..k },
                Some(c),
            ),
            None => (
                Keypad {
                    error: Some(PadError::MalformedSignal),
                    transition: Transition::Idle,
                    ..k
                },
                None,
            ),
        }
    }
}

/// The step function preserves the state invariant and never changes a
/// keypad's kind or label.
pub proof fn lemma_step_wf(k: Keypad, sig: Option<char>)
    requires
        k.wf(),
    ensures
        spec_step(k, sig).0.wf(),
        spec_step(k, sig).0.pad_type == k.pad_type,
        spec_step(k, sig).0.name == k.name,
{
}

impl Keypad {
    /// Builds a keypad of the given kind in its reset state: cursor on the
    /// activation button, no error, no transition recorded.
    pub fn new(pad_type: PadType, name: String) -> (k: Keypad)
        ensures
            k.pad_type == pad_type,
            k.name == name,
            k.cursor == spec_home(pad_type),
            k.error is None,
            k.transition == Transition::Idle,
            k.wf(),
    {
        let cursor = pad_type.home_cell();
        Keypad { pad_type, name, cursor, error: None, transition: Transition::Idle }
    }

    /// Restores the reset state: cursor home, error cleared, transition
    /// cleared. The pad's kind and label are untouched.
    pub fn reset(&mut self)
        ensures
            *final(self) == old(self).spec_reset(),
            final(self).wf(),
    {
        self.cursor = self.pad_type.home_cell();
        self.error = None;
        self.transition = Transition::Idle;
    }

    /// Processes one incoming signal and returns the signal forwarded to
    /// the next device, exactly as `spec_step` describes: movements shift
    /// the cursor and forward nothing, an activation forwards the button
    /// under the cursor, failures are sticky and leave the cursor in place.
    pub fn send_signal(&mut self, signal: Option<char>) -> (emit: Option<char>)
        requires
            old(self).wf(),
        ensures
            *final(self) == spec_step(*old(self), signal).0,
            emit == spec_step(*old(self), signal).1,
            final(self).wf(),
            final(self).pad_type == old(self).pad_type,
            final(self).name == old(self).name,
            old(self).error is Some ==> *final(self) == *old(self) && emit is None,
            final(self).error is Some ==> final(self).cursor == old(self).cursor,
            signal is None ==> emit is None && final(self).cursor == old(self).cursor,
    {
        if self.error.is_some() {
            return None;
        }
        self.transition = Transition::Idle;
        match signal {
            None => None,
            Some(c) => {
                if c == 'A' {
                    let emitted = self.pad_type.button_at(self.cursor);
                    proof {
                        lemma_button_total(self.pad_type, self.cursor);
                    }
                    self.transition = Transition::Pressed;
                    emitted
                } else if c == 'U' || c == 'D' || c == 'L' || c == 'R' {
                    let dx: i32 = if c == 'L' {
                        -1
                    } else if c == 'R' {
                        1
                    } else {
                        0
                    };
                    let dy: i32 = if c == 'U' {
                        -1
                    } else if c == 'D' {
                        1
                    } else {
                        0
                    };
                    let target = Cell { x: self.cursor.x + dx, y: self.cursor.y + dy };
                    if !(0 <= target.x && target.x < self.pad_type.width() && 0 <= target.y
                        && target.y < self.pad_type.height()) {
                        self.error = Some(PadError::OutOfBounds);
                        None
                    } else if target == self.pad_type.gap_cell() {
                        self.error = Some(PadError::LandedOnGap);
                        None
                    } else {
                        self.transition = Transition::MovedFrom(self.cursor);
                        self.cursor = target;
                        None
                    }
                } else {
                    self.error = Some(PadError::MalformedSignal);
                    None
                }
            },
        }
    }

    /// One manual press of button `c`, exactly as `spec_press` describes:
    /// the cursor jumps onto that button and its label is forwarded; an
    /// unknown character fails as malformed; a failed pad ignores it.
    pub fn press(&mut self, c: char) -> (emit: Option<char>)
        requires
            old(self).wf(),
        ensures
            *final(self) == spec_press(*old(self), c).0,
            emit == spec_press(*old(self), c).1,
            final(self).wf(),
            final(self).pad_type == old(self).pad_type,
            final(self).name == old(self).name,
            old(self).error is Some ==> *final(self) == *old(self) && emit is None,
    {
        if self.error.is_some() {
            return None;
        }
        match self.pad_type.cell_of(c) {
            Some(cell) => {
                proof {
                    lemma_button_bijective(self.pad_type, cell, c);
                }
                self.cursor = cell;
                self.transition = Transition::Pressed;
                Some(c)
            },
            None => {
                self.transition = Transition::Idle;
                self.error = Some(PadError::MalformedSignal);
                None
            },
        }
    }

    /// True once any received signal has failed; cleared only by a reset.
    pub fn has_error(&self) -> (b: bool)
        ensures
            b == (self.error is Some),
    {
        self.error.is_some()
    }
}

/// The state after a keypad has received each character of `sigs` in order,
/// one `send_signal` call per character.
pub open spec fn spec_run(k: Keypad, sigs: Seq<char>) -> Keypad
    decreases sigs.len(),
{
    if sigs.len() == 0 {
        k
    } else {
        spec_step(spec_run(k, sigs.drop_last()), Some(sigs.last())).0
    }
}

/// Resetting twice is the same as resetting once, and the post-reset state
/// is fully pinned: cursor home, no error, no transition. Together with the
/// contract of `Keypad::new` — which yields exactly this state — a reset
/// state always equals the freshly constructed state of the same kind.
pub proof fn lemma_reset_idempotent(k: Keypad)
    ensures
        k.spec_reset().spec_reset() == k.spec_reset(),
        k.spec_reset().cursor == spec_home(k.pad_type),
        k.spec_reset().error is None,
        k.spec_reset().transition == Transition::Idle,
        k.spec_reset().pad_type == k.pad_type,
        k.spec_reset().name == k.name,
{
}

/// Errors are sticky: once a keypad's error flag is set, receiving any
/// further sequence of signals changes nothing at all — in particular the
/// cursor stays where it was — until a reset.
pub proof fn lemma_error_sticky(k: Keypad, sigs: Seq<char>)
    requires
        k.error is Some,
    ensures
        spec_run(k, sigs) == k,
    decreases sigs.len(),
{
    if sigs.len() > 0 {
        lemma_error_sticky(k, sigs.drop_last());
    }
}

/// Horizontal component of the vector sum of the movement signals `sigs`.
pub open spec fn spec_sum_dx(sigs: Seq<char>) -> int
    decreases sigs.len(),
{
    if sigs.len() == 0 {
        0
    } else {
        spec_sum_dx(sigs.drop_last()) + spec_dx(sigs.last())
    }
}

/// Vertical component of the vector sum of the movement signals `sigs`.
pub open spec fn spec_sum_dy(sigs: Seq<char>) -> int
    decreases sigs.len(),
{
    if sigs.len() == 0 {
        0
    } else {
        spec_sum_dy(sigs.drop_last()) + spec_dy(sigs.last())
    }
}

/// Column reached from home by applying the moves of `sigs` as one vector sum.
pub open spec fn spec_pos_x(pt: PadType, sigs: Seq<char>) -> int {
    spec_home(pt).x + spec_sum_dx(sigs)
}

/// Row reached from home by applying the moves of `sigs` as one vector sum.
pub open spec fn spec_pos_y(pt: PadType, sigs: Seq<char>) -> int {
    spec_home(pt).y + spec_sum_dy(sigs)
}

/// True when the (unbounded, mathematical) position `(x, y)` lies on a
/// mapped cell of the pad: inside the grid and away from the gap.
pub open spec fn spec_valid_pos(pt: PadType, x: int, y: int) -> bool {
    &&& 0 <= x < spec_width(pt)
    &&& 0 <= y < spec_height(pt)
    &&& !(x == spec_gap(pt).x && y == spec_gap(pt).y)
}

/// True when the walk along `sigs` from home never leaves the grid and
/// never touches the gap: every prefix's vector sum lands on a mapped cell.
pub open spec fn spec_path_ok(pt: PadType, sigs: Seq<char>) -> bool {
    forall|i: int|
        0 <= i <= sigs.len() ==> spec_valid_pos(
            pt,
            spec_pos_x(pt, #[trigger] sigs.take(i)),
            spec_pos_y(pt, sigs.take(i)),
        )
}

/// For every movement sequence whose walk stays on mapped cells, replaying
/// it one signal at a time from the home cell succeeds with no error, and
/// the final cursor equals the home cell plus the vector sum of the moves,
/// each move applied independently as a 2D displacement.
pub proof fn lemma_moves_are_vector_sum(k: Keypad, sigs: Seq<char>)
    requires
        k.wf(),
        k.error is None,
        k.cursor == spec_home(k.pad_type),
        forall|i: int| 0 <= i < sigs.len() ==> spec_is_dir(#[trigger] sigs[i]),
        spec_path_ok(k.pad_type, sigs),
    ensures
        spec_run(k, sigs).error is None,
        spec_run(k, sigs).pad_type == k.pad_type,
        spec_run(k, sigs).cursor.x == spec_pos_x(k.pad_type, sigs),
        spec_run(k, sigs).cursor.y == spec_pos_y(k.pad_type, sigs),
    decreases sigs.len(),
{
    let pt = k.pad_type;
    if sigs.len() == 0 {
        assert(sigs.take(0) =~= sigs);
    } else {
        let prev = sigs.drop_last();
        assert forall|i: int|
            0 <= i <= prev.len() implies spec_valid_pos(
            pt,
            spec_pos_x(pt, #[trigger] prev.take(i)),
            spec_pos_y(pt, prev.take(i)),
        ) by {
            assert(prev.take(i) =~= sigs.take(i));
            assert(spec_valid_pos(pt, spec_pos_x(pt, sigs.take(i)), spec_pos_y(pt, sigs.take(i))));
        }
        lemma_moves_are_vector_sum(k, prev);
        let len = sigs.len() as int;
        assert(sigs.take(len) =~= sigs);
        assert(spec_valid_pos(pt, spec_pos_x(pt, sigs.take(len)), spec_pos_y(pt, sigs.take(len))));
        let kprev = spec_run(k, prev);
        let c = sigs.last();
        assert(spec_is_dir(c));
        let target = spec_moved(kprev.cursor, c);
        assert(target.x == spec_pos_x(pt, sigs) && target.y == spec_pos_y(pt, sigs));
        assert(spec_in_bounds(pt, target));
        assert(target != spec_gap(pt));
        assert(spec_run(k, sigs) == spec_step(kprev, Some(c)).0);
        assert(spec_step(kprev, Some(c)).0.cursor == target);
    }
}

} // verus!
