//! How the inline viewport is drawn with relative cursor moves: the moves,
//! style changes and prints that bring a frame's changed cells to the
//! terminal, and the attributes a set of modifiers turns on.

use crate::color::Color;
use vstd::prelude::*;

verus! {

/// A vertical cursor move by a number of rows.
#[derive(Clone, Copy, Debug, PartialEq, Eq, Structural)]
pub enum RowMove {
    Up(u16),
    Down(u16),
    Stay,
}

/// The move from row `from` to row `to`.
pub open spec fn row_move_spec(from: u16, to: u16) -> RowMove {
    if to > from {
        RowMove::Down((to - from) as u16)
    } else if to < from {
        RowMove::Up((from - to) as u16)
    } else {
        RowMove::Stay
    }
}

/// The vertical move from row `from` to row `to`.
pub fn row_move(from: u16, to: u16) -> (m: RowMove)
    ensures
        m == row_move_spec(from, to),
{
    if to > from {
        RowMove::Down(to - from)
    } else if to < from {
        RowMove::Up(from - to)
    } else {
        RowMove::Stay
    }
}

/// A cursor position in the viewport, relative to its top-left cell.
#[derive(Clone, Copy, Debug, PartialEq, Eq, Structural)]
pub struct Position {
    pub x: u16,
    pub y: u16,
}

/// What a cell is drawn with: its colors and its modifier bits.
#[derive(Clone, Copy, Debug, PartialEq, Eq, Structural)]
pub struct CellStyle {
    pub fg: Color,
    pub bg: Color,
    pub modifiers: u16,
}

/// A changed cell to draw, without its text.
#[derive(Clone, Copy, Debug, PartialEq, Eq, Structural)]
pub struct CellAt {
    pub x: u16,
    pub y: u16,
    pub style: CellStyle,
}

/// One step of drawing: a cursor move (rows, then to a column), a change of
/// style to that of cell `i` (attributes reset first), or the text of cell `i`.
#[derive(Clone, Copy, Debug, PartialEq, Eq, Structural)]
pub enum DrawStep {
    Move { rows: RowMove, column: u16 },
    Restyle(usize),
    Print(usize),
}

/// The cursor after printing a cell at `p`: one column on, held at the
/// last column.
pub open spec fn after_print(p: Position) -> Position {
    Position { x: if p.x < u16::MAX { (p.x + 1) as u16 } else { p.x }, y: p.y }
}

/// Where the cursor is before cell `i` is drawn.
pub open spec fn cursor_before(cells: Seq<CellAt>, start: Position, i: int) -> Position {
    if i == 0 {
        start
    } else {
        after_print(Position { x: cells[i - 1].x, y: cells[i - 1].y })
    }
}

/// Cell `i` does not follow on the same row right after the cell before it,
/// so the cursor is moved to it.
pub open spec fn needs_move(cells: Seq<CellAt>, i: int) -> bool {
    i == 0 || !(cells[i].x == cells[i - 1].x + 1 && cells[i].y == cells[i - 1].y)
}

/// Cell `i` is drawn in another style than the cell before it.
pub open spec fn needs_restyle(cells: Seq<CellAt>, i: int) -> bool {
    i == 0 || cells[i].style != cells[i - 1].style
}

/// The steps that draw cell `i`.
pub open spec fn cell_steps(cells: Seq<CellAt>, start: Position, i: int) -> Seq<DrawStep> {
    (if needs_move(cells, i) {
        seq![
            DrawStep::Move {
                rows: row_move_spec(cursor_before(cells, start, i).y, cells[i].y),
                column: cells[i].x,
            },
        ]
    } else {
        Seq::empty()
    }) + (if needs_restyle(cells, i) {
        seq![DrawStep::Restyle(i as usize)]
    } else {
        Seq::empty()
    }) + seq![DrawStep::Print(i as usize)]
}

/// The steps that draw the first `n` cells, with the cursor at `start` before.
pub open spec fn draw_steps(cells: Seq<CellAt>, start: Position, n: int) -> Seq<DrawStep>
    decreases n,
{
    if n <= 0 {
        Seq::empty()
    } else {
        draw_steps(cells, start, n - 1) + cell_steps(cells, start, n - 1)
    }
}

/// The steps that draw `cells` in order, the cursor at `start` before, and
/// where the cursor is after them.
pub fn draw_plan(cells: &Vec<CellAt>, start: Position) -> (plan: (Vec<DrawStep>, Position))
    ensures
        plan.0@ == draw_steps(cells@, start, cells@.len() as int),
        plan.1 == cursor_before(cells@, start, cells@.len() as int),
{
    let mut steps: Vec<DrawStep> = Vec::new();
    let mut cursor = start;
    let mut i: usize = 0;
    while i < cells.len()
        invariant
            i <= cells@.len(),
            steps@ == draw_steps(cells@, start, i as int),
            cursor == cursor_before(cells@, start, i as int),
        decreases cells@.len() - i,
    {
        let cell = cells[i];
        let ghost before = steps@;
        let moved = i == 0 || !(cells[i - 1].x < u16::MAX && cell.x == cells[i - 1].x + 1
            && cell.y == cells[i - 1].y);
        if moved {
            steps.push(DrawStep::Move { rows: row_move(cursor.y, cell.y), column: cell.x });
        }
        if i == 0 || cell.style != cells[i - 1].style {
            steps.push(DrawStep::Restyle(i));
        }
        steps.push(DrawStep::Print(i));
        proof {
            assert(moved == needs_move(cells@, i as int));
            assert(steps@ =~= before + cell_steps(cells@, start, i as int));
        }
        cursor = Position { x: if cell.x < u16::MAX { cell.x + 1 } else { cell.x }, y: cell.y };
        i += 1;
    }
    (steps, cursor)
}

/// A text attribute that the terminal is told to turn on.
#[derive(Clone, Copy, Debug, PartialEq, Eq, Structural)]
pub enum Attribute {
    Bold,
    Dim,
    Italic,
    Underlined,
    SlowBlink,
    RapidBlink,
    Reverse,
    Hidden,
    CrossedOut,
}

/// The attribute of modifier bit `k`: bold, dim, italic, underlined, slow
/// blink, rapid blink, reversed, hidden, crossed out.
pub open spec fn attribute_of_bit(k: int) -> Attribute {
    if k == 0 {
        Attribute::Bold
    } else if k == 1 {
        Attribute::Dim
    } else if k == 2 {
        Attribute::Italic
    } else if k == 3 {
        Attribute::Underlined
    } else if k == 4 {
        Attribute::SlowBlink
    } else if k == 5 {
        Attribute::RapidBlink
    } else if k == 6 {
        Attribute::Reverse
    } else if k == 7 {
        Attribute::Hidden
    } else {
        Attribute::CrossedOut
    }
}

/// Whether bit `k` of `bits` is set.
pub open spec fn bit_set(bits: u16, k: u16) -> bool {
    (bits >> k) & 1u16 == 1u16
}

/// The attributes of the set bits among the first `n`, in bit order.
pub open spec fn attributes_upto(bits: u16, n: int) -> Seq<Attribute>
    decreases n,
{
    if n <= 0 {
        Seq::empty()
    } else if bit_set(bits, (n - 1) as u16) {
        attributes_upto(bits, n - 1).push(attribute_of_bit(n - 1))
    } else {
        attributes_upto(bits, n - 1)
    }
}

fn attribute_for(k: u16) -> (a: Attribute)
    requires
        k < 9,
    ensures
        a == attribute_of_bit(k as int),
{
    if k == 0 {
        Attribute::Bold
    } else if k == 1 {
        Attribute::Dim
    } else if k == 2 {
        Attribute::Italic
    } else if k == 3 {
        Attribute::Underlined
    } else if k == 4 {
        Attribute::SlowBlink
    } else if k == 5 {
        Attribute::RapidBlink
    } else if k == 6 {
        Attribute::Reverse
    } else if k == 7 {
        Attribute::Hidden
    } else {
        Attribute::CrossedOut
    }
}

/// The attributes that the modifier bits turn on, in bit order; bits past
/// the ninth name no attribute.
pub fn modifier_attributes(bits: u16) -> (attributes: Vec<Attribute>)
    ensures
        attributes@ == attributes_upto(bits, 9),
{
    let mut out: Vec<Attribute> = Vec::new();
    let mut k: u16 = 0;
    while k < 9
        invariant
            k <= 9,
            out@ == attributes_upto(bits, k as int),
        decreases 9 - k,
    {
        if (bits >> k) & 1u16 == 1u16 {
            out.push(attribute_for(k));
        }
        k += 1;
    }
    out
}

} // verus!
