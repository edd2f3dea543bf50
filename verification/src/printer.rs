//! The solved puzzle as coloured text for a terminal. Each cell is painted
//! in the colours of the layer that shows it, and a key names the layers.

use crate::puzzle::Cell;
use colorful::{Color, Colorful};
use vstd::prelude::*;
use vstd::string::StringExecFns;

verus! {

/// The colours that the printer uses.
#[derive(Clone, Copy, PartialEq, Eq, Debug)]
pub enum Tint {
    Black,
    White,
    Green,
    Blue,
    Cyan,
    Red,
}

/// The decimal digit for a number below ten.
pub open spec fn digit(d: nat) -> char {
    seq!['0', '1', '2', '3', '4', '5', '6', '7', '8', '9'][d as int]
}

/// A number written in decimal, without leading zeroes.
pub open spec fn decimal(n: nat) -> Seq<char>
    decreases n,
{
    if n < 10 {
        seq![digit(n)]
    } else {
        decimal(n / 10).push(digit(n % 10))
    }
}

/// A number written in decimal and, where it has one digit only, with a
/// blank before it.
pub open spec fn two_wide(n: nat) -> Seq<char> {
    if n < 10 {
        seq![' '] + decimal(n)
    } else {
        decimal(n)
    }
}

/// The number of a colour in the terminal's table of 256 colours, in decimal.
pub open spec fn tint_code(tint: Tint) -> Seq<char> {
    match tint {
        Tint::Black => seq!['0'],
        Tint::Red => seq!['1'],
        Tint::Green => seq!['2'],
        Tint::Blue => seq!['4'],
        Tint::Cyan => seq!['6'],
        Tint::White => seq!['1', '5'],
    }
}

/// The escape sequence that selects the colour of the letters.
pub open spec fn set_ink(tint: Tint) -> Seq<char> {
    seq!['\x1B', '[', '3', '8', ';', '5', ';'] + tint_code(tint) + seq!['m']
}

/// The escape sequence that selects the colour behind the letters.
pub open spec fn set_ground(tint: Tint) -> Seq<char> {
    seq!['\x1B', '[', '4', '8', ';', '5', ';'] + tint_code(tint) + seq!['m']
}

/// The escape sequence that returns to the terminal's own colours.
pub open spec fn reset() -> Seq<char> {
    seq!['\x1B', '[', '0', 'm']
}

/// `text` in letters of one colour on a ground of another.
pub open spec fn painted(text: Seq<char>, ink: Tint, ground: Tint) -> Seq<char> {
    set_ink(ink) + set_ground(ground) + text + reset()
}

/// `text` on a coloured ground, in the terminal's own colour of letters.
pub open spec fn grounded(text: Seq<char>, ground: Tint) -> Seq<char> {
    set_ground(ground) + text + reset()
}

/// Calls `Colorful::color` and `Colorful::bg_color` of the colorful crate on
/// `text` and renders the outcome with its `Display`. Trusted: the text
/// comes out unchanged between the two escape sequences that select the
/// colours from the table of 256 and the one that resets them.
#[verifier::external_body]
fn paint(text: &str, ink: Tint, ground: Tint) -> (out: String)
    ensures
        out@ == painted(text@, ink, ground),
{
    let color = |tint: Tint| match tint {
        Tint::Black => Color::Black,
        Tint::White => Color::White,
        Tint::Green => Color::Green,
        Tint::Blue => Color::Blue,
        Tint::Cyan => Color::Cyan,
        Tint::Red => Color::Red,
    };
    text.color(color(ink)).bg_color(color(ground)).to_string()
}

/// Calls `Colorful::bg_color` of the colorful crate on `text` and renders
/// the outcome with its `Display`. Trusted: the text comes out unchanged
/// between the escape sequence that selects the ground from the table of
/// 256 colours and the one that resets it.
#[verifier::external_body]
fn paint_ground(text: &str, ground: Tint) -> (out: String)
    ensures
        out@ == grounded(text@, ground),
{
    let color = |tint: Tint| match tint {
        Tint::Black => Color::Black,
        Tint::White => Color::White,
        Tint::Green => Color::Green,
        Tint::Blue => Color::Blue,
        Tint::Cyan => Color::Cyan,
        Tint::Red => Color::Red,
    };
    text.bg_color(color(ground)).to_string()
}

/// The digit for a number below ten, as text.
fn digit_text(d: usize) -> (text: &'static str)
    requires
        d < 10,
    ensures
        text@ == seq![digit(d as nat)],
{
    proof {
        reveal_strlit("0");
        reveal_strlit("1");
        reveal_strlit("2");
        reveal_strlit("3");
        reveal_strlit("4");
        reveal_strlit("5");
        reveal_strlit("6");
        reveal_strlit("7");
        reveal_strlit("8");
        reveal_strlit("9");
    }
    let text = match d {
        0 => "0",
        1 => "1",
        2 => "2",
        3 => "3",
        4 => "4",
        5 => "5",
        6 => "6",
        7 => "7",
        8 => "8",
        _ => "9",
    };
    assert(text@ =~= seq![digit(d as nat)]);
    text
}

/// A number in decimal.
pub fn decimal_text(n: usize) -> (text: String)
    ensures
        text@ == decimal(n as nat),
    decreases n,
{
    if n < 10 {
        String::from_str(digit_text(n))
    } else {
        let mut text = decimal_text(n / 10);
        text.append(digit_text(n % 10));
        text
    }
}

/// A number in decimal, at least two characters wide.
pub fn two_wide_text(n: usize) -> (text: String)
    ensures
        text@ == two_wide(n as nat),
{
    if n < 10 {
        proof {
            reveal_strlit(" ");
        }
        let mut text = String::from_str(" ");
        text.append(digit_text(n));
        assert(text@ =~= two_wide(n as nat));
        text
    } else {
        decimal_text(n)
    }
}

/// Renders the solved puzzle.
pub struct Printer;

impl Printer {
    pub fn new() -> (printer: Self) {
        Self
    }

    /// The colour of the letters for the cells of a layer.
    pub open spec fn ink(layer: int) -> Tint {
        if layer == 4 {
            Tint::White
        } else {
            Tint::Black
        }
    }

    /// The colour behind the cells of a layer.
    pub open spec fn ground(layer: int) -> Tint {
        if layer == 0 {
            Tint::White
        } else if layer == 1 {
            Tint::Green
        } else if layer == 2 {
            Tint::Blue
        } else if layer == 3 {
            Tint::Cyan
        } else {
            Tint::Red
        }
    }

    /// One cell as text: its number, two wide, in the colours of its layer,
    /// and a blank after it.
    pub open spec fn cell_text(cell: Cell) -> Seq<char> {
        painted(two_wide(cell.1 as nat), Self::ink(cell.0 as int), Self::ground(cell.0 as int)) + seq![' ']
    }

    /// A row of cells as text: one cell after the other.
    pub open spec fn row_text(row: Seq<Cell>) -> Seq<char>
        decreases row.len(),
    {
        if row.len() == 0 {
            Seq::empty()
        } else {
            Self::row_text(row.drop_last()) + Self::cell_text(row.last())
        }
    }

    /// The key: for each layer, top first, a bar in its colour and its name.
    /// The bars grow by two blanks from layer to layer.
    pub open spec fn key_text() -> Seq<Seq<char>> {
        seq![
            grounded("   "@, Tint::White) + "         top gear"@,
            grounded("     "@, Tint::Green) + "       2nd gear"@,
            grounded("       "@, Tint::Blue) + "     3rd gear"@,
            grounded("         "@, Tint::Cyan) + "   bottom gear"@,
            grounded("           "@, Tint::Red) + " base"@,
        ]
    }

    /// All the text for a grid of cells, line by line: the key, an empty
    /// line, then one line for each row.
    pub open spec fn page_text(cells: Seq<Vec<Cell>>) -> Seq<Seq<char>> {
        Self::key_text() + seq![Seq::<char>::empty()] + Seq::new(
            cells.len(),
            |row: int| Self::row_text(cells[row]@),
        )
    }

    /// Every cell of the grid names one of the five layers.
    pub open spec fn printable(cells: Seq<Vec<Cell>>) -> bool {
        forall|row: int, column: int|
            0 <= row < cells.len() && 0 <= column < cells[row].len() ==> (#[trigger] cells[row][column]).0 <= 4
    }

    /// The colours for the cells of a layer: those of the letters, then
    /// those behind them.
    pub fn palette(layer: usize) -> (colors: (Tint, Tint))
        requires
            layer <= 4,
        ensures
            colors == (Self::ink(layer as int), Self::ground(layer as int)),
    {
        match layer {
            0 => (Tint::Black, Tint::White),
            1 => (Tint::Black, Tint::Green),
            2 => (Tint::Black, Tint::Blue),
            3 => (Tint::Black, Tint::Cyan),
            _ => (Tint::White, Tint::Red),
        }
    }

    /// One cell as text.
    pub fn render_cell(&self, cell: Cell) -> (text: String)
        requires
            cell.0 <= 4,
        ensures
            text@ == Self::cell_text(cell),
    {
        let number = two_wide_text(cell.1);
        let (ink, ground) = Self::palette(cell.0);
        let mut text = paint(number.as_str(), ink, ground);
        proof {
            reveal_strlit(" ");
        }
        text.append(" ");
        assert(text@ =~= Self::cell_text(cell));
        text
    }

    /// A row of cells as one line of text.
    pub fn render_row(&self, row: &Vec<Cell>) -> (line: String)
        requires
            forall|column: int| 0 <= column < row.len() ==> (#[trigger] row[column]).0 <= 4,
        ensures
            line@ == Self::row_text(row@),
    {
        let mut line = String::new();
        let mut column: usize = 0;
        while column < row.len()
            invariant
                column <= row.len(),
                forall|c: int| 0 <= c < row.len() ==> (#[trigger] row[c]).0 <= 4,
                line@ == Self::row_text(row@.take(column as int)),
            decreases row.len() - column,
        {
            let text = self.render_cell(row[column]);
            line.append(text.as_str());
            proof {
                let before = row@.take(column as int);
                let after = row@.take(column + 1);
                assert(after.drop_last() =~= before);
                assert(after.last() == row[column as int]);
            }
            column += 1;
        }
        assert(row@.take(row.len() as int) =~= row@);
        line
    }

    /// The key, line by line.
    pub fn render_key(&self) -> (lines: Vec<String>)
        ensures
            lines.len() == 5,
            forall|i: int| 0 <= i < 5 ==> (#[trigger] lines[i])@ == Self::key_text()[i],
    {
        let mut top = paint_ground("   ", Tint::White);
        top.append("         top gear");
        let mut second = paint_ground("     ", Tint::Green);
        second.append("       2nd gear");
        let mut third = paint_ground("       ", Tint::Blue);
        third.append("     3rd gear");
        let mut bottom = paint_ground("         ", Tint::Cyan);
        bottom.append("   bottom gear");
        let mut base = paint_ground("           ", Tint::Red);
        base.append(" base");
        let mut lines: Vec<String> = Vec::new();
        lines.push(top);
        lines.push(second);
        lines.push(third);
        lines.push(bottom);
        lines.push(base);
        lines
    }

    /// All the text for a grid of cells, line by line.
    pub fn render(&self, cells: Vec<Vec<Cell>>) -> (lines: Vec<String>)
        requires
            Self::printable(cells@),
        ensures
            lines.len() == Self::page_text(cells@).len(),
            forall|i: int| 0 <= i < lines.len() ==> (#[trigger] lines[i])@ == Self::page_text(cells@)[i],
    {
        let mut lines = self.render_key();
        lines.push(String::new());
        let mut row: usize = 0;
        while row < cells.len()
            invariant
                row <= cells.len(),
                Self::printable(cells@),
                lines.len() == 6 + row,
                forall|i: int| 0 <= i < lines.len() ==> (#[trigger] lines[i])@ == Self::page_text(cells@)[i],
            decreases cells.len() - row,
        {
            assert forall|column: int| 0 <= column < cells[row as int].len() implies (
            #[trigger] cells[row as int][column]).0 <= 4 by {
                assert(cells@[row as int][column].0 <= 4);
            }
            let line = self.render_row(&cells[row]);
            lines.push(line);
            row += 1;
        }
        lines
    }
}

} // verus!
