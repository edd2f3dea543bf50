//! The puzzle model: five stacked layers of numbered rings, the upper four of
//! which turn independently, and the rule that decides whether a given
//! position of the layers solves the puzzle.

use vstd::prelude::*;

verus! {

/// A ring is a circle of 12 numbers listed in clockwise order.
/// A zero marks a position at which the ring has no cell.
pub type Ring = [usize; 12];

/// Number of positions (0 - 11) by which each rotating layer is turned.
/// The topmost layer is component 0; the base layer does not turn and has
/// no component.
pub type Rotation = (usize, usize, usize, usize);

/// A number on the solved puzzle together with the layer that shows it:
/// `(layer, value)`.
pub type Cell = (usize, usize);

/// The sum that every column has to reach.
pub const TARGET: usize = 42;

/// No ring carries a number above this one: a larger number could not be
/// part of a column that reaches the target.
pub const MAX_VALUE: usize = 42;

/// A bunch of zeroes. Used for rings which aren't physically built.
pub const L0: Ring = [0, 0, 0, 0, 0, 0, 0, 0, 0, 0, 0, 0];

/// Base layer, from the inner ring outwards.
pub const L4_0: Ring = [14, 11, 11, 14, 11, 14, 11, 14, 14, 11, 14, 11];

pub const L4_1: Ring = [15, 4, 5, 6, 7, 8, 9, 10, 11, 12, 13, 14];

pub const L4_2: Ring = [9, 4, 4, 6, 6, 3, 3, 14, 14, 21, 21, 9];

pub const L4_3: Ring = [8, 8, 3, 4, 12, 2, 5, 10, 7, 16, 8, 7];

/// Bottom gear, from the inner ring outwards.
pub const L3_0: Ring = [7, 14, 11, 0, 8, 0, 16, 2, 7, 0, 9, 0];

pub const L3_1: Ring = [6, 0, 14, 12, 3, 8, 9, 0, 9, 20, 12, 3];

pub const L3_2: Ring = [2, 13, 9, 0, 17, 19, 3, 12, 3, 26, 6, 0];

pub const L3_3: Ring = [12, 0, 6, 0, 10, 0, 10, 0, 1, 0, 9, 0];

/// Third gear, from the inner ring outwards.
pub const L2_0: Ring = [7, 8, 9, 13, 9, 7, 13, 21, 17, 4, 5, 0];

pub const L2_1: Ring = [12, 0, 21, 6, 15, 4, 9, 18, 11, 26, 14, 1];

pub const L2_2: Ring = [9, 0, 5, 0, 10, 0, 8, 0, 22, 0, 16, 0];

/// Second gear, from the inner ring outwards.
pub const L1_0: Ring = [6, 17, 7, 3, 0, 6, 0, 11, 11, 6, 11, 0];

pub const L1_1: Ring = [12, 0, 4, 0, 7, 15, 0, 0, 14, 0, 9, 0];

/// Top gear, its only ring.
pub const L0_0: Ring = [8, 0, 3, 0, 6, 0, 10, 0, 7, 0, 15, 0];

/// How far the layer with the given index is turned under `rotation`.
/// Layers 0 to 3 follow their component; the base layer never turns.
pub open spec fn rotation_amount(layer: int, rotation: Rotation) -> int {
    if layer == 0 {
        rotation.0 as int
    } else if layer == 1 {
        rotation.1 as int
    } else if layer == 2 {
        rotation.2 as int
    } else if layer == 3 {
        rotation.3 as int
    } else {
        0
    }
}

/// The position on a ring that shows at `column` once the ring has been
/// turned by `amount`.
pub open spec fn ring_position(column: int, amount: int) -> int {
    (column + amount) % 12
}

/// A 2-D plane of numbers. Since each layer may have a different number of rings,
/// all layers are represented as 4 rings but zeroes are used for non-existent cells.
pub struct Layer {
    layer: usize,
    rings: [&'static Ring; 4],
}

impl Layer {
    /// The layer's place in the stack: 0 is the top, 4 the base.
    pub closed spec fn index(self) -> int {
        self.layer as int
    }

    /// The layer's four rings, innermost first, each as its 12 numbers.
    pub closed spec fn rows(self) -> Seq<Seq<usize>> {
        Seq::new(4, |row: int| self.rings[row]@)
    }

    #[verifier::type_invariant]
    pub closed spec fn in_stack(self) -> bool {
        self.layer <= 4
    }

    /// The number this layer shows at `(column, row)` under `rotation`;
    /// zero where the layer has no cell there.
    pub open spec fn value_at(self, column: int, row: int, rotation: Rotation) -> int {
        self.rows()[row][ring_position(column, rotation_amount(self.index(), rotation))] as int
    }

    /// The layer at place `layer` of the stack, with its rings from the
    /// innermost outwards.
    pub fn new(layer: usize, rings: [&'static Ring; 4]) -> (out: Self)
        requires
            layer <= 4,
        ensures
            out.index() == layer,
            out.rows() == Seq::new(4, |row: int| rings[row]@),
    {
        Self { layer, rings }
    }

    /// Get the number at a certain location. The column is the position within a ring
    /// before the layer is turned, and the row is the ring number with 0 meaning the
    /// innermost and 3 meaning the outermost.
    pub fn get_cell(&self, column: usize, row: usize, rotation: &Rotation) -> (value: usize)
        requires
            row < 4,
        ensures
            value == self.value_at(column as int, row as int, *rotation),
    {
        proof {
            use_type_invariant(self);
        }
        let amount: usize = match self.layer {
            0 => rotation.0,
            1 => rotation.1,
            2 => rotation.2,
            3 => rotation.3,
            _ => 0,
        };
        let idx: usize = (column % 12 + amount % 12) % 12;
        self.rings[row][idx]
    }
}

/// The rings of the layer with the given index as the puzzle is built,
/// innermost first.
pub open spec fn shipped_rows(layer: int) -> Seq<Seq<usize>> {
    if layer == 0 {
        seq![L0_0@, L0@, L0@, L0@]
    } else if layer == 1 {
        seq![L1_0@, L1_1@, L0@, L0@]
    } else if layer == 2 {
        seq![L2_0@, L2_1@, L2_2@, L0@]
    } else if layer == 3 {
        seq![L3_0@, L3_1@, L3_2@, L3_3@]
    } else {
        seq![L4_0@, L4_1@, L4_2@, L4_3@]
    }
}

pub struct Puzzle {
    l0: Layer,
    l1: Layer,
    l2: Layer,
    l3: Layer,
    l4: Layer,
}

impl Puzzle {
    /// The five layers, top first.
    pub closed spec fn layers(self) -> Seq<Layer> {
        seq![self.l0, self.l1, self.l2, self.l3, self.l4]
    }

    /// The number that the layer with the given index shows at `(column, row)`.
    pub open spec fn layer_value(self, layer: int, column: int, row: int, rotation: Rotation) -> int {
        self.layers()[layer].value_at(column, row, rotation)
    }

    /// The topmost layer that has a cell at `(column, row)`, or 5 if no layer has one.
    pub open spec fn owner(self, column: int, row: int, rotation: Rotation) -> int {
        if self.layer_value(0, column, row, rotation) != 0 {
            0
        } else if self.layer_value(1, column, row, rotation) != 0 {
            1
        } else if self.layer_value(2, column, row, rotation) != 0 {
            2
        } else if self.layer_value(3, column, row, rotation) != 0 {
            3
        } else if self.layer_value(4, column, row, rotation) != 0 {
            4
        } else {
            5
        }
    }

    /// The number visible at `(column, row)`: that of the topmost layer with a
    /// cell there. Zero only if no layer has one.
    pub open spec fn cell_at(self, column: int, row: int, rotation: Rotation) -> int {
        let owner = self.owner(column, row, rotation);
        if owner < 5 {
            self.layer_value(owner, column, row, rotation)
        } else {
            0
        }
    }

    /// The sum of the four numbers visible in a column.
    pub open spec fn column_sum(self, column: int, rotation: Rotation) -> int {
        self.cell_at(column, 0, rotation) + self.cell_at(column, 1, rotation) + self.cell_at(
            column,
            2,
            rotation,
        ) + self.cell_at(column, 3, rotation)
    }

    /// Every one of the 12 columns sums to the target.
    pub open spec fn solves(self, rotation: Rotation) -> bool {
        forall|column: int| 0 <= column < 12 ==> #[trigger] self.column_sum(column, rotation) == TARGET
    }

    /// Each layer sits at its own place in the stack.
    pub open spec fn stacked(self) -> bool {
        &&& self.layers().len() == 5
        &&& forall|layer: int| 0 <= layer < 5 ==> (#[trigger] self.layers()[layer]).index() == layer
    }

    /// No number on any ring exceeds `MAX_VALUE`.
    pub open spec fn bounded(self) -> bool {
        forall|layer: int, row: int, position: int|
            0 <= layer < 5 && 0 <= row < 4 && 0 <= position < 12 ==> (
            #[trigger] self.layers()[layer].rows()[row][position]) <= MAX_VALUE
    }

    /// However the layers are turned, every `(column, row)` shows a number.
    pub open spec fn complete(self) -> bool {
        forall|column: int, row: int, rotation: Rotation|
            0 <= row < 4 ==> #[trigger] self.owner(column, row, rotation) < 5
    }

    /// What holds of every puzzle value.
    #[verifier::type_invariant]
    pub open spec fn wf(self) -> bool {
        &&& self.stacked()
        &&& self.bounded()
        &&& self.complete()
    }

    /// The puzzle as it is built.
    pub fn new() -> (puzzle: Self)
        ensures
            puzzle.wf(),
            forall|layer: int| 0 <= layer < 5 ==> (#[trigger] puzzle.layers()[layer]).rows() == shipped_rows(layer),
    {
        let l0 = Layer::new(0, [&L0_0, &L0, &L0, &L0]);
        let l1 = Layer::new(1, [&L1_0, &L1_1, &L0, &L0]);
        let l2 = Layer::new(2, [&L2_0, &L2_1, &L2_2, &L0]);
        let l3 = Layer::new(3, [&L3_0, &L3_1, &L3_2, &L3_3]);
        let l4 = Layer::new(4, [&L4_0, &L4_1, &L4_2, &L4_3]);
        proof {
            let shape = Puzzle { l0, l1, l2, l3, l4 };
            assert forall|layer: int| 0 <= layer < 5 implies (#[trigger] shape.layers()[layer]).rows()
                == shipped_rows(layer) by {}
            lemma_shipped_rows_bounded();
            lemma_base_rows_full();
            assert(shape.complete()) by {
                assert forall|column: int, row: int, rotation: Rotation| 0 <= row < 4 implies #[trigger] shape.owner(
                    column,
                    row,
                    rotation,
                ) < 5 by {
                    let position = ring_position(column, rotation_amount(4, rotation));
                    assert(shipped_rows(4)[row][position] != 0);
                    assert(shape.layer_value(4, column, row, rotation) != 0);
                }
            }
        }
        Self { l0, l1, l2, l3, l4 }
    }

    /// The number visible at a location and the layer that shows it. Layers are
    /// searched from the top down and the first one with a cell there wins.
    pub fn cell(&self, column: usize, row: usize, rotation: &Rotation) -> (cell: Cell)
        requires
            row < 4,
        ensures
            cell.0 == self.owner(column as int, row as int, *rotation),
            cell.0 < 5,
            cell.1 == self.cell_at(column as int, row as int, *rotation),
            cell.1 != 0,
            cell.1 <= MAX_VALUE,
    {
        proof {
            use_type_invariant(self);
        }
        let layers = [&self.l0, &self.l1, &self.l2, &self.l3, &self.l4];
        let mut i: usize = 0;
        while i < 5
            invariant
                i <= 5,
                row < 4,
                self.wf(),
                forall|k: int| 0 <= k < 5 ==> *layers[k] == self.layers()[k],
                forall|k: int| 0 <= k < i ==> self.layer_value(k, column as int, row as int, *rotation) == 0,
            decreases 5 - i,
        {
            let res = layers[i].get_cell(column, row, rotation);
            if res != 0 {
                proof {
                    let position = ring_position(
                        column as int,
                        rotation_amount(self.layers()[i as int].index(), *rotation),
                    );
                    assert(self.layers()[i as int].rows()[row as int][position] <= MAX_VALUE);
                }
                return (i, res);
            }
            i += 1;
        }
        proof {
            assert(self.owner(column as int, row as int, *rotation) < 5);
        }
        vstd::pervasive::unreached()
    }

    /// The number visible at a location.
    pub fn get_cell(&self, column: usize, row: usize, rotation: &Rotation) -> (value: usize)
        requires
            row < 4,
        ensures
            value == self.cell_at(column as int, row as int, *rotation),
            value != 0,
            value <= MAX_VALUE,
    {
        self.cell(column, row, rotation).1
    }

    /// Whether the four numbers visible in a column add up to the target.
    pub fn is_42(&self, column: usize, rotation: &Rotation) -> (hit: bool)
        ensures
            hit == (self.column_sum(column as int, *rotation) == TARGET),
    {
        let sum = self.get_cell(column, 0, rotation) + self.get_cell(column, 1, rotation)
            + self.get_cell(column, 2, rotation) + self.get_cell(column, 3, rotation);
        sum == TARGET
    }

    /// Whether the rotation solves the puzzle: every column adds up to the target.
    /// The answer depends on the puzzle and the rotation alone.
    pub fn is_solution(&self, rotation: Rotation) -> (solved: bool)
        ensures
            solved == self.solves(rotation),
    {
        let mut column: usize = 0;
        while column < 12
            invariant
                column <= 12,
                forall|c: int| 0 <= c < column ==> #[trigger] self.column_sum(c, rotation) == TARGET,
            decreases 12 - column,
        {
            if !self.is_42(column, &rotation) {
                return false;
            }
            column += 1;
        }
        true
    }

    /// The solved puzzle as a grid for display: 4 rows of 12 cells, the row of
    /// the innermost rings first, each cell with the layer that shows it.
    pub fn cells(&self, rotation: &Rotation) -> (grid: Vec<Vec<Cell>>)
        ensures
            grid.len() == 4,
            forall|row: int| 0 <= row < 4 ==> (#[trigger] grid[row]).len() == 12,
            forall|row: int, column: int|
                0 <= row < 4 && 0 <= column < 12 ==> {
                    &&& (#[trigger] grid[row][column]).0 == self.owner(column, row, *rotation)
                    &&& grid[row][column].0 < 5
                    &&& grid[row][column].1 == self.cell_at(column, row, *rotation)
                    &&& 0 < grid[row][column].1 <= MAX_VALUE
                },
    {
        let mut grid: Vec<Vec<Cell>> = Vec::new();
        let mut row: usize = 0;
        while row < 4
            invariant
                row <= 4,
                grid.len() == row,
                forall|r: int| 0 <= r < row ==> (#[trigger] grid[r]).len() == 12,
                forall|r: int, c: int|
                    0 <= r < row && 0 <= c < 12 ==> {
                        &&& (#[trigger] grid[r][c]).0 == self.owner(c, r, *rotation)
                        &&& grid[r][c].0 < 5
                        &&& grid[r][c].1 == self.cell_at(c, r, *rotation)
                        &&& 0 < grid[r][c].1 <= MAX_VALUE
                    },
            decreases 4 - row,
        {
            let mut line: Vec<Cell> = Vec::new();
            let mut column: usize = 0;
            while column < 12
                invariant
                    column <= 12,
                    row < 4,
                    line.len() == column,
                    forall|c: int|
                        0 <= c < column ==> {
                            &&& (#[trigger] line[c]).0 == self.owner(c, row as int, *rotation)
                            &&& line[c].0 < 5
                            &&& line[c].1 == self.cell_at(c, row as int, *rotation)
                            &&& 0 < line[c].1 <= MAX_VALUE
                        },
                decreases 12 - column,
            {
                line.push(self.cell(column, row, rotation));
                column += 1;
            }
            grid.push(line);
            row += 1;
        }
        grid
    }
}

/// Every number of the puzzle as built is at most `MAX_VALUE`.
proof fn lemma_shipped_rows_bounded()
    ensures
        forall|layer: int, row: int, position: int|
            0 <= layer < 5 && 0 <= row < 4 && 0 <= position < 12 ==> (#[trigger] shipped_rows(
                layer,
            )[row][position]) <= MAX_VALUE,
{
}

/// The base layer has a cell at every position of every ring.
proof fn lemma_base_rows_full()
    ensures
        forall|row: int, position: int|
            0 <= row < 4 && 0 <= position < 12 ==> (#[trigger] shipped_rows(4)[row][position]) != 0,
{
}

/// Turning a layer is a cyclic shift of its rings: what the layer shows at
/// `column` once turned by `k` positions is what it shows, unturned, at
/// column `(column + k) mod 12`.
pub proof fn lemma_rotation_is_cyclic_shift(layer: Layer, column: int, row: int, rotation: Rotation)
    ensures
        layer.value_at(column, row, rotation) == layer.value_at(
            (column + rotation_amount(layer.index(), rotation)) % 12,
            row,
            (0, 0, 0, 0),
        ),
{
}

/// What holds of one layer holds of each layer of a puzzle: turned by `k`
/// positions, it shows at `column` what it shows, unturned, at column
/// `(column + k) mod 12`.
pub proof fn lemma_layer_turn_is_cyclic_shift(
    puzzle: Puzzle,
    layer: int,
    column: int,
    row: int,
    rotation: Rotation,
)
    requires
        puzzle.wf(),
        0 <= layer < 5,
    ensures
        puzzle.layer_value(layer, column, row, rotation) == puzzle.layer_value(
            layer,
            (column + rotation_amount(layer, rotation)) % 12,
            row,
            (0, 0, 0, 0),
        ),
{
    lemma_rotation_is_cyclic_shift(puzzle.layers()[layer], column, row, rotation);
}

/// Whatever the rotation, every location of a puzzle shows a number: some
/// layer has a cell there, and the number visible is not zero.
pub proof fn lemma_every_cell_is_shown(puzzle: Puzzle, column: int, row: int, rotation: Rotation)
    requires
        puzzle.wf(),
        0 <= row < 4,
    ensures
        0 <= puzzle.owner(column, row, rotation) < 5,
        0 < puzzle.cell_at(column, row, rotation) <= MAX_VALUE,
{
    let owner = puzzle.owner(column, row, rotation);
    let position = ring_position(column, rotation_amount(puzzle.layers()[owner].index(), rotation));
    assert(puzzle.layers()[owner].rows()[row][position] <= MAX_VALUE);
}

} // verus!
