//! The index of the Barnes-Hut grid: which leaf each row falls into, which
//! rows each leaf holds, and how many rows lie in or below every cell.

use vstd::prelude::*;
use vstd::arithmetic::power::pow;
use vstd::arithmetic::power2::{pow2, lemma_pow2_pos};
use vstd::bits::{lemma_u64_shl_is_mul, lemma_usize_shr_is_div};
use crate::cell_addressing::{
    absolute_cell_id,
    cell_above,
    cells_before_layer,
    cells_in_layer,
    child_cells,
    clamp_coordinate,
    depth_fits,
    far_away_cells,
    grid_side,
    layer_fits,
    lemma_cell_above_contains,
    lemma_cell_id_in_layer,
    lemma_cells_before_layer_increases,
    lemma_cells_before_layer_is_deposit,
    lemma_depth_fits,
    lemma_interleave_is_deposit,
    lemma_layer_offsets,
    lemma_leaf_contains_itself_only,
    lemma_leaf_populations_sum,
    lemma_population_bound,
    lemma_population_of_children,
    lemma_root_population,
    lemma_rows_in_leaf_hold_every_row,
    parent_cell,
    population,
    population_sum,
    relative_cell_id,
    rows_in_leaf,
};
use crate::messages::{empty_object, empty_object_message};
use crate::pdep::{pdep, pdep_spec, EVEN_BITS, ODD_BITS};

verus! {

/// Whether a grid of this depth can be built: whether its cells can be
/// counted.
pub fn is_depth_supported(depth: usize) -> (supported: bool)
    ensures
        supported == depth_fits(depth as nat),
{
    depth < (usize::BITS / 2) as usize
}

/// The number of cells in one row or column of `layer`.
pub fn get_grid_side(layer: usize) -> (side: usize)
    requires
        depth_fits(layer as nat),
    ensures
        side == grid_side(layer as nat),
{
    proof {
        lemma_depth_fits(layer as nat, layer as nat);
        lemma_pow2_pos(layer as nat);
        lemma_u64_shl_is_mul(1, layer as u64);
    }
    (1u64 << (layer as u64)) as usize
}

/// The number of cells of all the layers above `layer`.
pub fn get_number_of_elements_before_layer(layer: usize) -> (count: usize)
    requires
        layer_fits(layer as nat),
    ensures
        count == cells_before_layer(layer as nat),
        count as nat == pdep_spec((pow2(layer as nat) - 1) as nat, EVEN_BITS as nat),
        cells_before_layer(layer as nat + 1) - count == pow(4, layer as nat),
{
    proof {
        lemma_layer_offsets(layer as nat);
        lemma_cells_before_layer_is_deposit(layer as nat);
        lemma_u64_shl_is_mul(1, layer as u64);
    }
    let low_ones: u64 = (1u64 << (layer as u64)) - 1;
    pdep(low_ones, EVEN_BITS) as usize
}

/// A raw coordinate brought into a side of `side` cells.
fn clamp(raw: i64, side: usize) -> (coordinate: usize)
    requires
        side >= 1,
    ensures
        coordinate == if raw < 0 {
            0
        } else if raw < side {
            raw as int
        } else {
            side - 1
        },
{
    if raw < 0 {
        0
    } else if (raw as u64) < (side as u64) {
        raw as usize
    } else {
        side - 1
    }
}

/// The coordinates of a cell of `layer`: each raw coordinate, raised to the
/// first cell of the side where it lies before and lowered to the last where
/// it lies beyond.
pub fn get_cell_coordinates(column: i64, row: i64, layer: usize) -> (cell: (usize, usize))
    requires
        depth_fits(layer as nat),
    ensures
        cell.0 == clamp_coordinate(column as int, layer as nat),
        cell.1 == clamp_coordinate(row as int, layer as nat),
{
    let side = get_grid_side(layer);
    proof {
        lemma_pow2_pos(layer as nat);
    }
    (clamp(column, side), clamp(row, side))
}

/// The Z-order id, within `layer`, of the cell that the coordinates name:
/// the row deposited on the odd bits joined with the column deposited on the
/// even bits.
pub fn get_relative_cell_id(column: i64, row: i64, layer: usize) -> (id: usize)
    requires
        depth_fits(layer as nat),
    ensures
        id == relative_cell_id(column as int, row as int, layer as nat),
        id < cells_in_layer(layer as nat),
{
    let (cell_column, cell_row) = get_cell_coordinates(column, row, layer);
    proof {
        lemma_depth_fits(layer as nat, layer as nat);
        lemma_cell_id_in_layer(column as int, row as int, layer as nat);
        lemma_interleave_is_deposit(cell_column as nat, cell_row as nat, layer as nat);
    }
    (pdep(cell_row as u64, ODD_BITS) | pdep(cell_column as u64, EVEN_BITS)) as usize
}

/// The id, within the tree, of the cell of `layer` that the coordinates name.
pub fn get_absolute_cell_id(column: i64, row: i64, layer: usize) -> (id: usize)
    requires
        depth_fits(layer as nat),
    ensures
        id == absolute_cell_id(column as int, row as int, layer as nat),
        cells_before_layer(layer as nat) <= id < cells_before_layer(layer as nat + 1),
{
    proof {
        lemma_depth_fits(layer as nat, layer as nat);
        lemma_depth_fits(layer as nat, layer as nat + 1);
        lemma_cell_id_in_layer(column as int, row as int, layer as nat);
    }
    get_number_of_elements_before_layer(layer) + get_relative_cell_id(column, row, layer)
}

/// The four children of cell `id`.
pub fn iter_child_cells(id: usize) -> (children: Vec<usize>)
    requires
        4 * id + 4 <= usize::MAX,
    ensures
        children@ == child_cells(id as nat),
{
    let mut children: Vec<usize> = Vec::new();
    children.push(4 * id + 1);
    children.push(4 * id + 2);
    children.push(4 * id + 3);
    children.push(4 * id + 4);
    children
}

/// The children of the parent of cell `id` that are cell `id`: the cell
/// itself, once.
pub fn iter_siblings_cells(id: usize) -> (siblings: Vec<usize>)
    requires
        1 <= id <= usize::MAX - 3,
    ensures
        siblings@ == seq![id],
{
    let children = iter_child_cells((id - 1) / 4);
    let mut siblings: Vec<usize> = Vec::new();
    let mut position: usize = 0;
    while position < 4
        invariant
            position <= 4,
            1 <= id,
            children@ == child_cells(parent_cell(id as nat)),
            4 * parent_cell(id as nat) + 4 <= usize::MAX,
            siblings@ == if 4 * parent_cell(id as nat) + position >= id {
                seq![id]
            } else {
                Seq::<usize>::empty()
            },
        decreases 4 - position,
    {
        if children[position] == id {
            siblings.push(children[position]);
        }
        position = position + 1;
    }
    siblings
}

/// The number of cells of `layer`.
pub fn get_number_of_elements_in_layer(layer: usize) -> (count: usize)
    requires
        depth_fits(layer as nat),
    ensures
        count == cells_in_layer(layer as nat),
{
    proof {
        lemma_depth_fits(layer as nat, layer as nat);
        lemma_layer_offsets(layer as nat);
    }
    get_number_of_elements_before_layer(layer + 1) - get_number_of_elements_before_layer(layer)
}

/// What a grid holds, as plain values.
pub struct GradientGridView {
    /// The deepest layer.
    pub depth: nat,
    /// For every cell, by absolute id, the number of rows in or below it.
    pub populations: Seq<usize>,
    /// For every leaf, by relative id, the rows that fall into it.
    pub reverse_index: Seq<Seq<usize>>,
    /// For every row, the relative id of its leaf.
    pub index: Seq<usize>,
}

impl GradientGridView {
    /// There is one population per cell of the tree and one list per leaf.
    pub open spec fn wf(self) -> bool {
        &&& depth_fits(self.depth)
        &&& self.populations.len() == cells_before_layer(self.depth + 1)
        &&& self.reverse_index.len() == cells_in_layer(self.depth)
    }

    /// Every population is 0 and every list of rows is empty.
    pub open spec fn is_reset(self) -> bool {
        &&& forall|cell: int|
            0 <= cell < self.populations.len() ==> #[trigger] self.populations[cell] == 0
        &&& forall|leaf: int|
            0 <= leaf < self.reverse_index.len() ==> (#[trigger] self.reverse_index[leaf]).len()
                == 0
    }

    /// The population of every cell above the leaves is the sum of the
    /// populations of its four children.
    pub open spec fn children_add_up(self) -> bool {
        forall|cell: int|
            0 <= cell < cells_before_layer(self.depth) ==> #[trigger] self.populations[cell]
                == self.populations[4 * cell + 1] + self.populations[4 * cell + 2]
                + self.populations[4 * cell + 3] + self.populations[4 * cell + 4]
    }

    /// The grid describes `rows`, given by the raw coordinates of each row:
    /// every row is indexed under its leaf, every leaf lists its rows in
    /// increasing order, and every cell counts the rows in or below it.
    pub open spec fn indexes(self, rows: Seq<(i64, i64)>) -> bool {
        &&& self.index.len() == rows.len()
        &&& forall|row: int|
            0 <= row < rows.len() ==> #[trigger] self.index[row] == relative_cell_id(
                rows[row].0 as int,
                rows[row].1 as int,
                self.depth,
            )
        &&& forall|leaf: int|
            0 <= leaf < self.reverse_index.len() ==> #[trigger] self.reverse_index[leaf]
                == rows_in_leaf(rows, self.depth, leaf as nat)
        &&& forall|cell: int|
            0 <= cell < self.populations.len() ==> #[trigger] self.populations[cell]
                == population(rows, self.depth, cell as nat)
    }
}

impl GradientGridView {
    /// The populations of the cells `first ..= last - 1`, added up.
    pub open spec fn population_total(self, first: int, last: int) -> int
        decreases last - first,
    {
        if last <= first {
            0
        } else {
            self.population_total(first, last - 1) + self.populations[last - 1]
        }
    }

    /// In a grid that describes some rows, the populations of a range of
    /// cells add up to the number of rows in or below them.
    pub proof fn lemma_population_total(self, rows: Seq<(i64, i64)>, first: int, last: int)
        requires
            self.indexes(rows),
            0 <= first <= last <= self.populations.len(),
        ensures
            self.population_total(first, last) == population_sum(
                rows,
                self.depth,
                first as nat,
                last as nat,
            ),
        decreases last - first,
    {
        if last > first {
            self.lemma_population_total(rows, first, last - 1);
            assert(self.populations[last - 1] == population(rows, self.depth, (last - 1) as nat));
        }
    }

    /// In a grid that describes some rows, the populations of the leaves add
    /// up to the number of rows, which is the population of the root.
    pub proof fn lemma_leaves_hold_every_row(self, rows: Seq<(i64, i64)>)
        requires
            self.wf(),
            self.indexes(rows),
        ensures
            self.population_total(
                cells_before_layer(self.depth) as int,
                cells_before_layer(self.depth + 1) as int,
            ) == rows.len(),
            self.populations[0] == rows.len(),
    {
        lemma_layer_offsets(self.depth);
        self.lemma_population_total(
            rows,
            cells_before_layer(self.depth) as int,
            cells_before_layer(self.depth + 1) as int,
        );
        lemma_leaf_populations_sum(rows, self.depth);
        lemma_root_population(rows, self.depth);
    }

    /// In a grid that describes some rows, the index of a row names a leaf:
    /// the absolute id of that leaf lies in the deepest layer, and the list
    /// of that leaf holds the row.
    pub proof fn lemma_index_names_the_leaf(self, rows: Seq<(i64, i64)>, row: int)
        requires
            self.wf(),
            self.indexes(rows),
            rows.len() <= usize::MAX,
            0 <= row < rows.len(),
        ensures
            self.index[row] < self.reverse_index.len(),
            cells_before_layer(self.depth) + self.index[row] == absolute_cell_id(
                rows[row].0 as int,
                rows[row].1 as int,
                self.depth,
            ),
            cells_before_layer(self.depth) + self.index[row] < cells_before_layer(self.depth + 1),
            self.reverse_index[self.index[row] as int].contains(row as usize),
    {
        lemma_cell_id_in_layer(rows[row].0 as int, rows[row].1 as int, self.depth);
        lemma_rows_in_leaf_hold_every_row(rows, self.depth, row);
    }
}

/// The index of the grid over a complete quadtree of a fixed depth.
pub struct GradientGrid {
    depth: usize,
    populations: Vec<usize>,
    reverse_index: Vec<Vec<usize>>,
    index: Vec<usize>,
}

impl View for GradientGrid {
    type V = GradientGridView;

    closed spec fn view(&self) -> GradientGridView {
        GradientGridView {
            depth: self.depth as nat,
            populations: self.populations@,
            reverse_index: Seq::new(
                self.reverse_index@.len(),
                |leaf: int| self.reverse_index@[leaf]@,
            ),
            index: self.index@,
        }
    }
}

impl GradientGrid {
    /// An empty grid of the given depth.
    pub fn new(depth: usize) -> (grid: Self)
        requires
            depth_fits(depth as nat),
        ensures
            grid@.wf(),
            grid@.depth == depth,
            grid@.is_reset(),
            grid@.index.len() == 0,
    {
        let number_of_cells = get_number_of_elements_before_layer(depth + 1);
        let number_of_leaves = get_number_of_elements_in_layer(depth);
        let mut populations: Vec<usize> = Vec::new();
        while populations.len() < number_of_cells
            invariant
                populations.len() <= number_of_cells,
                forall|cell: int| 0 <= cell < populations.len() ==> populations[cell] == 0,
            decreases number_of_cells - populations.len(),
        {
            populations.push(0);
        }
        let mut reverse_index: Vec<Vec<usize>> = Vec::new();
        while reverse_index.len() < number_of_leaves
            invariant
                reverse_index.len() <= number_of_leaves,
                forall|leaf: int| 0 <= leaf < reverse_index.len() ==> reverse_index[leaf]@.len() == 0,
            decreases number_of_leaves - reverse_index.len(),
        {
            reverse_index.push(Vec::new());
        }
        Self { depth, populations, reverse_index, index: Vec::new() }
    }

    /// Zeroes every population and empties every list of rows; the buffers
    /// stay allocated.
    pub fn reset(&mut self)
        requires
            old(self)@.wf(),
        ensures
            final(self)@.wf(),
            final(self)@.depth == old(self)@.depth,
            final(self)@.is_reset(),
            final(self)@.index == old(self)@.index,
    {
        let mut cell: usize = 0;
        while cell < self.populations.len()
            invariant
                self@.wf(),
                self.depth == old(self).depth,
                self.index == old(self).index,
                self.reverse_index == old(self).reverse_index,
                forall|done: int| 0 <= done < cell ==> self.populations[done] == 0,
            decreases self.populations.len() - cell,
        {
            self.populations[cell] = 0;
            cell = cell + 1;
        }
        let mut leaf: usize = 0;
        while leaf < self.reverse_index.len()
            invariant
                self@.wf(),
                self.depth == old(self).depth,
                self.index == old(self).index,
                forall|done: int|
                    0 <= done < self.populations.len() ==> self.populations[done] == 0,
                forall|done: int| 0 <= done < leaf ==> self.reverse_index[done]@.len() == 0,
            decreases self.reverse_index.len() - leaf,
        {
            self.reverse_index[leaf].clear();
            leaf = leaf + 1;
        }
    }

    /// Rebuilds the grid for the given rows, each named by the raw column and
    /// row of the cell it falls into at the deepest layer: resets the grid,
    /// counts the rows of every leaf, adds the counts up layer by layer from
    /// the one above the leaves to the root, each layer after the one below
    /// it is complete, and lists the rows of every leaf in increasing order.
    /// Fails exactly when there is no row, and then leaves the grid reset.
    pub fn prepare(&mut self, rows: &[(i64, i64)]) -> (result: Result<(), String>)
        requires
            old(self)@.wf(),
        ensures
            final(self)@.wf(),
            final(self)@.depth == old(self)@.depth,
            rows@.len() == 0 <==> result is Err,
            result matches Err(message) ==> {
                &&& message@ == empty_object_message()
                &&& final(self)@.is_reset()
                &&& final(self)@.index == old(self)@.index
            },
            result is Ok ==> {
                &&& final(self)@.indexes(rows@)
                &&& final(self)@.populations[0] == rows@.len()
                &&& final(self)@.children_add_up()
            },
    {
        self.reset();
        if rows.len() == 0 {
            return Err(empty_object());
        }
        let ghost depth = self.depth as nat;
        proof {
            lemma_depth_fits(depth, depth);
            lemma_layer_offsets(depth);
        }
        let first_leaf = get_number_of_elements_before_layer(self.depth);
        let number_of_cells = self.populations.len();
        assert forall|leaf: int| 0 <= leaf < self.reverse_index.len() implies self.reverse_index[leaf]@.len()
            == 0 by {
            assert(self@.reverse_index[leaf].len() == 0);
        }

        let mut row: usize = 0;
        while row < rows.len()
            invariant
                row <= rows.len(),
                self@.wf(),
                self.depth == depth,
                first_leaf == cells_before_layer(depth),
                number_of_cells == self.populations.len(),
                forall|cell: int|
                    first_leaf <= cell < number_of_cells ==> self.populations[cell] == population(
                        rows@.take(row as int),
                        depth,
                        cell as nat,
                    ),
                forall|cell: int| 0 <= cell < first_leaf ==> self.populations[cell] == 0,
                forall|leaf: int|
                    0 <= leaf < self.reverse_index.len() ==> self.reverse_index[leaf]@.len() == 0,
            decreases rows.len() - row,
        {
            let leaf = get_absolute_cell_id(rows[row].0, rows[row].1, self.depth);
            proof {
                let before = rows@.take(row as int);
                let with_row = rows@.take(row + 1);
                assert(with_row.drop_last() == before);
                assert(with_row.last() == rows@[row as int]);
                lemma_population_bound(before, depth, leaf as nat);
                assert forall|cell: int|
                    first_leaf <= cell < number_of_cells implies #[trigger] population(
                    with_row,
                    depth,
                    cell as nat,
                ) == population(before, depth, cell as nat) + if cell == leaf {
                    1nat
                } else {
                    0nat
                } by {
                    lemma_leaf_contains_itself_only(cell as nat, leaf as nat, depth);
                }
            }
            self.populations[leaf] = self.populations[leaf] + 1;
            row = row + 1;
        }
        assert(rows@.take(rows@.len() as int) == rows@);

        let number_of_rows = rows.len();
        let mut layer: usize = self.depth;
        while layer > 0
            invariant
                number_of_rows == rows@.len(),
                layer <= depth,
                self@.wf(),
                self.depth == depth,
                number_of_cells == self.populations.len(),
                forall|done: int|
                    cells_before_layer(layer as nat) <= done < number_of_cells
                        ==> self.populations[done] == population(rows@, depth, done as nat),
                forall|ahead: int|
                    0 <= ahead < cells_before_layer(layer as nat) ==> self.populations[ahead] == 0,
                forall|leaf: int|
                    0 <= leaf < self.reverse_index.len() ==> self.reverse_index[leaf]@.len() == 0,
            decreases layer,
        {
            layer = layer - 1;
            proof {
                lemma_depth_fits(depth, layer as nat);
                lemma_depth_fits(depth, layer as nat + 1);
                lemma_layer_offsets(layer as nat);
                lemma_layer_offsets(depth);
                lemma_cells_before_layer_increases(layer as nat + 1, depth);
            }
            let first = get_number_of_elements_before_layer(layer);
            let last = get_number_of_elements_before_layer(layer + 1);
            let mut cell: usize = first;
            while cell < last
                invariant
                    number_of_rows == rows@.len(),
                    first <= cell <= last,
                    first == cells_before_layer(layer as nat),
                    last == cells_before_layer(layer as nat + 1),
                    last <= cells_before_layer(depth),
                    4 * cells_before_layer(depth) + 1 == number_of_cells,
                    self@.wf(),
                    self.depth == depth,
                    number_of_cells == self.populations.len(),
                    forall|done: int|
                        last <= done < number_of_cells ==> self.populations[done] == population(
                            rows@,
                            depth,
                            done as nat,
                        ),
                    forall|done: int|
                        first <= done < cell ==> self.populations[done] == population(
                            rows@,
                            depth,
                            done as nat,
                        ),
                    forall|ahead: int| cell <= ahead < last ==> self.populations[ahead] == 0,
                    forall|ahead: int| 0 <= ahead < first ==> self.populations[ahead] == 0,
                    forall|leaf: int|
                        0 <= leaf < self.reverse_index.len() ==> self.reverse_index[leaf]@.len()
                            == 0,
                decreases last - cell,
            {
                proof {
                    lemma_population_of_children(rows@, depth, cell as nat);
                    lemma_population_bound(rows@, depth, cell as nat);
                }
                let children = iter_child_cells(cell);
                assert(children[0] == 4 * cell + 1 && children[1] == 4 * cell + 2 && children[2]
                    == 4 * cell + 3 && children[3] == 4 * cell + 4);
                let population_below = self.populations[children[0]]
                    + self.populations[children[1]] + self.populations[children[2]]
                    + self.populations[children[3]];
                self.populations[cell] = population_below;
                cell = cell + 1;
            }
        }

        self.index.clear();
        let mut row: usize = 0;
        while row < rows.len()
            invariant
                row <= rows.len(),
                self@.wf(),
                self.depth == depth,
                number_of_cells == self.populations.len(),
                forall|done: int|
                    0 <= done < number_of_cells ==> self.populations[done] == population(
                        rows@,
                        depth,
                        done as nat,
                    ),
                self.index@.len() == row,
                forall|done: int|
                    0 <= done < row ==> self.index[done] == relative_cell_id(
                        rows[done].0 as int,
                        rows[done].1 as int,
                        depth,
                    ),
                forall|leaf: int|
                    0 <= leaf < self.reverse_index.len() ==> self.reverse_index[leaf]@
                        == rows_in_leaf(rows@.take(row as int), depth, leaf as nat),
            decreases rows.len() - row,
        {
            let leaf = get_relative_cell_id(rows[row].0, rows[row].1, self.depth);
            proof {
                let before = rows@.take(row as int);
                let with_row = rows@.take(row + 1);
                assert(with_row.drop_last() == before);
                assert(with_row.last() == rows@[row as int]);
            }
            self.reverse_index[leaf].push(row);
            self.index.push(leaf);
            row = row + 1;
        }
        proof {
            lemma_root_population(rows@, depth);
            assert forall|cell: int|
                0 <= cell < cells_before_layer(depth) implies #[trigger] population(
                rows@,
                depth,
                cell as nat,
            ) == population(rows@, depth, (4 * cell + 1) as nat) + population(
                rows@,
                depth,
                (4 * cell + 2) as nat,
            ) + population(rows@, depth, (4 * cell + 3) as nat) + population(
                rows@,
                depth,
                (4 * cell + 4) as nat,
            ) by {
                lemma_population_of_children(rows@, depth, cell as nat);
            }
        }
        Ok(())
    }

    /// The deepest layer of the grid.
    pub fn get_depth(&self) -> (depth: usize)
        ensures
            depth == self@.depth,
    {
        self.depth
    }

    /// The number of cells of the grid, over all layers.
    pub fn get_number_of_cells(&self) -> (count: usize)
        ensures
            count == self@.populations.len(),
    {
        self.populations.len()
    }

    /// The number of rows in or below the cell with the given absolute id.
    pub fn get_population(&self, cell: usize) -> (count: usize)
        requires
            cell < self@.populations.len(),
        ensures
            count == self@.populations[cell as int],
    {
        self.populations[cell]
    }

    /// For every row, the relative id of its leaf.
    pub fn get_index(&self) -> (index: &Vec<usize>)
        ensures
            index@ == self@.index,
    {
        &self.index
    }

    /// The rows listed under the leaf that the raw coordinates name.
    pub fn iter_siblings(&self, column: i64, row: i64) -> (rows: &Vec<usize>)
        requires
            self@.wf(),
        ensures
            relative_cell_id(column as int, row as int, self@.depth) < self@.reverse_index.len(),
            rows@ == self@.reverse_index[relative_cell_id(
                column as int,
                row as int,
                self@.depth,
            ) as int],
    {
        let leaf = get_relative_cell_id(column, row, self.depth);
        &self.reverse_index[leaf]
    }

    /// The rows with which row `sample` is matched one by one: the rows
    /// listed under the leaf that the raw coordinates name, without `sample`
    /// itself.
    pub fn iter_other_siblings(&self, column: i64, row: i64, sample: usize) -> (rows: Vec<
        usize,
    >)
        requires
            self@.wf(),
        ensures
            relative_cell_id(column as int, row as int, self@.depth) < self@.reverse_index.len(),
            rows@ == self@.reverse_index[relative_cell_id(
                column as int,
                row as int,
                self@.depth,
            ) as int].filter(|other: usize| other != sample),
    {
        let siblings = self.iter_siblings(column, row);
        let ghost others = |other: usize| other != sample;
        let mut rows: Vec<usize> = Vec::new();
        let mut position: usize = 0;
        proof {
            assert(siblings@.take(0) =~= Seq::<usize>::empty());
            siblings@.take(0).lemma_filter_len(others);
        }
        while position < siblings.len()
            invariant
                position <= siblings.len(),
                others == |other: usize| other != sample,
                rows@ == siblings@.take(position as int).filter(others),
            decreases siblings.len() - position,
        {
            proof {
                assert(siblings@.take(position + 1) =~= siblings@.take(position as int).push(
                    siblings@[position as int],
                ));
                siblings@.take(position as int).lemma_filter_push(
                    siblings@[position as int],
                    others,
                );
            }
            if siblings[position] != sample {
                rows.push(siblings[position]);
            }
            position = position + 1;
        }
        assert(siblings@.take(siblings@.len() as int) =~= siblings@);
        rows
    }

    /// The far-away cells of the point that the raw coordinates name: for
    /// every layer from 1 to one above the leaves, the siblings of the cell
    /// of that layer that holds the point which are that cell itself.
    pub fn iter_far_away_leafs(&self, column: i64, row: i64) -> (cells: Vec<usize>)
        requires
            self@.wf(),
        ensures
            cells@ == far_away_cells(column as int, row as int, self@.depth),
    {
        let ghost depth = self.depth as nat;
        let (cell_column, cell_row) = get_cell_coordinates(column, row, self.depth);
        let mut cells: Vec<usize> = Vec::new();
        let mut layer: usize = 1;
        proof {
            lemma_cell_id_in_layer(column as int, row as int, depth);
        }
        while layer < self.depth
            invariant
                1 <= layer,
                self.depth == depth,
                depth_fits(depth),
                layer <= depth || layer == 1,
                cell_column == clamp_coordinate(column as int, depth),
                cell_row == clamp_coordinate(row as int, depth),
                cell_column < grid_side(depth),
                cell_row < grid_side(depth),
                cells@.len() == layer - 1,
                forall|k: int|
                    0 <= k < layer - 1 ==> cells[k] == cell_above(
                        cell_column as nat,
                        cell_row as nat,
                        depth,
                        (k + 1) as nat,
                    ),
            decreases self.depth - layer,
        {
            let steps = self.depth - layer;
            proof {
                lemma_usize_shr_is_div(cell_column, steps);
                lemma_usize_shr_is_div(cell_row, steps);
                lemma_cell_above_contains(cell_column as nat, cell_row as nat, depth, layer as nat);
                lemma_depth_fits(depth, layer as nat);
                lemma_depth_fits(depth, depth);
                lemma_layer_offsets(depth);
                lemma_layer_offsets(0);
                lemma_cells_before_layer_increases(1, layer as nat);
                lemma_cells_before_layer_increases(layer as nat + 1, depth);
            }
            let own = get_absolute_cell_id(
                (cell_column >> steps) as i64,
                (cell_row >> steps) as i64,
                layer,
            );
            let mut siblings = iter_siblings_cells(own);
            cells.append(&mut siblings);
            layer = layer + 1;
        }
        proof {
            let expected = far_away_cells(column as int, row as int, depth);
            assert forall|k: int| 0 <= k < expected.len() implies cells@[k] == expected[k] by {
                lemma_cell_above_contains(
                    cell_column as nat,
                    cell_row as nat,
                    depth,
                    (k + 1) as nat,
                );
                lemma_depth_fits(depth, (k + 1) as nat);
            }
            assert(cells@ =~= expected);
        }
        cells
    }
}

} // verus!
