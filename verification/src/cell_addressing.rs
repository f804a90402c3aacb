//! Addressing of the cells of a complete quadtree.
//!
//! Layer `l` holds `4^l` cells. Within a layer a cell is named by the Z-order
//! interleaving of its column and row; over the whole tree it is named by that
//! number plus the count of the cells of all shallower layers, so that the
//! root is cell 0 and the children of cell `c` are `4c + 1 ..= 4c + 4`.

use vstd::prelude::*;
use vstd::arithmetic::power::pow;
use vstd::arithmetic::power2::{
    pow2,
    lemma2_to64,
    lemma2_to64_rest,
    lemma_pow2_pos,
    lemma_pow2_strictly_increases,
    lemma_pow2_unfold,
};
use crate::pdep::{
    even_mask,
    lemma_alternating_masks,
    lemma_pdep_double_mask,
    lemma_pdep_even_mask,
    lemma_spread_bound,
    lemma_spread_low_ones,
    pdep_spec,
    spread,
    EVEN_BITS,
    ODD_BITS,
};

verus! {

/// The cells of all layers above `layer` can be counted in a `usize`.
pub open spec fn layer_fits(layer: nat) -> bool {
    2 * layer <= usize::BITS
}

/// All the cells of a tree whose deepest layer is `depth` can be counted in a
/// `usize`.
pub open spec fn depth_fits(depth: nat) -> bool {
    layer_fits(depth + 1)
}

/// The number of cells in one row or column of layer `layer`: `2^layer`.
pub open spec fn grid_side(layer: nat) -> nat {
    pow2(layer)
}

/// The number of cells of layer `layer`: `4^layer`, written `2^(2 * layer)`.
pub open spec fn cells_in_layer(layer: nat) -> nat {
    pow2(2 * layer)
}

/// The number of cells of all layers above `layer`, which is the absolute id
/// of the first cell of `layer`: `(4^layer - 1) / 3`.
pub open spec fn cells_before_layer(layer: nat) -> nat {
    even_mask(layer)
}

/// A coordinate brought into the grid of `layer`: from below to the first
/// cell of the side, from above to the last.
pub open spec fn clamp_coordinate(raw: int, layer: nat) -> nat {
    if raw < 0 {
        0
    } else if raw < grid_side(layer) {
        raw as nat
    } else {
        (grid_side(layer) - 1) as nat
    }
}

/// The Z-order number of a cell: the bits of the column on the even positions,
/// those of the row on the odd positions.
pub open spec fn interleave(column: nat, row: nat) -> nat {
    spread(column) + 2 * spread(row)
}

/// The id, within its layer, of the cell that clamped coordinates name.
pub open spec fn relative_cell_id(column: int, row: int, layer: nat) -> nat {
    interleave(clamp_coordinate(column, layer), clamp_coordinate(row, layer))
}

/// The id, within the tree, of the cell that clamped coordinates name.
pub open spec fn absolute_cell_id(column: int, row: int, layer: nat) -> nat {
    cells_before_layer(layer) + relative_cell_id(column, row, layer)
}

/// The cell one layer up that holds cell `id`; the root has none.
pub open spec fn parent_cell(id: nat) -> nat
    recommends
        id >= 1,
{
    ((id - 1) / 4) as nat
}

/// The four cells one layer down that cell `id` holds.
pub open spec fn child_cells(id: nat) -> Seq<usize> {
    seq![(4 * id + 1) as usize, (4 * id + 2) as usize, (4 * id + 3) as usize, (4 * id + 4) as usize]
}

/// `4^layer` in the two ways of writing it.
pub proof fn lemma_cells_in_layer_is_power_of_four(layer: nat)
    ensures
        cells_in_layer(layer) == pow(4, layer),
    decreases layer,
{
    reveal(pow);
    if layer == 0 {
        lemma2_to64();
    } else {
        lemma_cells_in_layer_is_power_of_four((layer - 1) as nat);
        lemma_pow2_unfold(2 * layer);
        lemma_pow2_unfold((2 * layer - 1) as nat);
    }
}

/// Each layer starts where the one above ends: the first cell of layer
/// `layer + 1` lies `4^layer` after the first cell of `layer`, three times the
/// cells before a layer and one more are the cells of that layer, and the
/// first cell of a layer is the first child of the first cell above it.
pub proof fn lemma_layer_offsets(layer: nat)
    ensures
        cells_before_layer(layer + 1) - cells_before_layer(layer) == cells_in_layer(layer),
        cells_before_layer(layer + 1) - cells_before_layer(layer) == pow(4, layer),
        3 * cells_before_layer(layer) + 1 == cells_in_layer(layer),
        cells_before_layer(layer + 1) == 4 * cells_before_layer(layer) + 1,
    decreases layer,
{
    lemma_cells_in_layer_is_power_of_four(layer);
    if layer == 0 {
        lemma2_to64();
    } else {
        lemma_layer_offsets((layer - 1) as nat);
        lemma_pow2_unfold(2 * layer);
        lemma_pow2_unfold((2 * layer - 1) as nat);
    }
}

/// The layers are laid out in order: a shallower layer starts no later.
pub proof fn lemma_cells_before_layer_increases(shallow: nat, deep: nat)
    requires
        shallow <= deep,
    ensures
        cells_before_layer(shallow) <= cells_before_layer(deep),
    decreases deep - shallow,
{
    if shallow < deep {
        lemma_layer_offsets(shallow);
        lemma_cells_before_layer_increases(shallow + 1, deep);
    }
}

/// Cell counts of a tree whose depth fits stay within `usize`, and within the
/// 32 positions of each alternating mask.
pub proof fn lemma_depth_fits(depth: nat, layer: nat)
    requires
        depth_fits(depth),
        layer <= depth + 1,
    ensures
        layer <= 32,
        layer_fits(layer),
        cells_before_layer(layer) < cells_in_layer(layer),
        cells_in_layer(layer) <= usize::MAX + 1,
        layer <= depth ==> 4 * cells_in_layer(layer) <= usize::MAX + 1,
        layer <= depth ==> cells_before_layer(layer + 1) <= usize::MAX,
        1 <= grid_side(layer) <= cells_in_layer(layer),
        grid_side(layer) <= 0x1_0000_0000,
{
    lemma_layer_offsets(layer);
    lemma_layer_offsets(layer + 1);
    lemma_pow2_pos(layer);
    lemma2_to64();
    lemma2_to64_rest();
    if 2 * layer < 64 {
        lemma_pow2_strictly_increases(2 * layer, 64);
    }
    if 2 * layer < 32 {
        lemma_pow2_strictly_increases(2 * layer, 32);
    }
    if layer < 32 {
        lemma_pow2_strictly_increases(layer, 32);
    }
    if layer < 2 * layer {
        lemma_pow2_strictly_increases(layer, 2 * layer);
    }
    if layer <= depth {
        lemma_pow2_unfold(2 * layer + 2);
        lemma_pow2_unfold(2 * layer + 1);
        if 2 * layer + 2 < 64 {
            lemma_pow2_strictly_increases(2 * layer + 2, 64);
        }
        if 2 * layer + 2 < 32 {
            lemma_pow2_strictly_increases(2 * layer + 2, 32);
        }
    }
}

/// The number of cells before a layer is the deposit, on the even bits, of
/// as many low ones as the layer is deep.
pub proof fn lemma_cells_before_layer_is_deposit(layer: nat)
    requires
        layer_fits(layer),
    ensures
        1 <= pow2(layer) <= 0x1_0000_0000,
        cells_before_layer(layer) == pdep_spec((pow2(layer) - 1) as nat, EVEN_BITS as nat),
        cells_before_layer(layer) <= usize::MAX,
{
    lemma2_to64();
    lemma2_to64_rest();
    lemma_pow2_pos(layer);
    if layer < 32 {
        lemma_pow2_strictly_increases(layer, 32);
    }
    lemma_alternating_masks();
    lemma_pdep_even_mask((pow2(layer) - 1) as nat, 32);
    lemma_spread_low_ones(layer);
    lemma_layer_offsets(layer);
    if 2 * layer < 64 {
        lemma_pow2_strictly_increases(2 * layer, 64);
    }
    if 2 * layer < 32 {
        lemma_pow2_strictly_increases(2 * layer, 32);
    }
}

proof fn lemma_or_of_disjoint_digits(upper: u64, other_upper: u64, even: u64, odd: u64)
    by (bit_vector)
    requires
        upper < 0x4000_0000_0000_0000,
        other_upper < 0x4000_0000_0000_0000,
        even <= 1,
        odd <= 1,
    ensures
        (4 * other_upper + 2 * odd) as u64 | (4 * upper + even) as u64 == 4 * (other_upper | upper)
            + even + 2 * odd,
{
}

/// Spread columns and doubled spread rows share no bit, so joining them with
/// `|` adds them.
proof fn lemma_interleave_by_or(column: nat, row: nat, layer: nat)
    requires
        column < pow2(layer),
        row < pow2(layer),
        layer <= 31,
    ensures
        interleave(column, row) < pow2(2 * layer),
        pow2(2 * layer) <= 0x4000_0000_0000_0000,
        ((2 * spread(row)) as u64) | (spread(column) as u64) == interleave(column, row),
    decreases layer,
{
    lemma_spread_bound(column, layer);
    lemma_spread_bound(row, layer);
    lemma_layer_offsets(layer);
    lemma2_to64();
    lemma2_to64_rest();
    if 2 * layer < 62 {
        lemma_pow2_strictly_increases(2 * layer, 62);
    }
    if layer == 0 {
        assert(column == 0 && row == 0);
        assert(0u64 | 0u64 == 0u64) by (bit_vector);
    } else {
        lemma_pow2_unfold(layer);
        lemma_interleave_by_or(column / 2, row / 2, (layer - 1) as nat);
        lemma_or_of_disjoint_digits(
            spread(column / 2) as u64,
            (2 * spread(row / 2)) as u64,
            (column % 2) as u64,
            (row % 2) as u64,
        );
    }
}

/// The Z-order number of a cell is the deposit of its row on the odd bits
/// joined with `|` to the deposit of its column on the even bits.
pub proof fn lemma_interleave_is_deposit(column: nat, row: nat, layer: nat)
    requires
        column < grid_side(layer),
        row < grid_side(layer),
        layer <= 31,
    ensures
        pdep_spec(column, EVEN_BITS as nat) == spread(column),
        pdep_spec(row, ODD_BITS as nat) == 2 * spread(row),
        interleave(column, row) < cells_in_layer(layer),
        cells_in_layer(layer) <= 0x4000_0000_0000_0000,
        (pdep_spec(row, ODD_BITS as nat) as u64) | (pdep_spec(column, EVEN_BITS as nat) as u64)
            == interleave(column, row),
{
    lemma2_to64();
    lemma2_to64_rest();
    if layer < 32 {
        lemma_pow2_strictly_increases(layer, 32);
    }
    lemma_alternating_masks();
    lemma_pdep_even_mask(column, 32);
    lemma_pdep_even_mask(row, 32);
    lemma_pdep_double_mask(row, even_mask(32));
    lemma_interleave_by_or(column, row, layer);
}

/// The children of a cell of one layer are cells of the next, and each has
/// that cell as its parent.
pub proof fn lemma_children_in_next_layer(cell: nat, layer: nat, child: nat)
    requires
        cells_before_layer(layer) <= cell < cells_before_layer(layer + 1),
        4 * cell + 1 <= child <= 4 * cell + 4,
    ensures
        cells_before_layer(layer + 1) <= child < cells_before_layer(layer + 2),
        parent_cell(child) == cell,
{
    lemma_layer_offsets(layer);
    lemma_layer_offsets(layer + 1);
}

/// A cell named by coordinates of its layer has a Z-order number of that layer.
pub proof fn lemma_interleave_in_layer(column: nat, row: nat, layer: nat)
    requires
        column < grid_side(layer),
        row < grid_side(layer),
    ensures
        interleave(column, row) < cells_in_layer(layer),
{
    lemma_spread_bound(column, layer);
    lemma_spread_bound(row, layer);
    lemma_layer_offsets(layer);
}

/// Clamped coordinates always name a cell of their layer.
pub proof fn lemma_cell_id_in_layer(column: int, row: int, layer: nat)
    ensures
        clamp_coordinate(column, layer) < grid_side(layer),
        clamp_coordinate(row, layer) < grid_side(layer),
        relative_cell_id(column, row, layer) < cells_in_layer(layer),
        cells_before_layer(layer) <= absolute_cell_id(column, row, layer) < cells_before_layer(
            layer + 1,
        ),
{
    lemma_pow2_pos(layer);
    lemma_interleave_in_layer(
        clamp_coordinate(column, layer),
        clamp_coordinate(row, layer),
        layer,
    );
    lemma_layer_offsets(layer);
}

/// Halving both coordinates of a cell names its parent: within the layers,
/// and over the whole tree.
pub proof fn lemma_interleave_parent(column: nat, row: nat, layer: nat)
    requires
        layer >= 1,
    ensures
        interleave(column / 2, row / 2) == interleave(column, row) / 4,
        cells_before_layer((layer - 1) as nat) + interleave(column / 2, row / 2) == parent_cell(
            cells_before_layer(layer) + interleave(column, row),
        ),
{
    lemma_layer_offsets((layer - 1) as nat);
}

/// Two cells with the same Z-order number have the same coordinates.
pub proof fn lemma_interleave_injective(column: nat, row: nat, other_column: nat, other_row: nat)
    requires
        interleave(column, row) == interleave(other_column, other_row),
    ensures
        column == other_column,
        row == other_row,
    decreases column + row + other_column + other_row,
{
    if column + row + other_column + other_row > 0 {
        assert(interleave(column, row) == column % 2 + 2 * (row % 2) + 4 * interleave(
            column / 2,
            row / 2,
        ));
        assert(interleave(other_column, other_row) == other_column % 2 + 2 * (other_row % 2) + 4
            * interleave(other_column / 2, other_row / 2));
        lemma_interleave_injective(column / 2, row / 2, other_column / 2, other_row / 2);
    }
}

/// The cell of `layer` that holds the cell of the deeper layer `depth` with
/// the given coordinates: each coordinate halved once per layer in between.
pub open spec fn cell_above(column: nat, row: nat, depth: nat, layer: nat) -> nat
    recommends
        layer <= depth,
{
    cells_before_layer(layer) + interleave(
        column / pow2((depth - layer) as nat),
        row / pow2((depth - layer) as nat),
    )
}

/// The cells that stand for the far field of a point: for every layer from 1
/// to `depth - 1`, in this order, the cell of that layer that holds the leaf
/// which the raw coordinates name.
pub open spec fn far_away_cells(column: int, row: int, depth: nat) -> Seq<usize> {
    Seq::new(
        if depth >= 1 {
            (depth - 1) as nat
        } else {
            0
        },
        |k: int|
            cell_above(
                clamp_coordinate(column, depth),
                clamp_coordinate(row, depth),
                depth,
                (k + 1) as nat,
            ) as usize,
    )
}

/// Cell `cell` is `inner` or lies above it in the tree.
pub open spec fn cell_contains(cell: nat, inner: nat) -> bool
    decreases inner,
{
    inner == cell || (inner > cell && cell_contains(cell, parent_cell(inner)))
}

/// The leaf, by its absolute id, that the coordinates of a row fall into.
pub open spec fn leaf_of(coordinates: (i64, i64), depth: nat) -> nat {
    absolute_cell_id(coordinates.0 as int, coordinates.1 as int, depth)
}

/// The number of rows whose leaf is `cell` or lies below it.
pub open spec fn population(rows: Seq<(i64, i64)>, depth: nat, cell: nat) -> nat
    decreases rows.len(),
{
    if rows.len() == 0 {
        0
    } else {
        let before = population(rows.drop_last(), depth, cell);
        if cell_contains(cell, leaf_of(rows.last(), depth)) {
            before + 1
        } else {
            before
        }
    }
}

/// The rows, in increasing order, that fall into the leaf with relative id
/// `leaf`.
pub open spec fn rows_in_leaf(rows: Seq<(i64, i64)>, depth: nat, leaf: nat) -> Seq<usize>
    decreases rows.len(),
{
    if rows.len() == 0 {
        Seq::empty()
    } else {
        let before = rows_in_leaf(rows.drop_last(), depth, leaf);
        if relative_cell_id(rows.last().0 as int, rows.last().1 as int, depth) == leaf {
            before.push((rows.len() - 1) as usize)
        } else {
            before
        }
    }
}

/// The populations of the cells `first ..= last - 1`, added up.
pub open spec fn population_sum(
    rows: Seq<(i64, i64)>,
    depth: nat,
    first: nat,
    last: nat,
) -> nat
    decreases last,
{
    if last <= first {
        0
    } else {
        population_sum(rows, depth, first, (last - 1) as nat) + population(
            rows,
            depth,
            (last - 1) as nat,
        )
    }
}

/// No cell holds more rows than there are.
pub proof fn lemma_population_bound(rows: Seq<(i64, i64)>, depth: nat, cell: nat)
    ensures
        population(rows, depth, cell) <= rows.len(),
    decreases rows.len(),
{
    if rows.len() > 0 {
        lemma_population_bound(rows.drop_last(), depth, cell);
    }
}

/// The root holds every cell.
pub proof fn lemma_root_contains(inner: nat)
    ensures
        cell_contains(0, inner),
    decreases inner,
{
    if inner > 0 {
        lemma_root_contains(parent_cell(inner));
    }
}

/// The root holds every row.
pub proof fn lemma_root_population(rows: Seq<(i64, i64)>, depth: nat)
    ensures
        population(rows, depth, 0) == rows.len(),
    decreases rows.len(),
{
    if rows.len() > 0 {
        lemma_root_population(rows.drop_last(), depth);
        lemma_root_contains(leaf_of(rows.last(), depth));
    }
}

/// The cell found by halving the coordinates of a cell once per layer lies
/// in its layer and holds that cell.
pub proof fn lemma_cell_above_contains(column: nat, row: nat, depth: nat, layer: nat)
    requires
        layer <= depth,
        column < grid_side(depth),
        row < grid_side(depth),
    ensures
        column / pow2((depth - layer) as nat) < grid_side(layer),
        row / pow2((depth - layer) as nat) < grid_side(layer),
        cells_before_layer(layer) <= cell_above(column, row, depth, layer) < cells_before_layer(
            layer + 1,
        ),
        cell_contains(cell_above(column, row, depth, layer), cell_above(column, row, depth, depth)),
    decreases depth - layer,
{
    let steps = (depth - layer) as nat;
    lemma2_to64();
    lemma_pow2_pos(steps);
    if layer == depth {
        assert(column / 1 == column && row / 1 == row);
        lemma_interleave_in_layer(column, row, depth);
        lemma_layer_offsets(depth);
    } else {
        lemma_pow2_unfold(depth);
        lemma_pow2_unfold(steps);
        lemma_pow2_pos((steps - 1) as nat);
        lemma_cell_above_contains(column / 2, row / 2, (depth - 1) as nat, layer);
        vstd::arithmetic::div_mod::lemma_div_denominator(
            column as int,
            2,
            pow2((steps - 1) as nat) as int,
        );
        vstd::arithmetic::div_mod::lemma_div_denominator(
            row as int,
            2,
            pow2((steps - 1) as nat) as int,
        );
        lemma_interleave_parent(column, row, depth);
        lemma_interleave_in_layer(column, row, depth);
        lemma_layer_offsets(depth);
        lemma_cells_before_layer_increases(layer + 1, depth);
        let leaf = cell_above(column, row, depth, depth);
        assert(pow2(0) == 1);
        assert(column / 1 == column && row / 1 == row);
        assert((column / 2) / 1 == column / 2 && (row / 2) / 1 == row / 2);
        assert(leaf == cells_before_layer(depth) + interleave(column, row));
        assert(cell_above(column / 2, row / 2, (depth - 1) as nat, (depth - 1) as nat)
            == cells_before_layer((depth - 1) as nat) + interleave(column / 2, row / 2));
        assert(cell_above(column / 2, row / 2, (depth - 1) as nat, (depth - 1) as nat)
            == parent_cell(leaf));
        assert(cell_above(column / 2, row / 2, (depth - 1) as nat, layer) == cell_above(
            column,
            row,
            depth,
            layer,
        ));
    }
}

/// Every far-away cell of a point holds the leaf of the point, and the cell
/// for layer `k + 1` stands at position `k`.
pub proof fn lemma_far_away_cells_hold_the_leaf(column: int, row: int, depth: nat, k: int)
    requires
        depth_fits(depth),
        0 <= k < depth - 1,
    ensures
        far_away_cells(column, row, depth).len() == depth - 1,
        cells_before_layer((k + 1) as nat) <= far_away_cells(column, row, depth)[k]
            < cells_before_layer((k + 2) as nat),
        cell_contains(
            far_away_cells(column, row, depth)[k] as nat,
            absolute_cell_id(column, row, depth),
        ),
{
    lemma_cell_id_in_layer(column, row, depth);
    let cell_column = clamp_coordinate(column, depth);
    let cell_row = clamp_coordinate(row, depth);
    lemma_cell_above_contains(cell_column, cell_row, depth, (k + 1) as nat);
    lemma_cell_above_contains(cell_column, cell_row, depth, depth);
    lemma_depth_fits(depth, (k + 1) as nat);
    lemma2_to64();
    assert(cell_column / 1 == cell_column && cell_row / 1 == cell_row);
}

/// 1 if `cell` holds `inner`, else 0.
pub open spec fn holds_count(cell: nat, inner: nat) -> nat {
    if cell_contains(cell, inner) {
        1
    } else {
        0
    }
}

/// A cell below `cell` lies in or below exactly one of the four children of
/// `cell` when `cell` holds it, and in none of them otherwise.
pub proof fn lemma_contained_by_one_child(cell: nat, inner: nat)
    requires
        inner > cell,
    ensures
        holds_count(cell, inner) == holds_count(4 * cell + 1, inner) + holds_count(
            4 * cell + 2,
            inner,
        ) + holds_count(4 * cell + 3, inner) + holds_count(4 * cell + 4, inner),
    decreases inner,
{
    let above = parent_cell(inner);
    let first = 4 * cell + 1;
    let second = 4 * cell + 2;
    let third = 4 * cell + 3;
    let fourth = 4 * cell + 4;
    assert(cell_contains(cell, inner) == cell_contains(cell, above));
    if above == cell {
        assert(cell_contains(cell, above));
        assert(!cell_contains(first, above));
        assert(!cell_contains(second, above));
        assert(!cell_contains(third, above));
        assert(!cell_contains(fourth, above));
        assert(cell_contains(first, inner) == (inner == first));
        assert(cell_contains(second, inner) == (inner == second));
        assert(cell_contains(third, inner) == (inner == third));
        assert(cell_contains(fourth, inner) == (inner == fourth));
    } else if above < cell {
        assert(!cell_contains(cell, above));
        assert(inner < first);
        assert(!cell_contains(first, inner));
        assert(!cell_contains(second, inner));
        assert(!cell_contains(third, inner));
        assert(!cell_contains(fourth, inner));
    } else {
        lemma_contained_by_one_child(cell, above);
        assert(inner > fourth);
        assert(cell_contains(first, inner) == cell_contains(first, above));
        assert(cell_contains(second, inner) == cell_contains(second, above));
        assert(cell_contains(third, inner) == cell_contains(third, above));
        assert(cell_contains(fourth, inner) == cell_contains(fourth, above));
    }
}

/// The population of a cell above the leaves is the sum of the populations of
/// its four children.
pub proof fn lemma_population_of_children(rows: Seq<(i64, i64)>, depth: nat, cell: nat)
    requires
        cell < cells_before_layer(depth),
    ensures
        population(rows, depth, cell) == population(rows, depth, 4 * cell + 1) + population(
            rows,
            depth,
            4 * cell + 2,
        ) + population(rows, depth, 4 * cell + 3) + population(rows, depth, 4 * cell + 4),
    decreases rows.len(),
{
    if rows.len() > 0 {
        lemma_population_of_children(rows.drop_last(), depth, cell);
        let leaf = leaf_of(rows.last(), depth);
        lemma_cell_id_in_layer(rows.last().0 as int, rows.last().1 as int, depth);
        lemma_contained_by_one_child(cell, leaf);
    }
}

/// Two different cells of the deepest layer hold no leaf in common: a leaf
/// lies in itself alone.
pub proof fn lemma_leaf_contains_itself_only(cell: nat, leaf: nat, depth: nat)
    requires
        cells_before_layer(depth) <= cell,
        cells_before_layer(depth) <= leaf < cells_before_layer(depth + 1),
    ensures
        cell_contains(cell, leaf) <==> cell == leaf,
{
    lemma_layer_offsets(depth);
    if leaf > cell {
        assert(parent_cell(leaf) < cell);
        assert(!cell_contains(cell, parent_cell(leaf)));
    }
}

/// The list of a leaf names rows only, all of them rows of that leaf, each
/// before the next.
pub proof fn lemma_rows_in_leaf_are_its_rows(
    rows: Seq<(i64, i64)>,
    depth: nat,
    leaf: nat,
    position: int,
)
    requires
        rows.len() <= usize::MAX,
        0 <= position < rows_in_leaf(rows, depth, leaf).len(),
    ensures
        rows_in_leaf(rows, depth, leaf)[position] < rows.len(),
        relative_cell_id(
            rows[rows_in_leaf(rows, depth, leaf)[position] as int].0 as int,
            rows[rows_in_leaf(rows, depth, leaf)[position] as int].1 as int,
            depth,
        ) == leaf,
        position > 0 ==> rows_in_leaf(rows, depth, leaf)[position - 1] < rows_in_leaf(
            rows,
            depth,
            leaf,
        )[position],
    decreases rows.len(),
{
    let before = rows_in_leaf(rows.drop_last(), depth, leaf);
    if position < before.len() {
        lemma_rows_in_leaf_are_its_rows(rows.drop_last(), depth, leaf, position);
    } else if position > 0 {
        lemma_rows_in_leaf_are_its_rows(rows.drop_last(), depth, leaf, position - 1);
    }
}

/// Every row is listed under the leaf that it falls into.
pub proof fn lemma_rows_in_leaf_hold_every_row(rows: Seq<(i64, i64)>, depth: nat, row: int)
    requires
        rows.len() <= usize::MAX,
        0 <= row < rows.len(),
    ensures
        rows_in_leaf(
            rows,
            depth,
            relative_cell_id(rows[row].0 as int, rows[row].1 as int, depth),
        ).contains(row as usize),
    decreases rows.len(),
{
    let leaf = relative_cell_id(rows[row].0 as int, rows[row].1 as int, depth);
    let listed = rows_in_leaf(rows, depth, leaf);
    if row == rows.len() - 1 {
        assert(listed.last() == row as usize);
    } else {
        lemma_rows_in_leaf_hold_every_row(rows.drop_last(), depth, row);
        let before = rows_in_leaf(rows.drop_last(), depth, leaf);
        let position = choose|position: int|
            0 <= position < before.len() && before[position] == row as usize;
        assert(listed[position] == row as usize);
    }
}

/// A grid of depth 0 has one leaf, which lists every row.
pub proof fn lemma_single_leaf_holds_all_rows(rows: Seq<(i64, i64)>)
    requires
        rows.len() <= usize::MAX,
    ensures
        forall|row: int|
            0 <= row < rows.len() ==> #[trigger] relative_cell_id(
                rows[row].0 as int,
                rows[row].1 as int,
                0,
            ) == 0,
        rows_in_leaf(rows, 0, 0) == Seq::new(rows.len(), |row: int| row as usize),
        far_away_cells(0, 0, 0).len() == 0,
    decreases rows.len(),
{
    lemma2_to64();
    assert forall|row: int| 0 <= row < rows.len() implies #[trigger] relative_cell_id(
        rows[row].0 as int,
        rows[row].1 as int,
        0,
    ) == 0 by {
        assert(clamp_coordinate(rows[row].0 as int, 0) == 0);
        assert(clamp_coordinate(rows[row].1 as int, 0) == 0);
    }
    if rows.len() > 0 {
        lemma_single_leaf_holds_all_rows(rows.drop_last());
        assert(relative_cell_id(rows.last().0 as int, rows.last().1 as int, 0) == 0);
        assert(rows_in_leaf(rows, 0, 0) =~= Seq::new(rows.len(), |row: int| row as usize));
    } else {
        assert(rows_in_leaf(rows, 0, 0) =~= Seq::new(rows.len(), |row: int| row as usize));
    }
}

/// The population of a leaf is the length of its list of rows.
pub proof fn lemma_leaf_population(rows: Seq<(i64, i64)>, depth: nat, leaf: nat)
    ensures
        population(rows, depth, cells_before_layer(depth) + leaf) == rows_in_leaf(
            rows,
            depth,
            leaf,
        ).len(),
    decreases rows.len(),
{
    if rows.len() > 0 {
        lemma_leaf_population(rows.drop_last(), depth, leaf);
        lemma_cell_id_in_layer(rows.last().0 as int, rows.last().1 as int, depth);
        lemma_leaf_contains_itself_only(
            cells_before_layer(depth) + leaf,
            leaf_of(rows.last(), depth),
            depth,
        );
    }
}

/// Within the deepest layer, one more row adds one to the sum of the
/// populations of a range of cells if its leaf is in the range, else nothing.
pub proof fn lemma_population_sum_step(
    rows: Seq<(i64, i64)>,
    depth: nat,
    first: nat,
    last: nat,
)
    requires
        rows.len() > 0,
        cells_before_layer(depth) <= first,
    ensures
        population_sum(rows, depth, first, last) == population_sum(
            rows.drop_last(),
            depth,
            first,
            last,
        ) + if first <= leaf_of(rows.last(), depth) < last {
            1nat
        } else {
            0nat
        },
    decreases last,
{
    if last > first {
        lemma_population_sum_step(rows, depth, first, (last - 1) as nat);
        lemma_cell_id_in_layer(rows.last().0 as int, rows.last().1 as int, depth);
        lemma_leaf_contains_itself_only((last - 1) as nat, leaf_of(rows.last(), depth), depth);
    }
}

/// The populations of the leaves add up to the number of rows.
pub proof fn lemma_leaf_populations_sum(rows: Seq<(i64, i64)>, depth: nat)
    ensures
        population_sum(
            rows,
            depth,
            cells_before_layer(depth),
            cells_before_layer(depth + 1),
        ) == rows.len(),
    decreases rows.len(),
{
    let first = cells_before_layer(depth);
    let last = cells_before_layer(depth + 1);
    if rows.len() == 0 {
        lemma_population_sum_of_no_rows(rows, depth, first, last);
    } else {
        lemma_leaf_populations_sum(rows.drop_last(), depth);
        lemma_population_sum_step(rows, depth, first, last);
        lemma_cell_id_in_layer(rows.last().0 as int, rows.last().1 as int, depth);
    }
}

/// Without rows every population is 0.
pub proof fn lemma_population_sum_of_no_rows(
    rows: Seq<(i64, i64)>,
    depth: nat,
    first: nat,
    last: nat,
)
    requires
        rows.len() == 0,
    ensures
        population_sum(rows, depth, first, last) == 0,
    decreases last,
{
    if last > first {
        lemma_population_sum_of_no_rows(rows, depth, first, (last - 1) as nat);
    }
}

} // verus!
