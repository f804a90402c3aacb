use dimensional_reduction::gradient_grid::{
    get_absolute_cell_id, get_cell_coordinates, get_grid_side,
    get_number_of_elements_before_layer, get_number_of_elements_in_layer, get_relative_cell_id,
    is_depth_supported, iter_child_cells, iter_siblings_cells, GradientGrid,
};
use dimensional_reduction::pdep::{pdep, EVEN_BITS, ODD_BITS};

#[test]
fn pdep_deposits_low_bits_on_the_mask() {
    assert_eq!(pdep(0b101, 0b11010), 0b10010);
    assert_eq!(pdep(0b111, EVEN_BITS), 0b10101);
    assert_eq!(pdep(0b111, ODD_BITS), 0b101010);
    assert_eq!(pdep(u64::MAX, u64::MAX), u64::MAX);
    assert_eq!(pdep(u64::MAX, 0), 0);
    assert_eq!(pdep(0, u64::MAX), 0);
    assert_eq!(pdep(1, 0x8000_0000_0000_0000), 0x8000_0000_0000_0000);
}

#[test]
fn layers_start_after_the_cells_above_them() {
    assert_eq!(get_number_of_elements_before_layer(0), 0);
    assert_eq!(get_number_of_elements_before_layer(1), 1);
    assert_eq!(get_number_of_elements_before_layer(2), 5);
    assert_eq!(get_number_of_elements_before_layer(3), 21);
    assert_eq!(get_number_of_elements_before_layer(4), 85);
}

#[test]
fn consecutive_layer_offsets_differ_by_a_power_of_four() {
    let mut cells: usize = 1;
    for layer in 0..15 {
        assert_eq!(
            get_number_of_elements_before_layer(layer + 1)
                - get_number_of_elements_before_layer(layer),
            cells
        );
        assert_eq!(get_number_of_elements_in_layer(layer), cells);
        cells *= 4;
    }
}

#[test]
fn a_depth_is_supported_while_its_cells_can_be_counted() {
    assert!(is_depth_supported(0));
    assert!(is_depth_supported(3));
    assert!(is_depth_supported((usize::BITS / 2 - 1) as usize));
    assert!(!is_depth_supported((usize::BITS / 2) as usize));
    assert!(!is_depth_supported(usize::MAX));
}

#[test]
fn near_field_partners_leave_the_row_itself_out() {
    let mut grid = GradientGrid::new(2);
    assert_eq!(grid.prepare(&[(0, 0), (3, 3), (3, 3), (1, 0), (9, 9), (2, 1)]), Ok(()));
    assert_eq!(grid.iter_other_siblings(3, 3, 2), vec![1, 4]);
    assert_eq!(grid.iter_other_siblings(3, 3, 0), vec![1, 2, 4]);
    assert_eq!(grid.iter_other_siblings(0, 0, 0), Vec::<usize>::new());
}

#[test]
fn grid_side_doubles_per_layer() {
    assert_eq!(get_grid_side(0), 1);
    assert_eq!(get_grid_side(3), 8);
}

#[test]
fn coordinates_are_clamped_to_the_last_cell() {
    assert_eq!(get_cell_coordinates(3, 9, 3), (3, 7));
    assert_eq!(get_cell_coordinates(i64::MAX, 0, 2), (3, 0));
    assert_eq!(get_cell_coordinates(5, 5, 0), (0, 0));
    assert_eq!(get_cell_coordinates(7, 8, 3), (7, 7));
}

#[test]
fn coordinates_are_clamped_to_the_first_cell() {
    assert_eq!(get_cell_coordinates(-1, 2, 3), (0, 2));
    assert_eq!(get_cell_coordinates(4, i64::MIN, 3), (4, 0));
    assert_eq!(get_relative_cell_id(-5, -5, 2), 0);
    assert_eq!(get_absolute_cell_id(-5, 9, 2), 5 + 0b10_10);
}

#[test]
fn relative_id_interleaves_column_and_row() {
    assert_eq!(get_relative_cell_id(0, 0, 2), 0);
    assert_eq!(get_relative_cell_id(1, 0, 2), 1);
    assert_eq!(get_relative_cell_id(0, 1, 2), 2);
    assert_eq!(get_relative_cell_id(1, 1, 2), 3);
    assert_eq!(get_relative_cell_id(2, 0, 2), 4);
    assert_eq!(get_relative_cell_id(3, 3, 2), 15);
    assert_eq!(get_relative_cell_id(5, 3, 3), 0b01_10_11);
    assert_eq!(get_relative_cell_id(7, 0, 3), 0b01_01_01);
    assert_eq!(get_relative_cell_id(0, 7, 3), 0b10_10_10);
}

#[test]
fn absolute_id_adds_the_layer_offset() {
    assert_eq!(get_absolute_cell_id(0, 0, 0), 0);
    assert_eq!(get_absolute_cell_id(1, 1, 1), 4);
    assert_eq!(get_absolute_cell_id(3, 3, 2), 20);
    assert_eq!(get_absolute_cell_id(0, 0, 3), 21);
}

#[test]
fn children_follow_their_parent() {
    assert_eq!(iter_child_cells(0), vec![1, 2, 3, 4]);
    assert_eq!(iter_child_cells(4), vec![17, 18, 19, 20]);
}

#[test]
fn siblings_of_a_cell_are_the_cell_itself() {
    assert_eq!(iter_siblings_cells(1), vec![1]);
    assert_eq!(iter_siblings_cells(4), vec![4]);
    assert_eq!(iter_siblings_cells(17), vec![17]);
}

#[test]
fn prepare_counts_rows_per_cell() {
    let mut grid = GradientGrid::new(2);
    assert_eq!(grid.get_number_of_cells(), 21);
    let rows = vec![(0, 0), (3, 3), (3, 3), (1, 0), (9, 9), (2, 1)];
    assert_eq!(grid.prepare(&rows), Ok(()));
    assert_eq!(grid.get_index(), &vec![0, 15, 15, 1, 15, 6]);
    assert_eq!(grid.get_population(0), 6);
    assert_eq!(grid.get_population(1), 2);
    assert_eq!(grid.get_population(2), 1);
    assert_eq!(grid.get_population(3), 0);
    assert_eq!(grid.get_population(4), 3);
    assert_eq!(grid.get_population(5), 1);
    assert_eq!(grid.get_population(6), 1);
    assert_eq!(grid.get_population(5 + 6), 1);
    assert_eq!(grid.get_population(20), 3);
    assert_eq!(grid.iter_siblings(3, 3), &vec![1, 2, 4]);
    assert_eq!(grid.iter_siblings(0, 0), &vec![0]);
    assert_eq!(grid.iter_siblings(0, 3), &Vec::<usize>::new());
}

#[test]
fn leaf_populations_add_up_to_the_number_of_rows() {
    let mut grid = GradientGrid::new(3);
    let rows: Vec<(i64, i64)> = (0..100).map(|i| ((i * 7) % 11 - 1, (i * 5) % 13 - 2)).collect();
    assert_eq!(grid.prepare(&rows), Ok(()));
    let first_leaf = get_number_of_elements_before_layer(3);
    let total: usize = (first_leaf..grid.get_number_of_cells())
        .map(|cell| grid.get_population(cell))
        .sum();
    assert_eq!(total, 100);
    assert_eq!(grid.get_population(0), 100);
    for cell in 0..first_leaf {
        let below: usize = iter_child_cells(cell).into_iter().map(|c| grid.get_population(c)).sum();
        assert_eq!(grid.get_population(cell), below);
    }
}

#[test]
fn every_row_is_indexed_under_a_leaf_that_lists_it() {
    let mut grid = GradientGrid::new(3);
    let rows: Vec<(i64, i64)> = (0..60).map(|i| ((i * 3) % 10 - 1, (i * 7) % 9)).collect();
    assert_eq!(grid.prepare(&rows), Ok(()));
    let first_leaf = get_number_of_elements_before_layer(3);
    for (row, coordinates) in rows.iter().enumerate() {
        let leaf = grid.get_index()[row];
        assert_eq!(leaf, get_relative_cell_id(coordinates.0, coordinates.1, 3));
        assert!(first_leaf + leaf < grid.get_number_of_cells());
        assert_eq!(
            first_leaf + leaf,
            get_absolute_cell_id(coordinates.0, coordinates.1, 3)
        );
        let listed = grid.iter_siblings(coordinates.0, coordinates.1);
        assert!(listed.contains(&row));
        assert!(listed.windows(2).all(|pair| pair[0] < pair[1]));
        assert_eq!(grid.get_population(first_leaf + leaf), listed.len());
    }
}

#[test]
fn prepare_rejects_an_empty_list_of_rows_and_leaves_the_grid_reset() {
    let mut grid = GradientGrid::new(1);
    assert_eq!(grid.prepare(&[(0, 0), (1, 1)]), Ok(()));
    assert_eq!(grid.prepare(&[]), Err("The provided object is empty".to_string()));
    for cell in 0..grid.get_number_of_cells() {
        assert_eq!(grid.get_population(cell), 0);
    }
    assert_eq!(grid.iter_siblings(0, 0), &Vec::<usize>::new());
    assert_eq!(grid.iter_siblings(1, 1), &Vec::<usize>::new());
    let mut empty = GradientGrid::new(0);
    assert_eq!(empty.prepare(&[]), Err("The provided object is empty".to_string()));
}

#[test]
fn prepare_forgets_the_previous_rows() {
    let mut grid = GradientGrid::new(1);
    assert_eq!(grid.prepare(&[(0, 0), (1, 1)]), Ok(()));
    assert_eq!(grid.prepare(&[(1, 0)]), Ok(()));
    assert_eq!(grid.get_population(0), 1);
    assert_eq!(grid.get_population(1), 0);
    assert_eq!(grid.get_population(2), 1);
    assert_eq!(grid.get_population(4), 0);
    assert_eq!(grid.get_index(), &vec![1]);
    assert_eq!(grid.iter_siblings(1, 0), &vec![0]);
    assert_eq!(grid.iter_siblings(1, 1), &Vec::<usize>::new());
}

#[test]
fn far_away_cells_are_the_cells_above_the_leaf() {
    let grid = GradientGrid::new(3);
    assert_eq!(grid.iter_far_away_leafs(5, 3), vec![1 + 0b01, 5 + 0b01_10]);
    assert_eq!(grid.iter_far_away_leafs(0, 0), vec![1, 5]);
    assert_eq!(grid.iter_far_away_leafs(100, 100), vec![4, 20]);
}

#[test]
fn a_grid_of_depth_zero_has_one_leaf_and_no_far_field() {
    let mut grid = GradientGrid::new(0);
    assert_eq!(grid.get_depth(), 0);
    assert_eq!(grid.get_number_of_cells(), 1);
    assert_eq!(grid.prepare(&[(0, 0), (4, 2), (1, 1)]), Ok(()));
    assert_eq!(grid.iter_far_away_leafs(4, 2), Vec::<usize>::new());
    assert_eq!(grid.iter_siblings(4, 2), &vec![0, 1, 2]);
    assert_eq!(grid.get_population(0), 3);
    assert_eq!(grid.get_index(), &vec![0, 0, 0]);
}

#[test]
fn a_grid_of_depth_one_has_no_far_field() {
    let grid = GradientGrid::new(1);
    assert_eq!(grid.iter_far_away_leafs(1, 0), Vec::<usize>::new());
}
