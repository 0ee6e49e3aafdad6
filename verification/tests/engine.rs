use game_of_life::{get_status, Field, FieldError};

fn gen_3x3_fields(cells_vec: Vec<Vec<usize>>) -> Vec<Field> {
    let mut fields = Vec::new();
    for cells in cells_vec {
        let field = Field::new(3, 3, cells).unwrap();
        fields.push(field);
    }
    fields
}

#[test]
fn any_live_cell_with_fewer_than_two_live_neighbours_dies() {
    // Arrange
    let cells_vec = vec![
        vec![0, 0, 0, 1, 1, 0, 0, 0, 0],
        vec![0, 1, 0, 0, 1, 0, 0, 0, 0],
        vec![1, 0, 0, 0, 1, 0, 0, 0, 0],
        vec![0, 0, 0, 0, 1, 0, 0, 0, 1],
    ];
    let fields = gen_3x3_fields(cells_vec);
    assert_eq!(fields.len(), 4);
}

#[test]
fn construction_maps_layout_in_order() {
    let field = Field::new(2, 2, vec![0, 1, 1, 0]).unwrap();
    assert_eq!(field.width, 2);
    assert_eq!(field.height, 2);
    assert_eq!(field.drow_as_2d_bit_array(), vec![vec![0, 1], vec![1, 0]]);
}

#[test]
fn construction_with_wrong_length_fails() {
    let result = Field::new(2, 2, vec![0, 1, 0]);
    assert_eq!(result.unwrap_err(), FieldError::InvalidLength);
}

#[test]
fn construction_with_invalid_cell_value_fails() {
    let result = Field::new(1, 1, vec![2]);
    assert_eq!(result.unwrap_err(), FieldError::InvalidCellValue);
}

#[test]
fn get_index_is_row_major() {
    let field = Field::new(3, 2, vec![0, 0, 0, 0, 0, 0]).unwrap();
    assert_eq!(field.get_index(0, 0), 0);
    assert_eq!(field.get_index(0, 2), 2);
    assert_eq!(field.get_index(1, 0), 3);
    assert_eq!(field.get_index(1, 2), 5);
}

#[test]
fn advance_preserves_buffer_dimensions() {
    let mut field = Field::new(3, 4, vec![0, 1, 0, 1, 1, 0, 0, 0, 1, 1, 0, 1]).unwrap();
    field.next();
    let shot = field.drow_as_2d_bit_array();
    assert_eq!(shot.len(), 4);
    for row in &shot {
        assert_eq!(row.len(), 3);
    }
}

#[test]
fn neighbor_count_wraps_around_both_axes() {
    // Only the corner cell (0, 0) is alive.
    let field = Field::new(3, 3, vec![1, 0, 0, 0, 0, 0, 0, 0, 0]).unwrap();
    // Seen from the opposite corner, (0, 0) is the (+1, +1) neighbour.
    assert_eq!(field.live_neighbor_count(2, 2), 1);
    // It is also a diagonal neighbour of the centre cell.
    assert_eq!(field.live_neighbor_count(1, 1), 1);
    // A 3x3 torus has no cell as its own neighbour.
    assert_eq!(field.live_neighbor_count(0, 0), 0);
}

#[test]
fn neighbor_count_on_blinker_row() {
    let field = Field::new(3, 3, vec![0, 0, 0, 1, 1, 1, 0, 0, 0]).unwrap();
    // Every cell of the dead rows sees all three cells of the live row.
    assert_eq!(field.live_neighbor_count(0, 0), 3);
    assert_eq!(field.live_neighbor_count(2, 1), 3);
    // A live cell sees the two other cells of its own row.
    assert_eq!(field.live_neighbor_count(1, 1), 2);
    assert_eq!(field.live_neighbor_count(1, 0), 2);
}

#[test]
fn degenerate_1x1_grid_counts_itself_eight_times() {
    // On a 1x1 torus all eight wrapped offsets reach the cell itself.
    let mut field = Field::new(1, 1, vec![1]).unwrap();
    assert_eq!(field.live_neighbor_count(0, 0), 8);
    // Eight neighbours is overpopulation, so the cell dies.
    field.next();
    assert_eq!(field.drow_as_2d_bit_array(), vec![vec![0]]);
}

#[test]
fn isolated_cell_dies_of_underpopulation() {
    let mut field = Field::new(
        5,
        5,
        vec![
            0, 0, 0, 0, 0, //
            0, 0, 0, 0, 0, //
            0, 0, 1, 0, 0, //
            0, 0, 0, 0, 0, //
            0, 0, 0, 0, 0,
        ],
    )
    .unwrap();
    field.next();
    let shot = field.drow_as_2d_bit_array();
    for row in shot {
        for bit in row {
            assert_eq!(bit, 0);
        }
    }
}

#[test]
fn overpopulated_cell_dies_and_three_neighbours_give_birth() {
    // A plus shape: the centre has four live neighbours and dies; the
    // dead diagonal cells next to it have three and become alive.
    let mut field = Field::new(
        5,
        5,
        vec![
            0, 0, 0, 0, 0, //
            0, 0, 1, 0, 0, //
            0, 1, 1, 1, 0, //
            0, 0, 1, 0, 0, //
            0, 0, 0, 0, 0,
        ],
    )
    .unwrap();
    field.next();
    let shot = field.drow_as_2d_bit_array();
    // Overpopulation: the centre dies.
    assert_eq!(shot[2][2], 0);
    // Survival: each arm of the plus has exactly three live neighbours.
    assert_eq!(shot[1][2], 1);
    assert_eq!(shot[2][1], 1);
    assert_eq!(shot[2][3], 1);
    assert_eq!(shot[3][2], 1);
    // Birth: the diagonals around the centre have exactly three.
    assert_eq!(shot[1][1], 1);
    assert_eq!(shot[1][3], 1);
    assert_eq!(shot[3][1], 1);
    assert_eq!(shot[3][3], 1);
}

#[test]
fn isolated_block_is_a_still_life() {
    let layout = vec![
        0, 0, 0, 0, 0, //
        0, 1, 1, 0, 0, //
        0, 1, 1, 0, 0, //
        0, 0, 0, 0, 0, //
        0, 0, 0, 0, 0,
    ];
    let mut field = Field::new(5, 5, layout.clone()).unwrap();
    let before = field.drow_as_2d_bit_array();
    field.next();
    assert_eq!(field.drow_as_2d_bit_array(), before);
}

#[test]
fn blinker_on_3x3_torus() {
    // On a 3-row torus the three wrapped columns seen from any cell
    // cover the whole live row, so every dead cell has exactly three
    // live neighbours and is born, while each live cell keeps two live
    // neighbours and survives: one advance fills the grid. This differs
    // from the infinite-plane blinker, where the row would turn into a
    // column.
    let mut field = Field::new(3, 3, vec![0, 0, 0, 1, 1, 1, 0, 0, 0]).unwrap();
    field.next();
    assert_eq!(
        field.drow_as_2d_bit_array(),
        vec![vec![1, 1, 1], vec![1, 1, 1], vec![1, 1, 1]]
    );
    // On the full torus every cell then has eight live neighbours, so
    // the next advance empties the grid.
    field.next();
    assert_eq!(
        field.drow_as_2d_bit_array(),
        vec![vec![0, 0, 0], vec![0, 0, 0], vec![0, 0, 0]]
    );
}

#[test]
fn run_zero_returns_empty_timeline_and_leaves_grid_unchanged() {
    let layout = vec![0, 0, 0, 1, 1, 1, 0, 0, 0];
    let mut field = Field::new(3, 3, layout).unwrap();
    let before = field.drow_as_2d_bit_array();
    let status = get_status(&mut field, 0);
    assert!(status.is_empty());
    assert_eq!(field.drow_as_2d_bit_array(), before);
}

#[test]
fn run_n_returns_n_snapshots_ending_at_the_grids_final_state() {
    let layout = vec![0, 1, 0, 0, 0, 1, 1, 1, 1, 0, 0, 0, 0, 0, 0, 0];
    let mut driven = Field::new(4, 4, layout.clone()).unwrap();
    let mut stepped = Field::new(4, 4, layout).unwrap();

    let status = get_status(&mut driven, 4);
    assert_eq!(status.len(), 4);

    for k in 0..4usize {
        stepped.next();
        assert_eq!(status[k], stepped.drow_as_2d_bit_array());
    }
    // The grid is left at the state the last snapshot shows.
    assert_eq!(driven.drow_as_2d_bit_array(), status[3]);
}

#[test]
fn drow_draws_rows_of_cells() {
    let field = Field::new(2, 2, vec![1, 0, 0, 1]).unwrap();
    assert_eq!(field.drow(), "■ □\n□ ■\n");
}
