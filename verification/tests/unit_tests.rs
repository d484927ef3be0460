//! Unit tests of the helper layers: sides and grid arithmetic, the port
//! overlay, the occupancy mask and the scoring log.

use gridsim::levels::LevelData;
use gridsim::levels::ResultType;
use gridsim::levels::SimIOPadded;
use gridsim::occupation::CellInUse;
use gridsim::occupation::OccupationGrid;
use gridsim::port_grid::Port;
use gridsim::port_grid::PortGrid;
use gridsim::port_grid::PortGridError;
use gridsim::side::Side;
use gridsim::side::combine_offset;
use gridsim::side::get_adjacent;

#[test]
fn side_offsets_and_reversal() {
    assert_eq!(Side::Up.as_offset(), [0, 1]);
    assert_eq!(Side::Down.as_offset(), [0, -1]);
    assert_eq!(Side::Left.as_offset(), [-1, 0]);
    assert_eq!(Side::Right.as_offset(), [1, 0]);
    assert_eq!(Side::Up.reverse(), Side::Down);
    assert_eq!(Side::Left.reverse(), Side::Right);
    assert_eq!(Side::Up.as_str(), "up");
    assert_eq!(Side::Right.as_str(), "right");
}

#[test]
fn combine_offset_clamps_at_the_origin() {
    assert_eq!(combine_offset(&[3, 4], &[1, 0]), Some([4, 4]));
    assert_eq!(combine_offset(&[3, 4], &[0, -1]), Some([3, 3]));
    assert_eq!(combine_offset(&[0, 4], &[-1, 0]), None);
    assert_eq!(combine_offset(&[3, 0], &[0, -1]), None);
    assert_eq!(combine_offset(&[usize::MAX, 0], &[1, 0]), None);
}

#[test]
fn adjacent_ring_of_a_unit_cell() {
    // A 1x1 footprint at (1,1): the four neighbours, in walk order.
    let ring = get_adjacent(&[1, 1], &[1, 1]);
    assert_eq!(ring, vec![[0, 1], [1, 2], [2, 1], [1, 0]]);
    // At the origin corner the below-grid entries are dropped.
    let ring = get_adjacent(&[0, 0], &[1, 1]);
    assert_eq!(ring, vec![[0, 1], [1, 0]]);
}

#[test]
fn adjacent_ring_of_a_wide_footprint() {
    // A 2x1 footprint at (1,1): left column, top row, right column, bottom
    // row, without corners.
    let ring = get_adjacent(&[1, 1], &[2, 1]);
    assert_eq!(ring, vec![[0, 1], [1, 2], [2, 2], [3, 1], [2, 0], [1, 0]]);
}

#[test]
fn port_grid_insert_and_read_back() {
    let mut pg = PortGrid::new_with_size(3, 3);
    let port = Some(Port { checked: false });
    assert!(pg.insert(&[1, 1], Side::Right, port).is_ok());
    // The component's own view.
    assert_eq!(pg.get_port_inside(&[1, 1], Side::Right), Ok(port));
    // The neighbour at (2,1) sees it from its left side.
    assert_eq!(pg.get_port(&[2, 1], Side::Left), Ok(port));
    assert_eq!(pg.get_side_existance(&[2, 1], Side::Left), Ok(true));
    assert_eq!(pg.get_side_existance(&[1, 1], Side::Left), Ok(false));
    // Removing it clears both views.
    assert!(pg.insert(&[1, 1], Side::Right, None).is_ok());
    assert_eq!(pg.get_port(&[2, 1], Side::Left), Ok(None));
}

#[test]
fn port_grid_rejects_out_of_range_edges() {
    let mut pg = PortGrid::new_with_size(2, 2);
    assert_eq!(
        pg.insert(&[0, 0], Side::Down, Some(Port { checked: false })),
        Err(PortGridError::PositionOutOfBounds)
    );
    assert_eq!(
        pg.insert(&[9, 0], Side::Left, Some(Port { checked: false })),
        Err(PortGridError::PositionOutOfBounds)
    );
    assert!(pg.get_port(&[0, 0], Side::Down).is_err());
}

#[test]
fn port_grid_get_sides_reports_facing_ports() {
    let mut pg = PortGrid::new_with_size(3, 3);
    // A port declared by the cell right of (1,1), facing left into it.
    assert!(pg.insert(&[2, 1], Side::Left, Some(Port { checked: false })).is_ok());
    let sides = pg.get_sides(&[1, 1]);
    assert!(sides.right);
    assert!(!sides.left);
    assert!(!sides.up);
    assert!(!sides.down);
}

#[test]
fn port_grid_reset_build_clears_marks_only() {
    let mut pg = PortGrid::new_with_size(3, 3);
    assert!(pg.insert(&[1, 1], Side::Right, Some(Port { checked: true })).is_ok());
    assert!(pg.insert(&[0, 1], Side::Left, Some(Port { checked: false })).is_ok());
    pg.reset_build();
    assert_eq!(
        pg.get_port_inside(&[1, 1], Side::Right),
        Ok(Some(Port { checked: false }))
    );
    assert_eq!(
        pg.get_port_inside(&[0, 1], Side::Left),
        Ok(Some(Port { checked: false }))
    );
    // Undeclared edges stay empty.
    assert_eq!(pg.get_port_inside(&[1, 1], Side::Up), Ok(None));
}

#[test]
fn occupation_grid_fill_and_can_fit() {
    let mut grid = OccupationGrid::empty_grid_from_size(&[4, 3]);
    assert!(grid.can_fit(&[1, 1], &[2, 2]));
    grid.fill(&[1, 1], &[2, 2], CellInUse::Occupied);
    assert!(!grid.can_fit(&[0, 0], &[2, 2]));
    assert!(grid.can_fit(&[0, 0], &[1, 1]));
    assert!(!grid.can_fit(&[3, 2], &[2, 1]));
    grid.fill(&[1, 1], &[2, 2], CellInUse::Free);
    assert!(grid.can_fit(&[0, 0], &[2, 2]));
}

#[test]
fn scoring_log_records_and_compares() {
    let level = LevelData {
        name: String::from("score"),
        desc: String::from(""),
        provided_inputs: vec![],
        expected_outputs: vec![vec![Some(7), None, Some(9)]],
    };
    let mut io = SimIOPadded::from_level_data(&level);
    assert_eq!(io.records.len(), 1);

    io.add_output(&level, 0, 0, Some(7));
    io.add_output(&level, 1, 0, Some(42));
    io.add_output(&level, 2, 0, Some(8));
    // Unknown observer ids record nothing.
    io.add_output(&level, 0, 5, Some(1));

    assert_eq!(io.records[0].len(), 3);
    assert_eq!(io.records[0][0].expected, Some(7));
    assert_eq!(io.records[0][0].observed, Some(7));
    assert_eq!(io.records[0][0].result, ResultType::Correct);
    // Nothing expected at tick 1: any observation is fine.
    assert_eq!(io.records[0][1].result, ResultType::Correct);
    // Mismatch at tick 2 flips the running flag.
    assert_eq!(io.records[0][2].expected, Some(9));
    assert_eq!(io.records[0][2].result, ResultType::Incorrect);
    assert!(!io.correct_so_far);
}

#[test]
fn level_sequences_index_by_tick() {
    let level = LevelData {
        name: String::from("idx"),
        desc: String::from(""),
        provided_inputs: vec![vec![Some(1), None]],
        expected_outputs: vec![],
    };
    assert_eq!(level.provided_at(0, 0), Some(1));
    assert_eq!(level.provided_at(0, 1), None);
    assert_eq!(level.provided_at(0, 2), None);
    assert_eq!(level.provided_at(3, 0), None);
    assert_eq!(level.expected_at(0, 0), None);
}
