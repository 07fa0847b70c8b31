use maplibre::euclid::Point2D;
use maplibre::sdf::grid_index::{CellRange, Circle, GridCells, GridEntry};

fn range(x1: usize, y1: usize, x2: usize, y2: usize) -> CellRange {
    CellRange { x1, y1, x2, y2 }
}

#[test]
fn circle_new_keeps_center_and_radius() {
    let c = Circle::new(Point2D::new(50i32, 60), 10);
    assert_eq!(c.center, Point2D::new(50, 60));
    assert_eq!(c.radius, 10);
}

#[test]
fn boxes_are_found_in_the_cells_they_cover() {
    // A 100 x 100 grid with cells of size 10 has 10 x 10 cells.
    let mut grid = GridCells::new(10, 10);
    assert_eq!(grid.insert_box(range(0, 1, 0, 3)), 0);
    assert_eq!(grid.insert_box(range(0, 1, 3, 1)), 1);
    assert_eq!(grid.insert_box(range(0, 3, 0, 3)), 2);

    assert_eq!(
        grid.query(range(0, 1, 0, 1)),
        vec![GridEntry::BoxEntry(0), GridEntry::BoxEntry(1)]
    );
    assert_eq!(grid.query(range(2, 1, 2, 1)), vec![GridEntry::BoxEntry(1)]);
    assert_eq!(grid.query(range(4, 4, 9, 9)), vec![]);
    assert_eq!(
        grid.query(range(0, 0, 9, 9)),
        vec![
            GridEntry::BoxEntry(0),
            GridEntry::BoxEntry(1),
            GridEntry::BoxEntry(2)
        ]
    );
}

#[test]
fn each_element_is_reported_once_in_visiting_order() {
    let mut grid = GridCells::new(4, 4);
    grid.insert_box(range(1, 0, 2, 3));
    grid.insert_circle(range(0, 0, 3, 3));
    grid.insert_box(range(0, 2, 0, 2));
    // Column 0 first: rows 0..=3; the circle is met in (0, 0), the second box in (0, 2).
    assert_eq!(
        grid.query(range(0, 0, 3, 3)),
        vec![
            GridEntry::CircleEntry(0),
            GridEntry::BoxEntry(1),
            GridEntry::BoxEntry(0)
        ]
    );
}

#[test]
fn empty_ranges_cover_no_cell() {
    let mut grid = GridCells::new(3, 3);
    grid.insert_box(range(2, 0, 1, 2));
    grid.reserve(4);
    grid.insert_circle(range(1, 1, 1, 1));
    assert_eq!(grid.query(range(0, 0, 2, 2)), vec![GridEntry::CircleEntry(0)]);
    assert_eq!(grid.query(range(2, 2, 0, 0)), vec![]);
}
