use voxel_terrain::cell::{corner_coord, corner_indices, gather_corners, CornerTable};
use voxel_terrain::field::DensityField;
use voxel_terrain::grid::{Grid, Vector3Int};

fn canonical_points() -> [Vector3Int; 8] {
    [
        Vector3Int::new(0, 0, 0),
        Vector3Int::new(1, 0, 0),
        Vector3Int::new(1, 1, 0),
        Vector3Int::new(0, 1, 0),
        Vector3Int::new(0, 0, 1),
        Vector3Int::new(1, 0, 1),
        Vector3Int::new(1, 1, 1),
        Vector3Int::new(0, 1, 1),
    ]
}

#[test]
fn corner_table_keeps_its_order() {
    let table = CornerTable::new(canonical_points()).unwrap();
    assert_eq!(table.points(), canonical_points());
    for k in 0..8 {
        assert_eq!(table.corner(k), canonical_points()[k]);
    }
}

#[test]
fn corner_table_accepts_any_order_of_the_cube_corners() {
    let mut points = canonical_points();
    points.reverse();
    let table = CornerTable::new(points).unwrap();
    assert_eq!(table.corner(0), Vector3Int::new(0, 1, 1));
    assert_eq!(table.corner(7), Vector3Int::new(0, 0, 0));
}

#[test]
fn corner_table_rejects_a_component_outside_zero_and_one() {
    for k in 0..8 {
        let mut points = canonical_points();
        points[k].x = 2;
        assert!(CornerTable::new(points).is_none());
        let mut points = canonical_points();
        points[k].y = -1;
        assert!(CornerTable::new(points).is_none());
        let mut points = canonical_points();
        points[k].z = 2;
        assert!(CornerTable::new(points).is_none());
    }
}

#[test]
fn corner_table_rejects_a_repeated_corner() {
    for a in 0..8 {
        for b in 0..8 {
            if a != b {
                let mut points = canonical_points();
                points[a] = points[b];
                assert!(CornerTable::new(points).is_none());
            }
        }
    }
}

#[test]
fn translate_adds_component_wise() {
    let a = Vector3Int::new(1, 0, 1);
    let b = Vector3Int::new(10, 20, 30);
    assert_eq!(a.translate(b), Vector3Int::new(11, 20, 31));
    assert_eq!(b.translate(a), Vector3Int::new(11, 20, 31));
    assert_eq!(Vector3Int::new(-5, 7, 0).translate(Vector3Int::new(5, -7, 0)), Vector3Int::new(0, 0, 0));
}

#[test]
fn corner_coords_are_offset_plus_corner() {
    let grid = Grid::new(5).unwrap();
    let table = CornerTable::new(canonical_points()).unwrap();
    let offset = Vector3Int::new(3, 1, 2);
    assert_eq!(corner_coord(&grid, &table, offset, 0), Vector3Int::new(3, 1, 2));
    assert_eq!(corner_coord(&grid, &table, offset, 1), Vector3Int::new(4, 1, 2));
    assert_eq!(corner_coord(&grid, &table, offset, 2), Vector3Int::new(4, 2, 2));
    assert_eq!(corner_coord(&grid, &table, offset, 3), Vector3Int::new(3, 2, 2));
    assert_eq!(corner_coord(&grid, &table, offset, 4), Vector3Int::new(3, 1, 3));
    assert_eq!(corner_coord(&grid, &table, offset, 5), Vector3Int::new(4, 1, 3));
    assert_eq!(corner_coord(&grid, &table, offset, 6), Vector3Int::new(4, 2, 3));
    assert_eq!(corner_coord(&grid, &table, offset, 7), Vector3Int::new(3, 2, 3));
}

#[test]
fn corner_indices_of_the_single_cell() {
    let grid = Grid::new(2).unwrap();
    let table = CornerTable::new(canonical_points()).unwrap();
    let indices = corner_indices(&grid, &table, Vector3Int::new(0, 0, 0));
    assert_eq!(indices, [0, 4, 6, 2, 1, 5, 7, 3]);
}

#[test]
fn corner_indices_in_the_reference_grid() {
    let grid = Grid::reference();
    let table = CornerTable::new(canonical_points()).unwrap();
    let indices = corner_indices(&grid, &table, Vector3Int::new(62, 62, 62));
    let base = 62 + 64 * (62 + 64 * 62);
    assert_eq!(
        indices,
        [base, base + 4096, base + 4096 + 64, base + 64, base + 1, base + 4097, base + 4161, base + 65]
    );
    assert_eq!(indices[6], 262_143);
}

#[test]
fn gather_reads_the_corners_in_canonical_order() {
    let grid = Grid::new(3).unwrap();
    let field = DensityField::sample(grid, |c: Vector3Int| 100 * c.x + 10 * c.y + c.z);
    let table = CornerTable::new(canonical_points()).unwrap();
    assert_eq!(
        gather_corners(&field, &table, Vector3Int::new(0, 0, 0)),
        [0, 100, 110, 10, 1, 101, 111, 11]
    );
    assert_eq!(
        gather_corners(&field, &table, Vector3Int::new(1, 1, 1)),
        [111, 211, 221, 121, 112, 212, 222, 122]
    );
}

#[test]
fn gather_follows_the_table_it_is_given() {
    let grid = Grid::new(2).unwrap();
    let field = DensityField::sample(grid, |c: Vector3Int| 100 * c.x + 10 * c.y + c.z);
    let mut points = canonical_points();
    points.swap(0, 6);
    let table = CornerTable::new(points).unwrap();
    assert_eq!(
        gather_corners(&field, &table, Vector3Int::new(0, 0, 0)),
        [111, 100, 110, 10, 1, 101, 0, 11]
    );
}
