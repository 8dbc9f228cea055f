use std::sync::mpsc::channel;
use std::sync::Arc;
use threadpool::ThreadPool;
use voxel_terrain::aggregate::{AggregateError, Aggregator, StreamVertex};
use voxel_terrain::cell::CornerTable;
use voxel_terrain::field::DensityField;
use voxel_terrain::grid::{Grid, Vector3Int};
use voxel_terrain::job::{triangulate_cell, JobResult};
use voxel_terrain::pipeline::triangulate_field;
use voxel_terrain::schedule::cell_offsets;

type Vertex = [f32; 3];

const ISOVALUE: f32 = 0.5;

fn canonical_points() -> [Vector3Int; 8] {
    [
        Vector3Int::new(0, 0, 0),
        Vector3Int::new(1, 0, 0),
        Vector3Int::new(1, 1, 0),
        Vector3Int::new(0, 1, 0),
        Vector3Int::new(0, 0, 1),
        Vector3Int::new(1, 0, 1),
        Vector3Int::new(1, 1, 1),
        Vector3Int::new(0, 1, 1),
    ]
}

fn canonical_corners() -> CornerTable {
    CornerTable::new(canonical_points()).unwrap()
}

fn position(k: usize) -> Vertex {
    let p = canonical_points()[k];
    [p.x as f32, p.y as f32, p.z as f32]
}

/// Stands in for a triangulator in the cells that these tests build: no
/// triangle where all corners lie on one side of the isovalue, one triangle
/// where a single corner lies below it, cut at the crossing of each of the
/// three edges that meet in that corner.
fn cut_single_corner(values: [f32; 8]) -> Vec<[Vertex; 3]> {
    let below: Vec<usize> = (0..8).filter(|k| values[*k] < ISOVALUE).collect();
    if below.is_empty() || below.len() == 8 {
        return Vec::new();
    }
    assert_eq!(below.len(), 1, "this stand-in only cuts off a single corner");
    let low = below[0];
    let from = position(low);
    let mut cut: Vec<Vertex> = Vec::new();
    for k in 0..8 {
        let to = position(k);
        let differing = (0..3).filter(|a| from[*a] != to[*a]).count();
        if differing == 1 {
            let t = (ISOVALUE - values[low]) / (values[k] - values[low]);
            cut.push([
                from[0] + t * (to[0] - from[0]),
                from[1] + t * (to[1] - from[1]),
                from[2] + t * (to[2] - from[2]),
            ]);
        }
    }
    vec![[cut[0], cut[1], cut[2]]]
}

fn one_cell_field(values: [f32; 8]) -> DensityField<f32> {
    let grid = Grid::new(2).unwrap();
    let corners = canonical_points();
    DensityField::sample(grid, |c: Vector3Int| {
        let k = (0..8).find(|k| corners[*k] == c).unwrap();
        values[k]
    })
}

fn run_one_cell(values: [f32; 8]) -> Vec<StreamVertex<Vertex>> {
    let field = one_cell_field(values);
    let jobs = cell_offsets(&field.grid());
    assert_eq!(jobs, vec![Vector3Int::new(0, 0, 0)]);
    let mut agg: Aggregator<Vertex> = Aggregator::for_grid(&field.grid());
    assert_eq!(agg.expected(), 1);
    for offset in jobs {
        let handed = std::cell::Cell::new([f32::NAN; 8]);
        let result = triangulate_cell(&field, &canonical_corners(), offset, &|v: [f32; 8]| {
            handed.set(v);
            cut_single_corner(v)
        });
        assert_eq!(handed.get(), values);
        assert_eq!(result.offset, offset);
        agg.accept(result).unwrap();
    }
    assert!(agg.is_complete());
    agg.finish().unwrap()
}

#[test]
fn one_cell_all_corners_below_gives_no_triangle() {
    assert!(run_one_cell([0.0; 8]).is_empty());
}

#[test]
fn one_cell_all_corners_above_gives_no_triangle() {
    assert!(run_one_cell([1.0; 8]).is_empty());
}

#[test]
fn one_cell_one_low_corner_gives_one_triangle_at_the_edge_midpoints() {
    for low in 0..8 {
        let mut values = [1.0f32; 8];
        values[low] = 0.0;
        let stream = run_one_cell(values);
        assert_eq!(stream.len(), 3);
        let corner = position(low);
        let mut moved_axes = Vec::new();
        for v in &stream {
            assert_eq!(v.cell, Vector3Int::new(0, 0, 0));
            let moved: Vec<usize> = (0..3).filter(|a| v.local[*a] != corner[*a]).collect();
            assert_eq!(moved.len(), 1);
            assert_eq!(v.local[moved[0]], 0.5);
            moved_axes.push(moved[0]);
        }
        moved_axes.sort();
        assert_eq!(moved_axes, vec![0, 1, 2]);
    }
}

#[test]
fn job_hands_the_corner_samples_to_the_triangulator_and_tags_the_answer() {
    let grid = Grid::new(3).unwrap();
    let field = DensityField::sample(grid, |c: Vector3Int| 100 * c.x + 10 * c.y + c.z);
    let result: JobResult<i32> =
        triangulate_cell(&field, &canonical_corners(), Vector3Int::new(1, 0, 1), &|v: [i32; 8]| {
            vec![[v[0], v[1], v[2]], [v[3], v[4], v[5]], [v[6], v[7], -1]]
        });
    assert_eq!(result.offset, Vector3Int::new(1, 0, 1));
    assert_eq!(result.triangles, vec![[101, 201, 211], [111, 102, 202], [212, 112, -1]]);
}

fn solid_below_half(c: Vector3Int) -> f32 {
    if c.y < 32 {
        1.0
    } else {
        0.0
    }
}

fn one_triangle_where_mixed(values: [f32; 8]) -> Vec<[Vertex; 3]> {
    let below = values.iter().filter(|v| **v < ISOVALUE).count();
    if below == 0 || below == 8 {
        Vec::new()
    } else {
        vec![[[0.0, 0.5, 0.0], [1.0, 0.5, 0.0], [0.0, 0.5, 1.0]]]
    }
}

#[test]
fn full_reference_run_collects_250047_results() {
    let grid = Grid::reference();
    let field = DensityField::sample(grid, solid_below_half);
    let corners = canonical_corners();
    let jobs = cell_offsets(&grid);
    assert_eq!(jobs.len(), 250_047);
    let mut agg: Aggregator<Vertex> = Aggregator::for_grid(&grid);
    let mut executed = 0usize;
    for offset in jobs {
        let result = triangulate_cell(&field, &corners, offset, &one_triangle_where_mixed);
        executed += 1;
        agg.accept(result).unwrap();
    }
    assert_eq!(executed, 250_047);
    assert_eq!(agg.received(), 250_047);
    assert!(agg.is_complete());
    let stream = agg.finish().unwrap();
    assert_eq!(stream.len() % 3, 0);
    assert_eq!(stream.len(), 3 * 63 * 63);
    for v in &stream {
        assert_eq!(v.cell.y, 31);
    }
}

#[test]
fn triangulate_field_runs_every_job_in_dispatch_order() {
    let grid = Grid::new(4).unwrap();
    let field = DensityField::sample(grid, |c: Vector3Int| 100 * c.x + 10 * c.y + c.z);
    let stream = triangulate_field(&field, &canonical_corners(), &|v: [i32; 8]| vec![[v[0], v[6], v[0] + v[6]]]);
    let jobs = cell_offsets(&grid);
    assert_eq!(stream.len(), 3 * jobs.len());
    for (j, offset) in jobs.iter().enumerate() {
        let low = 100 * offset.x + 10 * offset.y + offset.z;
        assert_eq!(stream[3 * j].cell, *offset);
        assert_eq!(stream[3 * j].local, low);
        assert_eq!(stream[3 * j + 1].local, low + 111);
        assert_eq!(stream[3 * j + 2].local, 2 * low + 111);
        assert_eq!(stream[3 * j + 2].cell, *offset);
    }
}

#[test]
fn triangulate_field_of_one_sample_is_empty() {
    let field = DensityField::sample(Grid::new(1).unwrap(), |_c: Vector3Int| 7);
    let stream = triangulate_field(&field, &canonical_corners(), &|v: [i32; 8]| vec![[v[0], v[1], v[2]]]);
    assert!(stream.is_empty());
}

fn run_on_pool(threads: usize) -> Vec<(Vector3Int, Vec<[i32; 3]>)> {
    let grid = Grid::new(7).unwrap();
    let field = Arc::new(DensityField::sample(grid, |c: Vector3Int| (c.x * c.x + 3 * c.y + 7 * c.z) % 11));
    let corners = canonical_corners();
    let pool = ThreadPool::new(threads);
    let (tx, rx) = channel();
    let jobs = cell_offsets(&grid);
    let expected = jobs.len();
    for offset in jobs {
        let field = Arc::clone(&field);
        let tx = tx.clone();
        pool.execute(move || {
            let result = triangulate_cell(&field, &corners, offset, &|v: [i32; 8]| {
                let low: Vec<i32> = v.iter().copied().filter(|s| *s < 5).collect();
                low.chunks(3).filter(|c| c.len() == 3).map(|c| [c[0], c[1], c[2]]).collect()
            });
            tx.send(result).unwrap();
        });
    }
    drop(tx);
    let mut agg: Aggregator<i32> = Aggregator::new(expected);
    let mut tagged = Vec::new();
    while !agg.is_complete() {
        let result: JobResult<i32> = rx.recv().unwrap();
        tagged.push((result.offset, result.triangles.clone()));
        agg.accept(result).unwrap();
    }
    let stream = agg.finish().unwrap();
    let triangles: usize = tagged.iter().map(|t| t.1.len()).sum();
    assert_eq!(stream.len(), 3 * triangles);
    tagged.sort_by_key(|t| (t.0.x, t.0.y, t.0.z));
    tagged
}

#[test]
fn pool_size_does_not_change_the_set_of_triangles() {
    let single = run_on_pool(1);
    let many = run_on_pool(4);
    assert_eq!(single.len(), 216);
    assert!(single.iter().any(|t| !t.1.is_empty()));
    assert_eq!(single, many);
}

#[test]
fn a_lost_result_is_reported_and_does_not_hang() {
    let grid = Grid::new(3).unwrap();
    let field = DensityField::sample(grid, |c: Vector3Int| c.x + c.y + c.z);
    let corners = canonical_corners();
    let (tx, rx) = channel();
    let jobs = cell_offsets(&grid);
    for offset in jobs.into_iter().skip(1) {
        tx.send(triangulate_cell(&field, &corners, offset, &|v: [i32; 8]| vec![[v[0], v[1], v[2]]])).unwrap();
    }
    drop(tx);
    let mut agg: Aggregator<i32> = Aggregator::for_grid(&grid);
    while !agg.is_complete() {
        match rx.recv() {
            Ok(result) => agg.accept(result).unwrap(),
            Err(_) => break,
        }
    }
    match agg.finish() {
        Err(e) => assert_eq!(e, AggregateError::CountMismatch { expected: 8, received: 7 }),
        Ok(_) => panic!("an incomplete collection handed out its stream"),
    }
}
