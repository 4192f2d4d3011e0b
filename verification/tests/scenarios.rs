use geo::{Area, BooleanOps, LineString, Polygon};
use grid_weights::engine::regrid;
use grid_weights::error::RegridError;

fn rectangle(x0: f64, y0: f64, x1: f64, y1: f64) -> Polygon<f64> {
    Polygon::new(
        LineString::from(vec![(x0, y0), (x1, y0), (x1, y1), (x0, y1), (x0, y0)]),
        Vec::new(),
    )
}

fn weights_of(
    sources: &[Polygon<f64>],
    targets: &[Polygon<f64>],
    indices: Vec<i64>,
    index_ptr: Vec<i64>,
) -> Result<Vec<f64>, RegridError> {
    let weigh = |row: usize, columns: &Vec<usize>| -> Result<Vec<f64>, RegridError> {
        let target = &targets[row];
        let target_area = target.unsigned_area();
        if !(target_area > 0.0) {
            return Err(RegridError::DegenerateGeometry);
        }
        let raw: Vec<f64> = columns
            .iter()
            .map(|c| target.intersection(&sources[*c]).unsigned_area() / target_area)
            .collect();
        let total: f64 = raw.iter().sum();
        if total > 0.0 {
            Ok(raw.iter().map(|w| w / total).collect())
        } else {
            Ok(vec![0.0; raw.len()])
        }
    };
    regrid(indices, index_ptr, sources.len(), targets.len(), weigh)
}

#[test]
fn a_mesh_onto_itself_gives_ones() {
    let mesh = vec![
        rectangle(0.0, 0.0, 1.0, 1.0),
        rectangle(1.0, 0.0, 2.0, 1.0),
        rectangle(0.0, 1.0, 3.0, 4.0),
    ];
    let weights = weights_of(&mesh, &mesh, vec![0, 1, 2], vec![0, 1, 2, 3]).unwrap();
    assert_eq!(weights, vec![1.0, 1.0, 1.0]);
}

#[test]
fn two_halves_share_the_unit_square() {
    let targets = vec![rectangle(0.0, 0.0, 1.0, 1.0)];
    let sources = vec![rectangle(0.0, 0.0, 0.5, 1.0), rectangle(0.5, 0.0, 1.0, 1.0)];
    let weights = weights_of(&sources, &targets, vec![0, 1], vec![0, 2]).unwrap();
    assert_eq!(weights.len(), 2);
    assert!((weights[0] - 0.5).abs() < 1e-9);
    assert!((weights[1] - 0.5).abs() < 1e-9);
}

#[test]
fn a_candidate_that_misses_weighs_nothing() {
    let targets = vec![rectangle(0.0, 0.0, 1.0, 1.0)];
    let sources = vec![rectangle(5.0, 5.0, 6.0, 6.0), rectangle(0.0, 0.0, 2.0, 2.0)];
    let weights = weights_of(&sources, &targets, vec![0, 1], vec![0, 2]).unwrap();
    assert_eq!(weights.len(), 2);
    assert_eq!(weights[0], 0.0);
    assert!((weights[1] - 1.0).abs() < 1e-9);
}

#[test]
fn a_row_that_misses_everywhere_is_filled_with_zeros() {
    let targets = vec![rectangle(0.0, 0.0, 1.0, 1.0), rectangle(1.0, 0.0, 2.0, 1.0)];
    let sources = vec![rectangle(5.0, 5.0, 6.0, 6.0), rectangle(1.0, 0.0, 2.0, 1.0)];
    let weights = weights_of(&sources, &targets, vec![0, 0, 1], vec![0, 1, 3]).unwrap();
    assert_eq!(weights.len(), 3);
    assert_eq!(weights[0], 0.0);
    assert_eq!(weights[1], 0.0);
    assert!((weights[2] - 1.0).abs() < 1e-9);
}

#[test]
fn rows_sum_to_one_and_weights_stay_in_range() {
    let targets = vec![rectangle(0.0, 0.0, 2.0, 2.0), rectangle(2.0, 0.0, 4.0, 2.0)];
    let sources = vec![
        rectangle(0.0, 0.0, 1.0, 2.0),
        rectangle(1.0, 0.0, 3.0, 2.0),
        rectangle(3.0, 0.0, 4.0, 1.0),
    ];
    let index_ptr: Vec<i64> = vec![0, 2, 4];
    let weights =
        weights_of(&sources, &targets, vec![0, 1, 1, 2], index_ptr.clone()).unwrap();
    assert_eq!(weights.len(), 4);
    for w in &weights {
        assert!(*w >= -1e-9 && *w <= 1.0 + 1e-9);
    }
    for r in 0..2 {
        let lower = index_ptr[r] as usize;
        let upper = index_ptr[r + 1] as usize;
        let sum: f64 = weights[lower..upper].iter().sum();
        assert!((sum - 1.0).abs() < 1e-9);
    }
    assert!((weights[0] - 0.5).abs() < 1e-9);
    assert!((weights[2] - 2.0 / 3.0).abs() < 1e-9);
    assert!((weights[3] - 1.0 / 3.0).abs() < 1e-9);
}

#[test]
fn malformed_offsets_stop_before_any_geometry() {
    let mesh = vec![rectangle(0.0, 0.0, 1.0, 1.0), rectangle(1.0, 0.0, 2.0, 1.0)];
    let res = weights_of(&mesh, &mesh, vec![0, 1], vec![0, 2, 1]);
    assert_eq!(res, Err(RegridError::IndexBounds));
}

#[test]
fn a_target_without_area_is_refused() {
    let targets = vec![rectangle(0.0, 0.0, 0.0, 1.0)];
    let sources = vec![rectangle(0.0, 0.0, 1.0, 1.0)];
    let res = weights_of(&sources, &targets, vec![0], vec![0, 1]);
    assert_eq!(res, Err(RegridError::DegenerateGeometry));
}

#[test]
fn a_target_without_area_and_without_candidates_is_passed_over() {
    let targets = vec![rectangle(0.0, 0.0, 0.0, 1.0), rectangle(0.0, 0.0, 1.0, 1.0)];
    let sources = vec![rectangle(0.0, 0.0, 1.0, 1.0)];
    let weights = weights_of(&sources, &targets, vec![0], vec![0, 0, 1]).unwrap();
    assert_eq!(weights, vec![1.0]);
}

#[test]
fn a_cell_beyond_the_mesh_stops_before_any_geometry() {
    let mesh = vec![rectangle(0.0, 0.0, 1.0, 1.0)];
    let res = weights_of(&mesh, &mesh, vec![1], vec![0, 1]);
    assert_eq!(res, Err(RegridError::IndexBounds));
    let res = weights_of(&mesh, &mesh, vec![0, 0], vec![0, 1, 2]);
    assert_eq!(res, Err(RegridError::IndexBounds));
}
