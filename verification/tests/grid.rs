use pdm::{grid_point, GridPoint};

fn frequencies(min_freq: f64, max_freq: f64, n_freqs: usize) -> Vec<f64> {
    let mut grid = Vec::new();
    let mut index = 0;
    while let Some(point) = grid_point(index, n_freqs) {
        grid.push(match point {
            GridPoint::Lower => min_freq,
            GridPoint::Upper => max_freq,
            GridPoint::Interior { steps, intervals } => {
                min_freq + steps as f64 * ((max_freq - min_freq) / intervals as f64)
            }
        });
        index += 1;
    }
    grid
}

#[test]
fn a_grid_of_one_point_is_the_lower_bound() {
    assert_eq!(grid_point(0, 1), Some(GridPoint::Lower));
    assert_eq!(grid_point(1, 1), None);
    assert_eq!(frequencies(0.5, 2.0, 1), vec![0.5]);
}

#[test]
fn a_grid_of_two_points_is_the_two_bounds() {
    assert_eq!(grid_point(0, 2), Some(GridPoint::Lower));
    assert_eq!(grid_point(1, 2), Some(GridPoint::Upper));
    assert_eq!(grid_point(2, 2), None);
}

#[test]
fn a_grid_of_four_points_has_two_interior_points() {
    assert_eq!(grid_point(0, 4), Some(GridPoint::Lower));
    assert_eq!(grid_point(1, 4), Some(GridPoint::Interior { steps: 1, intervals: 3 }));
    assert_eq!(grid_point(2, 4), Some(GridPoint::Interior { steps: 2, intervals: 3 }));
    assert_eq!(grid_point(3, 4), Some(GridPoint::Upper));
    assert_eq!(grid_point(4, 4), None);
    assert_eq!(grid_point(usize::MAX, 4), None);
}

#[test]
fn an_empty_grid_has_no_point() {
    assert_eq!(grid_point(0, 0), None);
    assert_eq!(grid_point(7, 0), None);
}

#[test]
fn four_frequencies_from_a_half_to_two() {
    assert_eq!(frequencies(0.5, 2.0, 4), vec![0.5, 1.0, 1.5, 2.0]);
}

#[test]
fn the_grid_has_n_points_and_ends_on_its_bounds() {
    for n_freqs in [1usize, 2, 3, 7, 100, 1001] {
        let grid = frequencies(0.1, 0.7, n_freqs);
        assert_eq!(grid.len(), n_freqs);
        assert_eq!(grid[0], 0.1);
        if n_freqs > 1 {
            assert_eq!(grid[n_freqs - 1], 0.7);
        }
        for pair in grid.windows(2) {
            assert!(pair[0] < pair[1]);
        }
    }
}

#[test]
fn interior_points_count_their_steps_from_the_lower_bound() {
    let n_freqs = 50;
    for index in 1..n_freqs - 1 {
        assert_eq!(
            grid_point(index, n_freqs),
            Some(GridPoint::Interior { steps: index, intervals: n_freqs - 1 })
        );
    }
}
