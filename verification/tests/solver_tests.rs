use numerical_approximater::solver::{subsample, subsample_plot, SampleError};

#[derive(Debug, Clone, Copy, PartialEq)]
struct Point {
    x: f64,
    y: f64,
}

#[test]
fn subsample_rejects_zero_n() {
    let pts = vec![Point { x: 0.0, y: 0.0 }];
    let err = subsample(&pts, 0).unwrap_err().message();
    assert!(err.contains("number of points must be at least 1"));
}

#[test]
fn subsample_rejects_empty_points() {
    let pts: Vec<Point> = Vec::new();
    let err = subsample(&pts, 1).unwrap_err().message();
    assert!(err.contains("no points to sample"));
}

#[test]
fn subsample_n_one_returns_first() {
    let pts = vec![Point { x: 0.0, y: 0.0 }, Point { x: 1.0, y: 1.0 }];
    let out = subsample(&pts, 1).unwrap();
    assert_eq!(out.len(), 1);
    assert!((out[0].x - 0.0).abs() < 1e-12);
}

#[test]
fn subsample_n_ge_len_returns_all() {
    let pts = vec![
        Point { x: 0.0, y: 0.0 },
        Point { x: 1.0, y: 1.0 },
        Point { x: 2.0, y: 2.0 },
    ];
    let out = subsample(&pts, 5).unwrap();
    assert_eq!(out.len(), 3);
}

#[test]
fn subsample_intermediate_n_evenly_spaced_indices() {
    let pts: Vec<Point> = (0..5)
        .map(|i| {
            let x = i as f64;
            Point { x, y: x }
        })
        .collect();
    let out = subsample(&pts, 3).unwrap();
    assert_eq!(out.len(), 3);
    assert!((out[0].x - 0.0).abs() < 1e-12);
    assert!((out[1].x - 2.0).abs() < 1e-12);
    assert!((out[2].x - 4.0).abs() < 1e-12);
}

#[test]
fn subsample_plot_returns_all_when_len_le_max() {
    let pts = vec![(0.0, 0.0), (1.0, 1.0)];
    let out = subsample_plot(&pts, 10);
    assert_eq!(out.len(), 2);
    assert_eq!(out[0], (0.0, 0.0));
    assert_eq!(out[1], (1.0, 1.0));
}

#[test]
fn subsample_plot_caps_when_len_gt_max() {
    let pts: Vec<(f64, f64)> = (0..100)
        .map(|i| {
            let x = i as f64;
            (x, x)
        })
        .collect();
    let out = subsample_plot(&pts, 10);
    assert_eq!(out.len(), 10);
    assert_eq!(out.first().unwrap(), &(0.0, 0.0));
    assert_eq!(out.last().unwrap(), &(99.0, 99.0));
}

#[test]
fn subsample_rounds_half_up_and_keeps_order() {
    let pts: Vec<usize> = (0..4).collect();
    assert_eq!(subsample(&pts, 3).unwrap(), vec![0, 2, 3]);
    let pts: Vec<usize> = (0..10).collect();
    assert_eq!(subsample(&pts, 4).unwrap(), vec![0, 3, 6, 9]);
    assert_eq!(subsample(&pts, 2).unwrap(), vec![0, 9]);
    let big: Vec<usize> = (0..1000).collect();
    let out = subsample(&big, 7).unwrap();
    assert_eq!(out, vec![0, 167, 333, 500, 666, 833, 999]);
    assert_eq!(subsample::<usize>(&[], 0), Err(SampleError::ZeroCount));
}

#[test]
fn subsample_plot_with_zero_max_is_empty() {
    let pts: Vec<(i64, i64)> = vec![(0, 0)];
    assert!(subsample_plot(&pts, 0).is_empty());
    let pts: Vec<(i64, i64)> = (0..5).map(|i| (i, i)).collect();
    assert!(subsample_plot(&pts, 0).is_empty());
}
