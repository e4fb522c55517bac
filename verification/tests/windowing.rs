use serial_monitor::data::{PlotConfig, PlotData, PlotMode, PlotScaleMode};
use serial_monitor::window::{
    merge_range, plot_query, sample_range, window_continuous, window_cyclic, Sample, ScaleRange,
    VBounds,
};

fn samples(points: &[(u64, i64)]) -> Vec<Sample> {
    points.iter().map(|&(t, v)| Sample { t, v }).collect()
}

fn times(v: &[Sample]) -> Vec<u64> {
    v.iter().map(|s| s.t).collect()
}

#[test]
fn continuous_window_keeps_exactly_the_trailing_span() {
    let h = samples(&[(0, 1), (1000, 2), (2000, 3), (3000, 4), (4000, 5)]);
    let vis = window_continuous(&h, 4000, 2000);
    assert_eq!(times(&vis), vec![2000, 3000, 4000]);
}

#[test]
fn continuous_window_boundary_sample_is_included() {
    let h = samples(&[(0, 1), (500, 2), (1500, 3)]);
    let vis = window_continuous(&h, 1500, 1000);
    assert_eq!(times(&vis), vec![500, 1500]);
}

#[test]
fn shrinking_the_window_never_grows_the_view() {
    let h = samples(&[(0, 1), (800, 2), (1600, 3), (2400, 4), (3200, 5)]);
    let mut prev_len = usize::MAX;
    for w in [3200, 2400, 1600, 800, 0] {
        let vis = window_continuous(&h, 3200, w);
        assert!(vis.len() <= prev_len);
        for s in &vis {
            assert!(3200 - s.t <= w);
        }
        prev_len = vis.len();
    }
}

#[test]
fn cyclic_scenario_splits_and_remaps_sweeps() {
    // W = 10 s, history at every whole second from 0 to 24 s, queried
    // at t_now = 24 s: the current sweep (20 s, 24 s] stays put, the
    // previous sweep [14 s, 20 s) moves one period forward.
    let mut pts = Vec::new();
    for k in 0..=24u64 {
        pts.push((k * 1000, k as i64));
    }
    let h = samples(&pts);
    let vis = window_cyclic(&h, 24000, 10000);
    assert_eq!(
        times(&vis),
        vec![21000, 22000, 23000, 24000, 24000, 25000, 26000, 27000, 28000, 29000]
    );
    // the remapped samples keep their values
    let vals: Vec<i64> = vis.iter().map(|s| s.v).collect();
    assert_eq!(vals, vec![21, 22, 23, 24, 14, 15, 16, 17, 18, 19]);
}

#[test]
fn cyclic_requery_returns_the_identical_view() {
    let h = samples(&[(0, 5), (3000, 6), (7000, 7), (12000, 8)]);
    let a = window_cyclic(&h, 12000, 5000);
    let b = window_cyclic(&h, 12000, 5000);
    assert_eq!(a, b);
}

#[test]
fn sample_range_finds_min_and_max() {
    assert_eq!(sample_range(&samples(&[])), None);
    let r = sample_range(&samples(&[(0, 5), (1, -3), (2, 9)])).unwrap();
    assert_eq!((r.lo, r.hi), (-3, 9));
}

#[test]
fn merge_only_widens_and_reset_restarts() {
    let a = merge_range(None, Some(ScaleRange { lo: 1, hi: 2 }));
    assert_eq!(a, Some(ScaleRange { lo: 1, hi: 2 }));
    let b = merge_range(a, Some(ScaleRange { lo: 0, hi: 1 }));
    assert_eq!(b, Some(ScaleRange { lo: 0, hi: 2 }));
    let c = merge_range(b, Some(ScaleRange { lo: 1, hi: 5 }));
    assert_eq!(c, Some(ScaleRange { lo: 0, hi: 5 }));
    let d = merge_range(c, None);
    assert_eq!(d, c);
    // an explicit reset restarts from the next observation
    let e = merge_range(None, Some(ScaleRange { lo: 3, hi: 4 }));
    assert_eq!(e, Some(ScaleRange { lo: 3, hi: 4 }));
}

fn base_config(scale: PlotScaleMode) -> PlotConfig {
    PlotConfig {
        mode: PlotMode::Continous,
        window: 10000,
        scale_mode: scale,
        y_min: -500,
        y_max: 500,
    }
}

#[test]
fn automax_accumulator_widens_across_queries() {
    let mut plot = PlotData::new(1, b"Plot 1".to_vec());
    let config = base_config(PlotScaleMode::AutoMax);
    let values = vec![samples(&[(0, 100), (1000, 300)])];
    let (vis, bounds) = plot_query(&values, &config, &mut plot, false);
    assert_eq!(vis.len(), 1);
    assert_eq!(bounds, VBounds::Fixed(100, 300));
    assert_eq!(plot.vrange, Some(ScaleRange { lo: 100, hi: 300 }));

    // narrower data never narrows the accumulator
    let values = vec![samples(&[(2000, 150), (3000, 200)])];
    let (_, bounds) = plot_query(&values, &config, &mut plot, false);
    assert_eq!(bounds, VBounds::Fixed(100, 300));

    // wider data widens it
    let values = vec![samples(&[(4000, -50), (5000, 400)])];
    let (_, bounds) = plot_query(&values, &config, &mut plot, false);
    assert_eq!(bounds, VBounds::Fixed(-50, 400));
}

#[test]
fn automax_skips_hidden_series() {
    let mut plot = PlotData::new(1, b"Plot 1".to_vec());
    plot.hidden.push(1);
    let config = base_config(PlotScaleMode::AutoMax);
    let values = vec![
        samples(&[(0, 10), (1000, 20)]),
        samples(&[(0, -999), (1000, 999)]),
    ];
    let (vis, bounds) = plot_query(&values, &config, &mut plot, false);
    // the hidden series is still returned for drawing
    assert_eq!(vis.len(), 2);
    assert_eq!(vis[1].len(), 2);
    // but its values do not reach the accumulator
    assert_eq!(bounds, VBounds::Fixed(10, 20));
}

#[test]
fn manual_and_auto_bounds() {
    let mut plot = PlotData::new(1, b"Plot 1".to_vec());
    let values = vec![samples(&[(0, 100)])];
    let (_, bounds) = plot_query(&values, &base_config(PlotScaleMode::Manual), &mut plot, false);
    assert_eq!(bounds, VBounds::Fixed(-500, 500));
    let (_, bounds) = plot_query(&values, &base_config(PlotScaleMode::Auto), &mut plot, false);
    assert_eq!(bounds, VBounds::Fit);
    assert_eq!(plot.vrange, None);
}

#[test]
fn paused_zoom_leaves_bounds_and_accumulator_alone() {
    let mut plot = PlotData::new(1, b"Plot 1".to_vec());
    let config = base_config(PlotScaleMode::AutoMax);
    let values = vec![samples(&[(0, 1), (1000, 2)])];
    let (vis, bounds) = plot_query(&values, &config, &mut plot, true);
    assert_eq!(bounds, VBounds::Free);
    assert_eq!(plot.vrange, None);
    assert_eq!(vis.len(), 1);
}

#[test]
fn empty_series_window_anchors_at_zero() {
    let values: Vec<Vec<Sample>> = vec![Vec::new()];
    let mut plot = PlotData::new(1, b"Plot 1".to_vec());
    let (vis, _) = plot_query(&values, &base_config(PlotScaleMode::Auto), &mut plot, false);
    assert_eq!(vis.len(), 1);
    assert!(vis[0].is_empty());
}

#[test]
fn cyclic_first_sweep_keeps_only_samples_after_time_zero() {
    // before one full sweep has elapsed the split sits at zero: the
    // sample at t = 0 falls on the boundary and is excluded, and no
    // previous sweep exists yet
    let h = samples(&[(0, 1), (1000, 2), (3000, 3)]);
    let vis = window_cyclic(&h, 3000, 10000);
    assert_eq!(times(&vis), vec![1000, 3000]);
}

#[test]
fn continuous_window_of_empty_history_is_empty() {
    let h: Vec<Sample> = Vec::new();
    assert!(window_continuous(&h, 0, 1000).is_empty());
    assert!(window_cyclic(&h, 0, 1000).is_empty());
}
