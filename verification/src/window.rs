//! Windowing and auto-scale engine.
//!
//! A series is an ordered history of samples. Each query converts the
//! unbounded history into the bounded visible subset of the active
//! windowing mode: a trailing continuous window, or a cyclic sweep that
//! keeps the current partial sweep at its own time and shifts the
//! previous sweep one period forward so both render contiguously. The
//! auto-scale policies either fit bounds to the visible data, hold a
//! manual range, or widen a per-plot accumulator monotonically until it
//! is reset.

use vstd::prelude::*;
use crate::data::{PlotConfig, PlotData, PlotMode, PlotScaleMode};

verus! {

/// One stored sample: elapsed milliseconds and fixed-point value.
#[derive(Clone, Copy, Debug, PartialEq, Eq, Structural)]
pub struct Sample {
    pub t: u64,
    pub v: i64,
}

/// A closed vertical range of fixed-point values.
#[derive(Clone, Copy, Debug, PartialEq, Eq, Structural)]
pub struct ScaleRange {
    pub lo: i64,
    pub hi: i64,
}

/// Vertical bounds a presentation layer should apply after a query.
#[derive(Clone, Copy, Debug, PartialEq, Eq, Structural)]
pub enum VBounds {
    /// Zooming is in the user's hands; leave the bounds alone.
    Free,
    /// Fit the bounds to the visible data.
    Fit,
    /// Fix the vertical axis to exactly this range.
    Fixed(i64, i64),
}

/// A sample at time `t` is inside the trailing window `[t_now - w,
/// t_now]` (samples at or past `t_now` always are).
pub open spec fn in_cont_window(t_now: int, w: int, t: int) -> bool {
    t_now <= t + w
}

/// The visible subset of a continuous-window query: exactly the
/// samples within `w` of `t_now`, in history order.
pub open spec fn visible_continuous(h: Seq<Sample>, t_now: int, w: int) -> Seq<Sample> {
    h.filter(|s: Sample| in_cont_window(t_now, w, s.t as int))
}

/// The most recent sweep boundary at or before `t_now`.
pub open spec fn cyc_split(t_now: int, w: int) -> int {
    t_now - t_now % w
}

/// The boundary one full sweep before `cyc_split`.
pub open spec fn cyc_start(t_now: int, w: int) -> int {
    cyc_split(t_now, w) - (w - t_now % w)
}

/// A sample of the previous sweep, shifted one period forward so it
/// renders contiguously after the current partial sweep.
pub open spec fn remap(s: Sample, w: int) -> Sample {
    Sample { t: (s.t + w) as u64, v: s.v }
}

/// The visible subset of a cyclic-window query: the samples of the
/// current partial sweep at their own times, followed by the samples
/// of the previous sweep shifted forward by one period.
pub open spec fn visible_cyclic(h: Seq<Sample>, t_now: int, w: int) -> Seq<Sample> {
    h.filter(|s: Sample| s.t > cyc_split(t_now, w)) + h.filter(
        |s: Sample| cyc_start(t_now, w) <= s.t < cyc_split(t_now, w),
    ).map_values(|s: Sample| remap(s, w))
}

/// Filtering distributes over appending one element.
proof fn lemma_filter_push<A>(s: Seq<A>, x: A, pred: spec_fn(A) -> bool)
    ensures
        s.push(x).filter(pred) == if pred(x) {
            s.filter(pred).push(x)
        } else {
            s.filter(pred)
        },
{
    reveal(Seq::filter);
    assert(s.push(x).drop_last() =~= s);
    if pred(x) {
        assert(s.push(x).filter(pred) =~= s.filter(pred).push(x));
    }
}

/// The visible subset of the continuous window, computed by one scan.
pub fn window_continuous(h: &Vec<Sample>, t_now: u64, window: u64) -> (r: Vec<Sample>)
    ensures
        r@ == visible_continuous(h@, t_now as int, window as int),
{
    let ghost pred = |s: Sample| in_cont_window(t_now as int, window as int, s.t as int);
    let n = h.len();
    let mut r: Vec<Sample> = Vec::new();
    let mut i: usize = 0;
    proof {
        assert(h@.subrange(0, 0) =~= Seq::<Sample>::empty());
        reveal(Seq::filter);
    }
    while i < n
        invariant
            0 <= i <= n == h@.len(),
            pred == (|s: Sample| in_cont_window(t_now as int, window as int, s.t as int)),
            r@ == h@.subrange(0, i as int).filter(pred),
        decreases n - i,
    {
        let s = h[i];
        proof {
            lemma_filter_push(h@.subrange(0, i as int), s, pred);
            assert(h@.subrange(0, i + 1) =~= h@.subrange(0, i as int).push(s));
        }
        if s.t >= t_now || t_now - s.t <= window {
            r.push(s);
        }
        i = i + 1;
    }
    proof {
        assert(h@.subrange(0, n as int) =~= h@);
    }
    r
}

/// The visible subset of the cyclic window, computed by two scans:
/// the current partial sweep, then the previous sweep shifted forward.
pub fn window_cyclic(h: &Vec<Sample>, t_now: u64, window: u64) -> (r: Vec<Sample>)
    requires
        window > 0,
        t_now + window <= u64::MAX,
    ensures
        r@ == visible_cyclic(h@, t_now as int, window as int),
{
    let ghost w = window as int;
    let ghost newp = |s: Sample| s.t > cyc_split(t_now as int, w);
    let ghost oldp = |s: Sample| cyc_start(t_now as int, w) <= s.t < cyc_split(t_now as int, w);
    let ghost f = |s: Sample| remap(s, w);
    let sub = t_now % window;
    proof {
        vstd::arithmetic::div_mod::lemma_mod_decreases(t_now as nat, window as nat);
    }
    let split = t_now - sub;
    let n = h.len();
    let mut r: Vec<Sample> = Vec::new();
    let mut i: usize = 0;
    proof {
        assert(h@.subrange(0, 0) =~= Seq::<Sample>::empty());
        reveal(Seq::filter);
    }
    while i < n
        invariant
            0 <= i <= n == h@.len(),
            newp == (|s: Sample| s.t > cyc_split(t_now as int, window as int)),
            split == t_now - t_now % window,
            w == window as int,
            r@ == h@.subrange(0, i as int).filter(newp),
        decreases n - i,
    {
        let s = h[i];
        proof {
            lemma_filter_push(h@.subrange(0, i as int), s, newp);
            assert(h@.subrange(0, i + 1) =~= h@.subrange(0, i as int).push(s));
        }
        if s.t > split {
            r.push(s);
        }
        i = i + 1;
    }
    proof {
        assert(h@.subrange(0, n as int) =~= h@);
        assert(r@ == h@.filter(newp));
    }

    let mut old_part: Vec<Sample> = Vec::new();
    let mut j: usize = 0;
    proof {
        assert(h@.subrange(0, 0) =~= Seq::<Sample>::empty());
        assert(Seq::<Sample>::empty().map_values(f) =~= Seq::<Sample>::empty());
    }
    while j < n
        invariant
            0 <= j <= n == h@.len(),
            oldp == (|s: Sample| cyc_start(t_now as int, window as int) <= s.t < cyc_split(
                t_now as int,
                window as int,
            )),
            f == (|s: Sample| remap(s, window as int)),
            w == window as int,
            window > 0,
            t_now + window <= u64::MAX,
            split == t_now - t_now % window,
            old_part@ == h@.subrange(0, j as int).filter(oldp).map_values(f),
        decreases n - j,
    {
        let s = h[j];
        proof {
            lemma_filter_push(h@.subrange(0, j as int), s, oldp);
            assert(h@.subrange(0, j + 1) =~= h@.subrange(0, j as int).push(s));
            if oldp(s) {
                assert(h@.subrange(0, j as int).filter(oldp).push(s).map_values(f) =~= h@.subrange(
                    0,
                    j as int,
                ).filter(oldp).map_values(f).push(f(s)));
            }
        }
        // s is in the previous sweep when it lies in [t_now - w, split)
        if s.t < split && (s.t as u128) + (window as u128) >= (t_now as u128) {
            old_part.push(Sample { t: s.t + window, v: s.v });
        }
        j = j + 1;
    }
    proof {
        assert(h@.subrange(0, n as int) =~= h@);
        assert(old_part@ == h@.filter(oldp).map_values(f));
    }
    let mut out = r;
    let mut tail = old_part;
    out.append(&mut tail);
    proof {
        assert(out@ == visible_cyclic(h@, t_now as int, window as int));
    }
    out
}

/// The continuous view holds exactly the samples of the history that
/// lie within the trailing window.
pub proof fn lemma_continuous_window_exact(h: Seq<Sample>, t_now: int, w: int)
    ensures
        forall|s: Sample| #[trigger] visible_continuous(h, t_now, w).contains(s) <==> (h.contains(
            s,
        ) && in_cont_window(t_now, w, s.t as int)),
    decreases h.len(),
{
    reveal(Seq::filter);
    let p = |s: Sample| in_cont_window(t_now, w, s.t as int);
    if h.len() > 0 {
        let prefix = h.drop_last();
        let x = h.last();
        lemma_continuous_window_exact(prefix, t_now, w);
        let v = visible_continuous(h, t_now, w);
        let u = visible_continuous(prefix, t_now, w);
        assert(v == if p(x) {
            u.push(x)
        } else {
            u
        });
        assert forall|s: Sample| #[trigger] v.contains(s) implies h.contains(s) && p(s) by {
            if p(x) && s == x {
                assert(h[h.len() - 1] == x);
            } else {
                let k = choose|k: int| 0 <= k < v.len() && v[k] == s;
                assert(u.contains(s)) by {
                    if !(p(x) && k == v.len() - 1) {
                        assert(u[k] == s);
                    }
                }
                let m = choose|m: int| 0 <= m < prefix.len() && prefix[m] == s;
                assert(h[m] == s);
            }
        }
        assert forall|s: Sample| h.contains(s) && p(s) implies #[trigger] v.contains(s) by {
            let k = choose|k: int| 0 <= k < h.len() && h[k] == s;
            if k < h.len() - 1 {
                assert(prefix[k] == s);
                assert(u.contains(s));
                let m = choose|m: int| 0 <= m < u.len() && u[m] == s;
                assert(v[m] == s);
            } else {
                assert(s == x);
                assert(v[v.len() - 1] == x);
            }
        }
    }
}

/// Shrinking the window never grows the continuous view: with the same
/// history and time, a narrower window's visible set is a subset of
/// the wider one's, and no larger.
pub proof fn lemma_continuous_window_monotone(h: Seq<Sample>, t_now: int, w1: int, w2: int)
    requires
        w1 <= w2,
    ensures
        visible_continuous(h, t_now, w1).len() <= visible_continuous(h, t_now, w2).len(),
        forall|s: Sample| #[trigger] visible_continuous(h, t_now, w1).contains(s)
            ==> visible_continuous(h, t_now, w2).contains(s),
    decreases h.len(),
{
    reveal(Seq::filter);
    let p1 = |s: Sample| in_cont_window(t_now, w1, s.t as int);
    let p2 = |s: Sample| in_cont_window(t_now, w2, s.t as int);
    if h.len() == 0 {
    } else {
        let prefix = h.drop_last();
        let x = h.last();
        lemma_continuous_window_monotone(prefix, t_now, w1, w2);
        let v1 = visible_continuous(h, t_now, w1);
        let v2 = visible_continuous(h, t_now, w2);
        let u1 = visible_continuous(prefix, t_now, w1);
        let u2 = visible_continuous(prefix, t_now, w2);
        assert(v1 == if p1(x) {
            u1.push(x)
        } else {
            u1
        });
        assert(v2 == if p2(x) {
            u2.push(x)
        } else {
            u2
        });
        assert forall|s: Sample| #[trigger] v1.contains(s) implies v2.contains(s) by {
            if p1(x) && s == x {
                assert(p2(x));
                assert(v2[v2.len() - 1] == x);
                assert(v2.contains(x));
            } else {
                if u1.contains(s) {
                    assert(u2.contains(s));
                    let k = choose|k: int| 0 <= k < u2.len() && u2[k] == s;
                    assert(v2[k] == s);
                } else {
                    let k = choose|k: int| 0 <= k < v1.len() && v1[k] == s;
                    assert(p1(x) && k == v1.len() - 1 && s == x) by {
                        if !(p1(x) && k == v1.len() - 1) {
                            assert(u1[k] == s);
                        }
                    }
                }
            }
        }
    }
}

/// A cyclic query is a function of history, time and window alone:
/// re-querying with nothing changed returns the identical visible set.
pub proof fn lemma_cyclic_deterministic(
    h: Seq<Sample>,
    t_now: int,
    w: int,
    r1: Seq<Sample>,
    r2: Seq<Sample>,
)
    requires
        r1 == visible_cyclic(h, t_now, w),
        r2 == visible_cyclic(h, t_now, w),
    ensures
        r1 == r2,
{
}

/// The smallest and largest value in a visible set, or `None` for an
/// empty one.
pub open spec fn value_range_of(s: Seq<Sample>) -> Option<ScaleRange>
    decreases s.len(),
{
    if s.len() == 0 {
        None
    } else {
        match value_range_of(s.drop_last()) {
            None => Some(ScaleRange { lo: s.last().v, hi: s.last().v }),
            Some(r) => Some(
                ScaleRange {
                    lo: if s.last().v < r.lo {
                        s.last().v
                    } else {
                        r.lo
                    },
                    hi: if s.last().v > r.hi {
                        s.last().v
                    } else {
                        r.hi
                    },
                },
            ),
        }
    }
}

/// Compute the value range of a visible set.
pub fn sample_range(v: &Vec<Sample>) -> (r: Option<ScaleRange>)
    ensures
        r == value_range_of(v@),
{
    let n = v.len();
    let mut r: Option<ScaleRange> = None;
    let mut i: usize = 0;
    proof {
        assert(v@.subrange(0, 0) =~= Seq::<Sample>::empty());
    }
    while i < n
        invariant
            0 <= i <= n == v@.len(),
            r == value_range_of(v@.subrange(0, i as int)),
        decreases n - i,
    {
        let s = v[i];
        proof {
            assert(v@.subrange(0, i + 1).drop_last() =~= v@.subrange(0, i as int));
            assert(v@.subrange(0, i + 1).last() == s);
        }
        r = match r {
            None => Some(ScaleRange { lo: s.v, hi: s.v }),
            Some(range) => Some(
                ScaleRange {
                    lo: if s.v < range.lo {
                        s.v
                    } else {
                        range.lo
                    },
                    hi: if s.v > range.hi {
                        s.v
                    } else {
                        range.hi
                    },
                },
            ),
        };
        i = i + 1;
    }
    proof {
        assert(v@.subrange(0, n as int) =~= v@);
    }
    r
}

/// The accumulator after merging an observed range: an observation
/// into an empty accumulator adopts it, anything else widens
/// elementwise, and no observation changes nothing.
pub open spec fn merged_range(acc: Option<ScaleRange>, obs: Option<ScaleRange>) -> Option<
    ScaleRange,
> {
    match obs {
        None => acc,
        Some(o) => match acc {
            None => Some(o),
            Some(a) => Some(
                ScaleRange {
                    lo: if o.lo < a.lo {
                        o.lo
                    } else {
                        a.lo
                    },
                    hi: if o.hi > a.hi {
                        o.hi
                    } else {
                        a.hi
                    },
                },
            ),
        },
    }
}

/// Merge an observed range into an accumulator.
pub fn merge_range(acc: Option<ScaleRange>, obs: Option<ScaleRange>) -> (r: Option<ScaleRange>)
    ensures
        r == merged_range(acc, obs),
{
    match obs {
        None => acc,
        Some(o) => match acc {
            None => Some(o),
            Some(a) => Some(
                ScaleRange {
                    lo: if o.lo < a.lo {
                        o.lo
                    } else {
                        a.lo
                    },
                    hi: if o.hi > a.hi {
                        o.hi
                    } else {
                        a.hi
                    },
                },
            ),
        },
    }
}

/// `b` covers at least the range `a` covers (an empty `a` is covered
/// by anything).
pub open spec fn range_covers(b: Option<ScaleRange>, a: Option<ScaleRange>) -> bool {
    a matches Some(ar) ==> {
        &&& b matches Some(br)
        &&& br.lo <= ar.lo
        &&& br.hi >= ar.hi
    }
}

/// The accumulator after a whole trace of observed ranges, merged in
/// order from an empty start.
pub open spec fn accum_after(obs: Seq<Option<ScaleRange>>) -> Option<ScaleRange>
    decreases obs.len(),
{
    if obs.len() == 0 {
        None
    } else {
        merged_range(accum_after(obs.drop_last()), obs.last())
    }
}

/// One merge never narrows the accumulator, and absorbs the
/// observation whole.
pub proof fn lemma_merge_widens(acc: Option<ScaleRange>, obs: Option<ScaleRange>)
    ensures
        range_covers(merged_range(acc, obs), acc),
        range_covers(merged_range(acc, obs), obs),
{
}

/// Along any trace of observations, the accumulator only ever widens:
/// every earlier accumulator state is covered by every later one.
/// After a reset it restarts from the next observation alone, since
/// merging into an empty accumulator adopts the observation.
pub proof fn lemma_automax_monotone(obs: Seq<Option<ScaleRange>>, i: int, j: int)
    requires
        0 <= i <= j <= obs.len(),
    ensures
        range_covers(accum_after(obs.subrange(0, j)), accum_after(obs.subrange(0, i))),
    decreases j - i,
{
    if i == j {
    } else {
        lemma_automax_monotone(obs, i, j - 1);
        let pre = obs.subrange(0, j - 1);
        let cur = obs.subrange(0, j);
        assert(cur.drop_last() =~= pre);
        lemma_merge_widens(accum_after(pre), cur.last());
    }
}

/// Whether `x` occurs in the hidden list.
pub fn contains_idx(v: &Vec<usize>, x: usize) -> (r: bool)
    ensures
        r == v@.contains(x),
{
    let n = v.len();
    let mut i: usize = 0;
    while i < n
        invariant
            0 <= i <= n == v@.len(),
            forall|k: int| 0 <= k < i ==> v@[k] != x,
        decreases n - i,
    {
        if v[i] == x {
            return true;
        }
        i = i + 1;
    }
    false
}

/// The reference time of one series: its latest sample time, or zero
/// for an empty series.
pub open spec fn series_t_now(h: Seq<Sample>) -> int {
    if h.len() == 0 {
        0
    } else {
        h.last().t as int
    }
}

/// The visible subset of one series under the given mode and window,
/// anchored at the series' own latest time.
pub open spec fn visible_for(mode: PlotMode, h: Seq<Sample>, w: int) -> Seq<Sample> {
    match mode {
        PlotMode::Continous => visible_continuous(h, series_t_now(h), w),
        PlotMode::Cyclic => visible_cyclic(h, series_t_now(h), w),
    }
}

/// The combined value range that the first `n` series contribute to an
/// AutoMax query: hidden series are skipped, the rest contribute the
/// range of their visible subset.
pub open spec fn observed_upto(
    values: Seq<Vec<Sample>>,
    hidden: Seq<usize>,
    mode: PlotMode,
    w: int,
    n: int,
) -> Option<ScaleRange>
    decreases n,
{
    if n <= 0 {
        None
    } else {
        let prev = observed_upto(values, hidden, mode, w, n - 1);
        if hidden.contains((n - 1) as usize) {
            prev
        } else {
            merged_range(prev, value_range_of(visible_for(mode, values[n - 1]@, w)))
        }
    }
}

/// One windowing query for one plot: the visible subset of every
/// series, the AutoMax accumulator update, and the vertical bounds the
/// presentation should apply.
///
/// While `zoom_enabled` holds (the session is paused), nothing is
/// recomputed: bounds stay in the user's hands and the accumulator is
/// untouched. Otherwise `Auto` fits bounds to the data, `Manual` fixes
/// them to the configured range, and `AutoMax` merges the visible
/// range of the non-hidden series into the plot's accumulator and
/// fixes bounds to the accumulated range.
pub fn plot_query(
    values: &Vec<Vec<Sample>>,
    config: &PlotConfig,
    plot: &mut PlotData,
    zoom_enabled: bool,
) -> (r: (Vec<Vec<Sample>>, VBounds))
    requires
        config.mode is Cyclic ==> config.window > 0,
        config.mode is Cyclic ==> forall|i: int|
            0 <= i < values@.len() ==> series_t_now(values@[i]@) + config.window <= u64::MAX,
    ensures
        r.0@.len() == values@.len(),
        forall|i: int|
            0 <= i < values@.len() ==> r.0@[i]@ == visible_for(
                config.mode,
                values@[i]@,
                config.window as int,
            ),
        final(plot).id == old(plot).id,
        final(plot).name == old(plot).name,
        final(plot).hidden == old(plot).hidden,
        final(plot).height == old(plot).height,
        final(plot).console == old(plot).console,
        zoom_enabled ==> final(plot).vrange == old(plot).vrange && r.1 == VBounds::Free,
        !zoom_enabled && config.scale_mode is Auto ==> final(plot).vrange == old(plot).vrange
            && r.1 == VBounds::Fit,
        !zoom_enabled && config.scale_mode is Manual ==> final(plot).vrange == old(plot).vrange
            && r.1 == VBounds::Fixed(config.y_min, config.y_max),
        !zoom_enabled && config.scale_mode is AutoMax ==> {
            &&& final(plot).vrange == merged_range(
                old(plot).vrange,
                observed_upto(
                    values@,
                    old(plot).hidden@,
                    config.mode,
                    config.window as int,
                    values@.len() as int,
                ),
            )
            &&& r.1 == match final(plot).vrange {
                Some(range) => VBounds::Fixed(range.lo, range.hi),
                None => VBounds::Fit,
            }
        },
{
    let n = values.len();
    let automax = !zoom_enabled && config.scale_mode == PlotScaleMode::AutoMax;
    let mut vis: Vec<Vec<Sample>> = Vec::new();
    let mut obs: Option<ScaleRange> = None;
    let mut i: usize = 0;
    while i < n
        invariant
            0 <= i <= n == values@.len(),
            config.mode is Cyclic ==> config.window > 0,
            config.mode is Cyclic ==> forall|k: int|
                0 <= k < values@.len() ==> series_t_now(values@[k]@) + config.window <= u64::MAX,
            vis@.len() == i,
            forall|k: int|
                0 <= k < i ==> vis@[k]@ == visible_for(
                    config.mode,
                    values@[k]@,
                    config.window as int,
                ),
            *plot == *old(plot),
            automax == (!zoom_enabled && config.scale_mode is AutoMax),
            automax ==> obs == observed_upto(
                values@,
                old(plot).hidden@,
                config.mode,
                config.window as int,
                i as int,
            ),
        decreases n - i,
    {
        let series = &values[i];
        let t_now: u64 = if series.len() == 0 {
            0
        } else {
            series[series.len() - 1].t
        };
        proof {
            assert(t_now == series_t_now(values@[i as int]@));
        }
        let v = match config.mode {
            PlotMode::Continous => window_continuous(series, t_now, config.window),
            PlotMode::Cyclic => window_cyclic(series, t_now, config.window),
        };
        if automax && !contains_idx(&plot.hidden, i) {
            let sr = sample_range(&v);
            obs = merge_range(obs, sr);
        }
        vis.push(v);
        i = i + 1;
    }
    let bounds: VBounds;
    if zoom_enabled {
        bounds = VBounds::Free;
    } else if config.scale_mode == PlotScaleMode::Auto {
        bounds = VBounds::Fit;
    } else if config.scale_mode == PlotScaleMode::Manual {
        bounds = VBounds::Fixed(config.y_min, config.y_max);
    } else {
        let merged = merge_range(plot.vrange, obs);
        plot.vrange = merged;
        bounds = match plot.vrange {
            Some(range) => VBounds::Fixed(range.lo, range.hi),
            None => VBounds::Fit,
        };
    }
    (vis, bounds)
}

} // verus!
