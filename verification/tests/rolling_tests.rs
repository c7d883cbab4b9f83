use cta_engine::rolling::{Container, SampleWindow};

/// A rolling sum over the verified window, accumulating in `f64` the
/// way the engine's operators do: subtract the evicted finite sample,
/// add the new finite one, and answer NaN while any sample in the
/// window is non-finite.
struct Sum {
    win: SampleWindow,
    sum: f64,
}

impl Sum {
    fn new(n: usize) -> Sum {
        Sum {
            win: SampleWindow::new(n),
            sum: 0.0,
        }
    }

    fn update(&mut self, x: f64) -> f64 {
        let evicted = f64::from_bits(self.win.update(x.to_bits()));
        if evicted.is_finite() {
            self.sum -= evicted;
        }
        if x.is_finite() {
            self.sum += x;
        }
        if self.win.all_finite() {
            self.sum
        } else {
            f64::NAN
        }
    }
}

/// A rolling mean with the same machinery; the denominator is the
/// number of finite samples in the window.
struct Mean {
    sum: Sum,
}

impl Mean {
    fn new(n: usize) -> Mean {
        Mean { sum: Sum::new(n) }
    }

    fn update(&mut self, x: f64) -> f64 {
        self.sum.update(x);
        self.sum.sum / self.sum.win.finite_count() as f64
    }
}

/// A rolling standard deviation out of two rolling sums.
struct StDev {
    sumer: Sum,
    sq_sumer: Sum,
    n: usize,
}

impl StDev {
    fn new(n: usize) -> StDev {
        StDev {
            sumer: Sum::new(n),
            sq_sumer: Sum::new(n),
            n,
        }
    }

    fn update(&mut self, x: f64) -> f64 {
        let sum = self.sumer.update(x);
        let sq_sum = self.sq_sumer.update(x * x);
        let num = sq_sum - sum * sum / self.n as f64;
        let variance = if num <= 0.0 { 0.0 } else { num / (self.n as f64 - 1.0) };
        variance.sqrt()
    }
}

#[test]
fn container_starts_full_of_nan() {
    let c = Container::new(3);
    assert_eq!(c.len(), 3);
    for v in c.values() {
        assert!(f64::from_bits(v).is_nan());
    }
}

#[test]
fn container_keeps_last_n_oldest_first() {
    let mut c = Container::new(3);
    for x in [1.0f64, 2.0, 3.0, 4.0, 5.0] {
        c.update(x.to_bits());
    }
    let vals: Vec<f64> = c.values().into_iter().map(f64::from_bits).collect();
    assert_eq!(vals, vec![3.0, 4.0, 5.0]);
    assert_eq!(f64::from_bits(c.head()), 3.0);
    assert_eq!(f64::from_bits(c.tail()), 5.0);
    assert_eq!(f64::from_bits(c.get(0)), 3.0);
    assert_eq!(f64::from_bits(c.get(2)), 5.0);
}

#[test]
fn container_update_returns_new_oldest_and_newest() {
    let mut c = Container::new(2);
    c.update(1.0f64.to_bits());
    let (oldest, newest) = c.update(2.0f64.to_bits());
    assert_eq!(f64::from_bits(oldest), 1.0);
    assert_eq!(f64::from_bits(newest), 2.0);
}

#[test]
fn container_step_rotates_without_writing() {
    let mut c = Container::new(3);
    for x in [1.0f64, 2.0, 3.0] {
        c.update(x.to_bits());
    }
    c.step();
    let vals: Vec<f64> = c.values().into_iter().map(f64::from_bits).collect();
    assert_eq!(vals, vec![2.0, 3.0, 1.0]);
}

#[test]
fn window_counts_nonfinite_samples_exactly() {
    let mut w = SampleWindow::new(3);
    assert_eq!(w.nonfinite_count(), 3);
    assert_eq!(w.finite_count(), 0);
    w.update(1.0f64.to_bits());
    assert_eq!(w.nonfinite_count(), 2);
    w.update(f64::INFINITY.to_bits());
    assert_eq!(w.nonfinite_count(), 2);
    w.update(2.0f64.to_bits());
    assert_eq!(w.nonfinite_count(), 1);
    w.update(3.0f64.to_bits());
    // the window now holds the last three samples: [inf, 2, 3]
    assert_eq!(w.nonfinite_count(), 1);
    assert_eq!(w.finite_count(), 2);
    w.update(4.0f64.to_bits());
    assert!(w.all_finite());
    assert_eq!(w.finite_count(), 3);
}

#[test]
fn window_depends_only_on_the_last_n_samples() {
    // a window restarted on the last N samples holds the same contents
    // as one that saw the whole history
    let n = 5usize;
    let mut long_run = SampleWindow::new(n);
    for i in 0..50 {
        long_run.update((i as f64).to_bits());
    }
    let mut restarted = SampleWindow::new(n);
    for i in 45..50 {
        restarted.update((i as f64).to_bits());
    }
    assert_eq!(long_run.values(), restarted.values());
    assert_eq!(long_run.nonfinite_count(), restarted.nonfinite_count());
}

#[test]
fn restarted_sum_mean_stdev_match_direct_computation() {
    // feed a long sequence; the rolling results must equal the direct
    // computation over the last N samples alone
    let n = 5usize;
    let samples: Vec<f64> = (0..40)
        .map(|i| (i as f64) * 1.25 + ((i * 7) % 11) as f64)
        .collect();
    let mut sum = Sum::new(n);
    let mut mean = Mean::new(n);
    let mut stdev = StDev::new(n);
    let mut last_sum = f64::NAN;
    let mut last_mean = f64::NAN;
    let mut last_stdev = f64::NAN;
    for &x in &samples {
        last_sum = sum.update(x);
        last_mean = mean.update(x);
        last_stdev = stdev.update(x);
    }
    let window = &samples[samples.len() - n..];
    let direct_sum: f64 = window.iter().sum();
    let direct_mean = direct_sum / n as f64;
    let direct_sq_sum: f64 = window.iter().map(|x| x * x).sum();
    let direct_var = (direct_sq_sum - direct_sum * direct_sum / n as f64) / (n as f64 - 1.0);
    let direct_stdev = direct_var.max(0.0).sqrt();
    assert!((last_sum - direct_sum).abs() < 1e-9, "{last_sum} vs {direct_sum}");
    assert!((last_mean - direct_mean).abs() < 1e-9);
    assert!((last_stdev - direct_stdev).abs() < 1e-9);
}

#[test]
fn mean_divides_by_finite_count_and_is_nan_when_all_nonfinite() {
    let mut mean = Mean::new(4);
    // one finite sample among the initial NaNs: divides by 1
    let m1 = mean.update(10.0);
    assert_eq!(m1, 10.0);
    let m2 = mean.update(20.0);
    assert_eq!(m2, 15.0);
    // push a NaN: denominator drops to the finite count again
    let m3 = mean.update(f64::NAN);
    assert_eq!(m3, 15.0);
    // all-NaN window: no finite samples, mean is NaN (0/0)
    let mut dead = Mean::new(2);
    let d1 = dead.update(f64::NAN);
    assert!(d1.is_nan());
    let d2 = dead.update(f64::NAN);
    assert!(d2.is_nan());
}

#[test]
fn stdev_is_nan_until_n_finite_samples() {
    let mut stdev = StDev::new(3);
    assert!(stdev.update(1.0).is_nan());
    assert!(stdev.update(2.0).is_nan());
    let third = stdev.update(3.0);
    assert!(third.is_finite());
    assert!((third - 1.0).abs() < 1e-12);
}

#[test]
fn constant_input_gives_mean_x_stdev_zero_sum_nx() {
    let n = 7usize;
    let x = 42.5f64;
    let mut sum = Sum::new(n);
    let mut mean = Mean::new(n);
    let mut stdev = StDev::new(n);
    let mut s = f64::NAN;
    let mut m = f64::NAN;
    let mut d = f64::NAN;
    for _ in 0..n {
        s = sum.update(x);
        m = mean.update(x);
        d = stdev.update(x);
    }
    assert_eq!(s, n as f64 * x);
    assert_eq!(m, x);
    assert_eq!(d, 0.0);
}
