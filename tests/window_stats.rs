use quantsim::window::RollingWindow;

#[test]
fn window_never_exceeds_capacity_and_evicts_oldest() {
    let mut w = RollingWindow::new(3);
    for x in [1i64, 2, 3, 4, 5] {
        w.push(x);
        assert!(w.len() <= 3);
    }
    assert!(w.is_full());
    assert_eq!(w.sum(), 3 + 4 + 5);
    assert_eq!(w.sum_sq(), 9 + 16 + 25);
    assert_eq!(w.last(), 5);
}

#[test]
fn z_score_matches_float_reference() {
    let vals = [100_000i64, 200_000, 300_000, 400_000, 1_000_000];
    let mut w = RollingWindow::new(5);
    for v in vals {
        w.push(v);
    }
    let n = vals.len() as f64;
    let mean = vals.iter().map(|v| *v as f64).sum::<f64>() / n;
    let var = vals.iter().map(|v| (*v as f64 - mean).powi(2)).sum::<f64>() / n;
    let z_ref = (vals[4] as f64 - mean) / var.sqrt();
    let z = w.z_last(1) as f64 / 1e6;
    assert!((z - z_ref).abs() < 1e-5, "z={} reference={}", z, z_ref);
    assert_eq!(w.z_last(1), 1_897_367);
}

#[test]
fn z_score_zero_variance_uses_floor() {
    let mut w = RollingWindow::new(3);
    for _ in 0..3 {
        w.push(42);
    }
    assert_eq!(w.z_last(1), 0);
    // mean over the window, with an eviction in between
    w.push(45);
    // samples 42, 42, 45: dev = 3*45 - 129 = 6, var_num = 3*5733 - 129^2 = 18
    // floor sqrt(18) = 4 > 3 * 1, so z = 6 * 10^6 / 4
    assert_eq!(w.z_last(1), 1_500_000);
}

#[test]
fn z_score_negative_deviation() {
    let mut w = RollingWindow::new(2);
    w.push(10);
    w.push(0);
    // dev = 2*0 - 10 = -10, var_num = 2*100 - 100 = 100, root 10
    assert_eq!(w.z_last(1), -1_000_000);
}
