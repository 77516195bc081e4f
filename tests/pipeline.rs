use quantsim::coordinator::admit_orders;
use quantsim::exchange::Exchange;
use quantsim::models::{Fill, Order, Side, Tick};
use quantsim::pairs::{PairTrader, StratCfg, LEG_A, LEG_B};
use quantsim::risk::Risk;

const S: i64 = 1_000_000;

struct Lcg(u64);

impl Lcg {
    fn next_unit(&mut self) -> f64 {
        self.0 = self.0.wrapping_mul(6364136223846793005).wrapping_add(1442695040888963407);
        (self.0 >> 11) as f64 / (1u64 << 53) as f64
    }
}

fn log_fp(px: i64) -> i64 {
    ((px as f64 / S as f64).ln() * S as f64).round() as i64
}

/// Runs the pair pipeline for `n` ticks from a seed; returns every admitted
/// order and the inventories after each tick.
fn run_pairs(seed: u64, n: usize) -> (Vec<Order>, Vec<(i64, i64)>) {
    let cfg = StratCfg { lookback: 20, beta: S, entry_z: S, exit_z: S / 4, size: S, pos_limit: 3 * S };
    let mut strat = PairTrader::new(cfg);
    let mut risk = Risk::new(cfg.pos_limit, 1_000, 0);
    let mut ex = Exchange::new(vec![100 * S, 98 * S], vec![0, 0], vec![0, 0]);
    let mut rng = Lcg(seed);
    let mut sent = Vec::new();
    let mut path = Vec::new();
    for step in 0..n {
        let z1 = (rng.next_unit() - 0.5) * 0.002;
        let z2 = 0.9 * z1 + (1.0f64 - 0.81).sqrt() * ((rng.next_unit() - 0.5) * 0.002);
        ex.walk(LEG_A, (z1 * S as f64) as i64);
        ex.walk(LEG_B, (z2 * S as f64) as i64);
        let ticks: Vec<Tick> = ex.ticks(step as u64);
        let (a, b) = (ticks[0].bid, ticks[1].bid);
        let orders = strat.on_ticks(a, b, log_fp(a), log_fp(b));
        let invs: Vec<i64> = orders.iter().map(|o| strat.inv_after(o)).collect();
        let admitted = admit_orders(&mut risk, &orders, &invs, step as u64 * 10);
        for o in &admitted {
            let inv = strat.inv_after(o);
            assert!(inv.abs() <= cfg.pos_limit);
        }
        for o in &admitted {
            let f: Fill = ex.fill(o);
            strat.on_fill(&f);
        }
        sent.extend(admitted);
        path.push((strat.pos_a(), strat.pos_b()));
    }
    (sent, path)
}

#[test]
fn same_seed_same_orders_and_inventory() {
    let (orders1, path1) = run_pairs(7, 2_000);
    let (orders2, path2) = run_pairs(7, 2_000);
    assert_eq!(orders1, orders2);
    assert_eq!(path1, path2);
    assert!(!orders1.is_empty());
}

#[test]
fn exchange_fills_at_touch() {
    let ex = Exchange::new(vec![100 * S, 2 * S], vec![S / 2, 0], vec![S / 2, 0]);
    let buy = Order { instrument: 0, side: Side::Buy, qty: 3 * S, limit_px: None };
    let sell = Order { instrument: 0, side: Side::Sell, qty: 3 * S, limit_px: Some(1) };
    assert_eq!(ex.fill(&buy), Fill { instrument: 0, side: Side::Buy, qty: 3 * S, px: 100 * S + S / 2 });
    assert_eq!(ex.fill(&sell).px, 100 * S - S / 2);
    let t = ex.ticks(9);
    assert_eq!(t[0], Tick { instrument: 0, bid: 99 * S + S / 2, ask: 100 * S + S / 2, ts_ms: 9 });
    assert_eq!(t[1], Tick { instrument: 1, bid: 2 * S, ask: 2 * S, ts_ms: 9 });
}

#[test]
fn exchange_quotes_spread_but_fills_at_mid() {
    let ex = Exchange::new(vec![100 * S], vec![S / 2], vec![0]);
    let buy = Order { instrument: 0, side: Side::Buy, qty: S, limit_px: Some(99 * S) };
    let sell = Order { instrument: 0, side: Side::Sell, qty: S, limit_px: Some(101 * S) };
    // no price-based rejection, and both sides execute at the mid
    assert_eq!(ex.fill(&buy), Fill { instrument: 0, side: Side::Buy, qty: S, px: 100 * S });
    assert_eq!(ex.fill(&sell), Fill { instrument: 0, side: Side::Sell, qty: S, px: 100 * S });
    let t = ex.ticks(0);
    assert_eq!((t[0].bid, t[0].ask), (99 * S + S / 2, 100 * S + S / 2));
}

#[test]
fn exchange_price_moves() {
    let mut ex = Exchange::new(vec![1_100_000, 150 * S, 1], vec![0, 0, 0], vec![0, 0, 0]);
    assert!(ex.walk(0, 1_000));
    assert_eq!(ex.mid[0], 1_101_100);
    assert!(ex.shift(1, -S));
    assert_eq!(ex.mid[1], 149 * S);
    assert!(!ex.shift(2, -1));
    assert_eq!(ex.mid[2], 1);
    assert!(ex.reprice_cross(2, 0, 1, 0));
    assert_eq!(ex.mid[2], 164_063_900);
    // a move past the price range is refused
    assert!(!ex.shift(1, 1_000_000_000_000_000));
    assert_eq!(ex.mid[1], 149 * S);
    // large prices are in range
    assert!(ex.reprice_cross(2, 1, 1, 0));
    assert_eq!(ex.mid[2], 22_201 * S);
    assert!(ex.reprice_basket(2, &vec![S / 2, S / 2], 2_000));
    // fair = (1.1011 + 149) / 2 = 75.05055, times 1.002
    assert_eq!(ex.mid[2], 75_200_651);
}

#[test]
fn admission_keeps_order_and_drops_rejected() {
    let mut risk = Risk::new(5 * S, 2, 0);
    let o = |i: usize| Order { instrument: i, side: Side::Buy, qty: S, limit_px: None };
    let orders = vec![o(0), o(1), o(2), o(3)];
    let invs = vec![S, 6 * S, -5 * S, 0];
    let r = admit_orders(&mut risk, &orders, &invs, 0);
    // the second is over the limit; the fourth is over the per-second ceiling
    assert_eq!(r, vec![o(0), o(2)]);
    assert_eq!(risk.sent_last_sec, 2);
}

#[test]
fn pair_inv_after_per_leg() {
    let cfg = StratCfg { lookback: 2, beta: S, entry_z: S, exit_z: 0, size: S, pos_limit: S };
    let mut t = PairTrader::new(cfg);
    t.on_fill(&Fill { instrument: LEG_B, side: Side::Sell, qty: 2 * S, px: S });
    let o = Order { instrument: LEG_B, side: Side::Buy, qty: S, limit_px: None };
    assert_eq!(t.inv_after(&o), -S);
    let o = Order { instrument: LEG_A, side: Side::Sell, qty: S, limit_px: None };
    assert_eq!(t.inv_after(&o), -S);
}
