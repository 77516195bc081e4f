use quantsim::basis::{ArbCfg, BasisArb};
use quantsim::learner::{Book, Cfg, MLTrader};
use quantsim::market_making::{InventoryMm, MmCfg};
use quantsim::models::{Fill, Order, Side, Tick};
use quantsim::pairs::{PairTrader, StratCfg, LEG_A, LEG_B};
use quantsim::triangular::{TriArb, TriCfg, EUR, EUR_JPY, EUR_USD, JPY, USD, USD_JPY};

const S: i64 = 1_000_000;

fn pair_cfg() -> StratCfg {
    StratCfg { lookback: 5, beta: S, entry_z: 3 * S / 2, exit_z: S / 2, size: 10 * S, pos_limit: 100 * S }
}

fn fill(instrument: usize, side: Side, qty: i64, px: i64) -> Fill {
    Fill { instrument, side, qty, px }
}

#[test]
fn pairs_no_order_before_window_full() {
    let mut t = PairTrader::new(pair_cfg());
    let logs = [100_000i64, 200_000, 300_000, 400_000];
    for l in logs {
        let r = t.on_ticks(100 * S, 98 * S, l, 0);
        assert!(r.is_empty());
    }
}

#[test]
fn pairs_entry_short_spread() {
    let mut t = PairTrader::new(pair_cfg());
    for l in [100_000i64, 200_000, 300_000, 400_000] {
        t.on_ticks(100 * S, 98 * S, l, 0);
    }
    // z = 1.897... > 1.5: sell A, buy beta * size of B
    let r = t.on_ticks(100 * S, 98 * S, 1_000_000, 0);
    assert_eq!(
        r,
        vec![
            Order { instrument: LEG_A, side: Side::Sell, qty: 10 * S, limit_px: Some(100 * S) },
            Order { instrument: LEG_B, side: Side::Buy, qty: 10 * S, limit_px: Some(98 * S) },
        ]
    );
    assert_eq!(t.spread.z_last(1), 1_897_367);
}

#[test]
fn pairs_hedge_leg_scaled_by_beta() {
    let mut cfg = pair_cfg();
    cfg.beta = S / 2;
    let mut t = PairTrader::new(cfg);
    // log_b = 0 keeps the spread equal to log_a
    for l in [-100_000i64, -200_000, -300_000, -400_000] {
        t.on_ticks(100 * S, 98 * S, l, 0);
    }
    let r = t.on_ticks(100 * S, 98 * S, -1_000_000, 0);
    assert_eq!(
        r,
        vec![
            Order { instrument: LEG_A, side: Side::Buy, qty: 10 * S, limit_px: Some(100 * S) },
            Order { instrument: LEG_B, side: Side::Sell, qty: 5 * S, limit_px: Some(98 * S) },
        ]
    );
}

#[test]
fn pairs_spread_uses_beta_times_log_b() {
    let mut cfg = pair_cfg();
    cfg.beta = 2 * S;
    cfg.lookback = 2;
    let mut t = PairTrader::new(cfg);
    t.on_ticks(S, S, 4_600_000, 1_000_000);
    t.on_ticks(S, S, 4_600_000, -1_500_001);
    // spreads: 4.6 - 2.0 and 4.6 + 3.000002
    assert_eq!(t.spread.sum(), 2_600_000 + 7_600_002);
}

#[test]
fn pairs_flatten_inside_exit_band() {
    let mut t = PairTrader::new(pair_cfg());
    t.on_fill(&fill(LEG_A, Side::Sell, 10 * S, 100 * S));
    t.on_fill(&fill(LEG_B, Side::Buy, 10 * S, 98 * S));
    let mut last = Vec::new();
    for _ in 0..5 {
        last = t.on_ticks(100 * S, 98 * S, 500_000, 0);
    }
    // constant spread: z = 0, inside the exit band
    assert_eq!(
        last,
        vec![
            Order { instrument: LEG_A, side: Side::Buy, qty: 10 * S, limit_px: Some(100 * S) },
            Order { instrument: LEG_B, side: Side::Sell, qty: 10 * S, limit_px: Some(98 * S) },
        ]
    );
}

#[test]
fn pairs_entry_blocked_by_limit() {
    let mut cfg = pair_cfg();
    cfg.pos_limit = 15 * S;
    let mut t = PairTrader::new(cfg);
    t.on_fill(&fill(LEG_A, Side::Sell, 10 * S, 100 * S));
    for l in [100_000i64, 200_000, 300_000, 400_000] {
        t.on_ticks(100 * S, 98 * S, l, 0);
    }
    let r = t.on_ticks(100 * S, 98 * S, 1_000_000, 0);
    assert!(r.is_empty());
}

#[test]
fn inventory_is_signed_sum_of_fills() {
    let mut t = PairTrader::new(pair_cfg());
    let fills = [
        (Side::Buy, 3 * S),
        (Side::Sell, 5 * S),
        (Side::Buy, 7 * S),
        (Side::Sell, S / 2),
    ];
    for (side, q) in fills {
        t.on_fill(&fill(LEG_A, side, q, 100 * S));
    }
    assert_eq!(t.pos_a(), 3 * S - 5 * S + 7 * S - S / 2);
    assert_eq!(t.pos_b(), 0);
    // the same fills in reverse order end at the same inventory
    let mut u = PairTrader::new(pair_cfg());
    for (side, q) in fills.iter().rev() {
        u.on_fill(&fill(LEG_A, *side, *q, 100 * S));
    }
    assert_eq!(u.pos_a(), t.pos_a());
}

fn tri_cfg(entry: i64, fee: i64) -> TriCfg {
    TriCfg { entry_bps: entry, exit_bps: 0, fee_bps: fee, size_eur: 1_000 * S, pos_limit: 1_000_000 * S }
}

fn quote(t: &mut TriArb, pair: usize, bid: i64, ask: i64) {
    t.update_tick(Tick { instrument: pair, bid, ask, ts_ms: 0 });
}

#[test]
fn triangular_edges_match_hand_computed() {
    let mut t = TriArb::new(tri_cfg(1_000_000, 1_000));
    assert_eq!(t.edges(), None);
    quote(&mut t, EUR_USD, 1_100_000, 1_100_200);
    quote(&mut t, USD_JPY, 150_000_000, 150_020_000);
    assert_eq!(t.edges(), None);
    assert!(t.check().is_empty());
    quote(&mut t, EUR_JPY, 163_990_000, 164_000_000);
    // (1.1 * 150 * 0.999^2 / 164 / 1.001 - 1) = 30.83 bps,
    // (163.99 * 0.999 / 150.02 / 1.001 / 1.1002 / 1.001 - 1) = -94.10 bps
    assert_eq!(t.edges(), Some((3_083, -9_410)));
    let r = t.check();
    assert!(r.is_empty());
}

#[test]
fn triangular_edge_equal_to_threshold_does_not_fire() {
    let mut t = TriArb::new(tri_cfg(250_000, 0));
    quote(&mut t, EUR_USD, 1_000_000, 1_000_200);
    quote(&mut t, USD_JPY, 100_000_000, 100_020_000);
    quote(&mut t, EUR_JPY, 79_990_000, 80_000_000);
    // 1.0 * 100 / 80 = 1.25: an edge of exactly 2500 bps
    assert_eq!(t.edges().unwrap().0, 250_000);
    assert!(t.check().is_empty());
    let mut u = TriArb::new(tri_cfg(249_999, 0));
    quote(&mut u, EUR_USD, 1_000_000, 1_000_200);
    quote(&mut u, USD_JPY, 100_000_000, 100_020_000);
    quote(&mut u, EUR_JPY, 79_990_000, 80_000_000);
    assert_eq!(
        u.check(),
        vec![
            Order { instrument: EUR_USD, side: Side::Sell, qty: 1_000 * S, limit_px: None },
            Order { instrument: USD_JPY, side: Side::Buy, qty: 1_000 * S, limit_px: None },
            Order { instrument: EUR_JPY, side: Side::Buy, qty: 1_000 * S, limit_px: None },
        ]
    );
}

#[test]
fn triangular_second_cycle_orders() {
    let mut t = TriArb::new(tri_cfg(0, 0));
    quote(&mut t, EUR_USD, 999_800, 1_000_000);
    quote(&mut t, USD_JPY, 99_980_000, 100_000_000);
    quote(&mut t, EUR_JPY, 120_000_000, 120_020_000);
    assert_eq!(
        t.check(),
        vec![
            Order { instrument: EUR_JPY, side: Side::Sell, qty: 1_000 * S, limit_px: None },
            Order { instrument: USD_JPY, side: Side::Sell, qty: 120_000 * S, limit_px: None },
            Order { instrument: EUR_USD, side: Side::Buy, qty: 1_000 * S, limit_px: None },
        ]
    );
}

#[test]
fn triangular_fills_move_two_balances() {
    let mut t = TriArb::new(tri_cfg(0, 0));
    t.on_fill(&fill(EUR_USD, Side::Buy, 1_000 * S, 1_100_000));
    assert_eq!(t.pos[EUR], 1_000 * S);
    assert_eq!(t.pos[USD], -1_100 * S);
    assert_eq!(t.pos[JPY], 0);
    t.on_fill(&fill(USD_JPY, Side::Sell, 1_100 * S, 150_000_000));
    assert_eq!(t.pos[USD], 0);
    assert_eq!(t.pos[JPY], -165_000 * S);
    t.on_fill(&fill(EUR_JPY, Side::Sell, 1_000 * S, 165_000_000));
    assert_eq!(t.pos[EUR], 0);
    assert_eq!(t.pos[JPY], 0);
}

#[test]
fn triangular_pos_after_exec_uses_bid() {
    let mut t = TriArb::new(tri_cfg(0, 0));
    quote(&mut t, EUR_USD, 1_100_000, 1_200_000);
    let o = Order { instrument: EUR_USD, side: Side::Buy, qty: 10 * S, limit_px: None };
    assert_eq!(t.pos_after_exec(&o), vec![10 * S, -11 * S, 0]);
}

fn lob(bid: [i64; 5], ask: [i64; 5], mid: i64) -> Book {
    Book { bid_vol: bid.to_vec(), ask_vol: ask.to_vec(), mid }
}

fn ml_cfg() -> Cfg {
    Cfg { tick_sz: 10_000, theta: 100_000, learning_rate: 100_000, max_pos: 5_000 * S, max_orders_s: 10 }
}

#[test]
fn learner_features_are_depth_imbalance() {
    let b = lob([1_500, 500, 0, 300, 1], [500, 1_500, 0, 100, 2], 100 * S);
    assert_eq!(MLTrader::features(&b), vec![500_000, -500_000, 0, 500_000, -333_333]);
}

#[test]
fn learner_single_gradient_step_closed_form() {
    let mut m = MLTrader::new(ml_cfg());
    let b0 = lob([1_500, 500, 1_000, 1_000, 500], [500, 1_500, 1_000, 3_000, 1_500], 100 * S);
    let b1 = lob([1_000; 5], [1_000; 5], 100 * S - 10_000);
    let b2 = lob([1_000; 5], [1_000; 5], 100 * S);
    // first snapshot: no previous observation, nothing learned
    assert_eq!(m.on_book(&b0, 500_000, 500_000), None);
    assert_eq!(m.w, vec![0; 5]);
    // down-tick: label 0 against the previous prediction 0.5
    m.on_book(&b1, 500_000, 500_000);
    // w += lr * (0 - 0.5) * x0 with x0 = (0.5, -0.5, 0, -0.5, -0.5)
    assert_eq!(m.w, vec![-25_000, 25_000, 0, 25_000, 25_000]);
    assert_eq!(m.b, -50_000);
    // up-tick: label 1 against the prediction of b1's features (all zero),
    // score -0.05 whose logistic is 0.487503...
    let pred = 487_503;
    assert_eq!(m.score_prev(), -50_000);
    m.on_book(&b2, 500_000, pred);
    // x1 is all zero, so only the bias moves: b += 0.1 * (1 - 0.487503)
    assert_eq!(m.w, vec![-25_000, 25_000, 0, 25_000, 25_000]);
    assert_eq!(m.b, -50_000 + 51_249);
}

#[test]
fn learner_trades_only_when_confident() {
    let mut m = MLTrader::new(ml_cfg());
    let b = lob([1_000; 5], [1_000; 5], 100 * S);
    assert_eq!(m.on_book(&b, 600_000, 500_000), None);
    assert_eq!(
        m.on_book(&b, 600_001, 500_000),
        Some(Order { instrument: 0, side: Side::Buy, qty: 1_000 * S, limit_px: None })
    );
    assert_eq!(
        m.on_book(&b, 399_999, 500_000),
        Some(Order { instrument: 0, side: Side::Sell, qty: 1_000 * S, limit_px: None })
    );
}

fn arb_cfg() -> ArbCfg {
    ArbCfg {
        weights: vec![S / 2, S / 2],
        lookback: 3,
        entry_bp: 500,
        exit_bp: 100,
        size_etf: 10 * S,
        pos_limit: 100 * S,
    }
}

#[test]
fn basis_in_hundredths_of_bp() {
    let a = BasisArb::new(arb_cfg());
    // fair = 0.5 * 100 + 0.5 * 102 = 101; ETF 101.0505 is 5 bps rich
    assert_eq!(a.basis_bps(101_050_500, &vec![100 * S, 102 * S]), 500);
    assert_eq!(a.basis_bps(100_949_500, &vec![100 * S, 102 * S]), -500);
}

#[test]
fn basis_waits_for_full_window_then_sells_rich_etf() {
    let mut a = BasisArb::new(arb_cfg());
    let px = vec![100 * S, 102 * S];
    assert!(a.on_tick(101_070_700, &px).is_empty());
    assert!(a.on_tick(101_070_700, &px).is_empty());
    let r = a.on_tick(101_070_700, &px);
    assert_eq!(
        r,
        vec![
            Order { instrument: 2, side: Side::Sell, qty: 10 * S, limit_px: Some(101_070_700) },
            Order { instrument: 0, side: Side::Buy, qty: 5 * S, limit_px: Some(100 * S) },
            Order { instrument: 1, side: Side::Buy, qty: 5 * S, limit_px: Some(102 * S) },
        ]
    );
}

#[test]
fn basis_threshold_is_strict_and_flatten_closes_exact_inventory() {
    let mut a = BasisArb::new(arb_cfg());
    let px = vec![100 * S, 102 * S];
    for _ in 0..3 {
        // exactly at the entry threshold: no entry
        assert!(a.on_tick(101_050_500, &px).is_empty());
    }
    a.on_fill(&fill(2, Side::Sell, 10 * S, 101 * S));
    a.on_fill(&fill(0, Side::Buy, 5 * S, 100 * S));
    a.on_fill(&fill(1, Side::Buy, 4 * S, 102 * S));
    assert_eq!(a.pos_etf(), -10 * S);
    assert_eq!(a.pos_stock(1), 4 * S);
    let r = a.on_tick(101 * S, &px);
    assert_eq!(
        r,
        vec![
            Order { instrument: 2, side: Side::Buy, qty: 10 * S, limit_px: Some(101 * S) },
            Order { instrument: 0, side: Side::Sell, qty: 5 * S, limit_px: Some(100 * S) },
            Order { instrument: 1, side: Side::Sell, qty: 4 * S, limit_px: Some(102 * S) },
        ]
    );
}

#[test]
fn basis_stock_ids() {
    let c = arb_cfg();
    assert_eq!(c.etf_sym(), 2);
    assert_eq!(c.stock_syms(), vec![0, 1]);
}

fn mm_cfg() -> MmCfg {
    MmCfg { half_spread: S / 10, size: S, inv_limit: 10 * S, inv_spread_mult: 2 * S }
}

#[test]
fn mm_quote_flat_and_skewed() {
    let mut m = InventoryMm::new(mm_cfg());
    let t = Tick { instrument: 0, bid: 99 * S, ask: 101 * S, ts_ms: 0 };
    assert_eq!(m.quote(&t), (100 * S - 100_000, 100 * S + 100_000));
    // inventory 5 of limit 10: half = 0.1 * (1 + 0.5 * 2) = 0.2
    m.on_fill(&fill(0, Side::Buy, 5 * S, 100 * S));
    assert_eq!(m.quote(&t), (100 * S - 200_000, 100 * S + 200_000));
    // beyond the limit the skew is clamped at one: half = 0.3
    m.on_fill(&fill(0, Side::Sell, 25 * S, 100 * S));
    assert_eq!(m.inv(), -20 * S);
    assert_eq!(m.quote(&t), (100 * S - 300_000, 100 * S + 300_000));
}

#[test]
fn mm_pnl_tracks_cash() {
    let mut m = InventoryMm::new(mm_cfg());
    m.on_fill(&fill(0, Side::Buy, 2 * S, 100 * S));
    m.on_fill(&fill(0, Side::Sell, 2 * S, 101 * S));
    assert_eq!(m.inv(), 0);
    assert_eq!(m.pnl(), 2 * S as i128);
}
