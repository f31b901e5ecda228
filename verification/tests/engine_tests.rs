use trader_core::processed_data::Position;
use trader_core::trading_utils::{check_sl, upgrade_sl, SLStrategy, SLType};

fn position(
    quantity: i32,
    open_price: i64,
    current_price: i64,
    pnl: i64,
    sl_type: SLType,
    sl_price: i64,
) -> Position {
    Position {
        position_id: 77,
        ticker: "SPY.US".to_string(),
        quantity,
        open_price,
        current_price,
        pnl,
        sl_strategy: SLStrategy::InsuranceStops,
        sl_type,
        sl_price,
        close_alert: false,
        closing: false,
    }
}

#[test]
fn first_evaluation_enters_loss_limiter_below_the_cheaper_price() {
    // stop = min(current, open) - 0.10.
    let p = position(5, 50000, 51000, 5000, SLType::NoStop, 0);
    let (sl_type, sl_price, alert) = check_sl(&p);
    assert_eq!(sl_type, SLType::LossLimiter);
    assert_eq!(sl_price, 49990); // min(510.00, 500.00) - 0.10 = 499.90
    assert!(!alert);
}

#[test]
fn loss_limiter_ratchets_when_price_runs_ahead_of_the_stop() {
    // current - stop > 0.10 ratchets stop to current - 0.10.
    let p = position(5, 50000, 50008, 40, SLType::LossLimiter, 49990);
    let (sl_type, sl_price, alert) = check_sl(&p);
    assert_eq!(sl_type, SLType::LossLimiter);
    assert_eq!(sl_price, 49998); // 500.08 - 0.10
    assert!(!alert);
}

#[test]
fn loss_limiter_holds_when_price_moves_little() {
    // current - stop is exactly 0.10: not enough to ratchet.
    let p = position(5, 50000, 50000, 0, SLType::LossLimiter, 49990);
    let (sl_type, sl_price, alert) = check_sl(&p);
    assert_eq!(sl_type, SLType::LossLimiter);
    assert_eq!(sl_price, 49990);
    assert!(!alert);
}

#[test]
fn loss_limiter_promotes_to_break_even_at_eleven_cents_gain() {
    // current - open >= 0.11 moves to BreakEven with stop = open + 0.02.
    let p = position(5, 50000, 50011, 55, SLType::LossLimiter, 49990);
    let (sl_type, sl_price, alert) = check_sl(&p);
    assert_eq!(sl_type, SLType::BreakEven);
    assert_eq!(sl_price, 50002);
    assert!(!alert);
}

#[test]
fn break_even_promotes_to_trailing_stop_at_twenty_cents_gain() {
    // current - open >= 0.20 moves to TrailingStop with
    // stop = open + pnl / (2 * quantity).
    let p = position(5, 50000, 50020, 100, SLType::BreakEven, 50002);
    let (sl_type, sl_price, alert) = check_sl(&p);
    assert_eq!(sl_type, SLType::TrailingStop);
    assert_eq!(sl_price, 50010); // 500.00 + 1.00 / 10
    assert!(!alert);
}

#[test]
fn close_alert_fires_when_price_touches_the_stop() {
    let p = position(5, 50000, 49990, -50, SLType::LossLimiter, 49990);
    let (sl_type, sl_price, alert) = check_sl(&p);
    assert_eq!(sl_type, SLType::LossLimiter);
    assert_eq!(sl_price, 49990);
    assert!(alert);
}

#[test]
fn no_stops_strategy_never_moves_the_ladder_nor_raises_the_alert() {
    let mut p = position(5, 50000, 51000, 5000, SLType::NoStop, 0);
    p.sl_strategy = SLStrategy::WithoutStops;
    let (sl_type, sl_price, alert) = check_sl(&p);
    assert_eq!(sl_type, SLType::NoStop);
    assert_eq!(sl_price, 0);
    assert!(!alert);

    // Even with the price at or under the stop, a no-stops strategy never
    // raises the close signal automatically.
    let mut p = position(5, 50000, 49000, -5000, SLType::NoStop, 49990);
    p.sl_strategy = SLStrategy::WithoutStops;
    let (sl_type, sl_price, alert) = check_sl(&p);
    assert_eq!(sl_type, SLType::NoStop);
    assert_eq!(sl_price, 49990);
    assert!(!alert);
}

#[test]
fn manual_upgrade_climbs_one_rung_without_price_thresholds() {
    let p = position(5, 50000, 50005, 25, SLType::NoStop, 0);
    let (t1, s1) = upgrade_sl(&p);
    assert_eq!(t1, SLType::LossLimiter);
    assert_eq!(s1, 49990); // min(500.05, 500.00) - 0.10

    let p = position(5, 50000, 50005, 25, SLType::LossLimiter, 49990);
    let (t2, s2) = upgrade_sl(&p);
    assert_eq!(t2, SLType::BreakEven);
    assert_eq!(s2, 50002); // open + 0.02

    let p = position(5, 50000, 50010, 50, SLType::BreakEven, 50002);
    let (t3, s3) = upgrade_sl(&p);
    assert_eq!(t3, SLType::TrailingStop);
    assert_eq!(s3, 50005); // open + 0.50 / 10

    // The promotion takes no profit threshold: a flat position still climbs.
    let p = position(5, 50000, 50000, 1, SLType::BreakEven, 50002);
    let (t4, s4) = upgrade_sl(&p);
    assert_eq!(t4, SLType::TrailingStop);
    assert_eq!(s4, 50000); // open + 0.01 / 10, truncated

    let p = position(5, 50000, 50010, 50, SLType::TrailingStop, 50005);
    let (t5, s5) = upgrade_sl(&p);
    assert_eq!(t5, SLType::TrailingStop);
    assert_eq!(s5, 50005);
}

#[test]
fn descriptions_name_every_state_and_strategy() {
    assert_eq!(SLType::NoStop.description(), "none");
    assert_eq!(SLType::LossLimiter.description(), "loss limiter");
    assert_eq!(SLType::BreakEven.description(), "break-even");
    assert_eq!(SLType::TrailingStop.description(), "trailing stop");
    assert_eq!(SLStrategy::WithoutStops.description(), "w/o stops");
    assert_eq!(SLStrategy::InsuranceStops.description(), "insurance");
    assert_eq!(SLStrategy::ManualStops.description(), "manual");
    assert_eq!(SLStrategy::CandleTailsStops.description(), "candle tails");
}
