use trader_core::processed_data::Side;
use trader_core::trading_utils::TickerOptions;

#[test]
fn buy_side_writes_put_at_floor_of_price() {
    let mut opts = TickerOptions::new("SPY.US".to_string());
    // 500.50 floors to 500 for the protective put.
    opts.update_for_date(Side::Buy, 50050, 2024, 1, 5);
    assert_eq!(opts.short_option, "+SPY.05JAN2024.P500");
    assert_eq!(opts.long_option, "");
    assert_eq!(opts.ticker, "SPY.US");
}

#[test]
fn sell_side_writes_call_at_ceiling_of_price() {
    let mut opts = TickerOptions::new("QQQ.US".to_string());
    // 400.01 ceils to 401 for the call.
    opts.update_for_date(Side::Sell, 40001, 2025, 12, 19);
    assert_eq!(opts.long_option, "+QQQ.19DEC2025.C401");
    assert_eq!(opts.short_option, "");
}

#[test]
fn exact_dollar_price_keeps_its_strike_on_both_sides() {
    let mut opts = TickerOptions::new("SPY.US".to_string());
    opts.update_for_date(Side::Buy, 50000, 2024, 6, 3);
    opts.update_for_date(Side::Sell, 50000, 2024, 6, 3);
    assert_eq!(opts.short_option, "+SPY.03JUN2024.P500");
    assert_eq!(opts.long_option, "+SPY.03JUN2024.C500");
}

#[test]
fn derived_option_carries_a_real_calendar_date() {
    // The live-clock path: the derived ticker must embed a plausible civil
    // date, which fails if the calendar collaborator were echoing nonsense.
    let mut opts = TickerOptions::new("SPY.US".to_string());
    opts.update(Side::Buy, 50000, 1);
    let s = &opts.short_option;
    assert!(s.starts_with("+SPY."), "unexpected option ticker {s}");
    assert!(s.ends_with(".P500"), "unexpected option ticker {s}");
    let date_part = &s[5..s.len() - 5];
    assert_eq!(date_part.len(), 9, "unexpected date in {s}");
    assert!(date_part[0..2].chars().all(|c| c.is_ascii_digit()));
    let months = [
        "JAN", "FEB", "MAR", "APR", "MAY", "JUN", "JUL", "AUG", "SEP", "OCT", "NOV", "DEC",
    ];
    assert!(months.contains(&&date_part[2..5]));
    assert!(date_part[5..9].chars().all(|c| c.is_ascii_digit()));
}

#[test]
fn zero_price_changes_nothing() {
    let mut opts = TickerOptions::new("SPY.US".to_string());
    opts.update(Side::Buy, 0, 1);
    assert_eq!(opts.short_option, "");
    assert_eq!(opts.long_option, "");
}
