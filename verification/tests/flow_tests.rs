use trader_core::api::{base_tickers, ConnectionStatus};
use trader_core::api_utils::{ActionType, AuthMessage, Expirations, OrderType, Request};
use trader_core::market_data::{
    InsertEntry, MarketData, OrderBookMessage, PortfolioMessage, PositionEntry, QuoteMessage,
};
use trader_core::observer::{
    apply_market_data, plan_subscriptions, subscription_requests, update_portfolios,
    MessagesToFileSubscriber,
};
use trader_core::processed_data::{OrderBook, Portfolio, Position, QuoteBook};
use trader_core::trading_utils::{SLStrategy, SLType, TickerOptions};

fn snapshot(i: &str, q: i32, acc_pos_id: i64, price_a: i64) -> Position {
    Position {
        position_id: acc_pos_id,
        ticker: i.to_string(),
        quantity: q,
        open_price: price_a,
        current_price: 0,
        pnl: 0,
        sl_strategy: SLStrategy::WithoutStops,
        sl_type: SLType::NoStop,
        sl_price: 0,
        close_alert: false,
        closing: false,
    }
}

fn price_tick(i: &str, price: i64) -> Position {
    Position {
        position_id: 0,
        ticker: i.to_string(),
        quantity: 0,
        open_price: 0,
        current_price: price,
        pnl: 0,
        sl_strategy: SLStrategy::WithoutStops,
        sl_type: SLType::NoStop,
        sl_price: 0,
        close_alert: false,
        closing: false,
    }
}

#[test]
fn snapshot_then_tick_computes_pnl_and_enters_loss_limiter() {
    // Portfolio snapshot {i:"SPY.US", q:5, acc_pos_id:77, price_a:500.0},
    // then a price tick to 510.0.
    let mut portfolio = Portfolio::new("acc1");
    portfolio.apply_delta(&snapshot("SPY.US", 5, 77, 50000));
    assert_eq!(portfolio.portfolio.len(), 1);
    assert_eq!(portfolio.portfolio[0].sl_type, SLType::NoStop);
    assert!(!portfolio.portfolio[0].close_alert);

    // The operator arms the automatic stops for this position.
    portfolio.portfolio[0].sl_strategy = SLStrategy::InsuranceStops;

    portfolio.apply_delta(&price_tick("SPY.US", 51000));
    let p = &portfolio.portfolio[0];
    assert_eq!(p.pnl, 5000); // (510.00 - 500.00) * 5 = 50.00
    assert_eq!(p.current_price, 51000);
    assert_eq!(p.sl_type, SLType::LossLimiter);
    assert_eq!(p.sl_price, 49990); // min(510.00, 500.00) - 0.10 = 499.90
    assert!(!p.close_alert);
}

#[test]
fn pnl_matches_price_move_times_quantity_after_every_tick() {
    let mut portfolio = Portfolio::new("acc1");
    portfolio.apply_delta(&snapshot("SPY.US", 7, 12, 40000));
    for price in [40100i64, 39900, 40250] {
        portfolio.apply_delta(&price_tick("SPY.US", price));
        let p = &portfolio.portfolio[0];
        assert_eq!(p.pnl, (p.current_price - p.open_price) * p.quantity as i64);
    }
}

#[test]
fn trailing_stop_never_drops_back_when_price_retraces() {
    // Ticks 500 -> 502 -> 501 with quantity 5 in TrailingStop: the stop stays
    // at the value computed at 502.
    let mut portfolio = Portfolio::new("acc1");
    portfolio.apply_delta(&snapshot("SPY.US", 5, 77, 50000));
    portfolio.portfolio[0].sl_strategy = SLStrategy::InsuranceStops;
    portfolio.portfolio[0].sl_type = SLType::TrailingStop;
    portfolio.portfolio[0].sl_price = 50000;
    portfolio.apply_delta(&price_tick("SPY.US", 50000));

    portfolio.apply_delta(&price_tick("SPY.US", 50200));
    // candidate = open + pnl/(2q) = 500.00 + 10.00/10 = 501.00
    assert_eq!(portfolio.portfolio[0].sl_price, 50100);
    assert_eq!(portfolio.portfolio[0].sl_type, SLType::TrailingStop);

    portfolio.apply_delta(&price_tick("SPY.US", 50100));
    // 501.00 <= stop: the close signal fires and the stop does not loosen.
    assert_eq!(portfolio.portfolio[0].sl_price, 50100);
    assert!(portfolio.portfolio[0].close_alert);
}

#[test]
fn zero_quantity_delta_removes_position_and_drops_ticker_quietly() {
    // Portfolio delta {i:"SPY.US", q:0, ...} on an existing position.
    let mut portfolio = Portfolio::new("acc1");
    portfolio.apply_delta(&snapshot("SPY.US", 5, 77, 50000));
    let closed = snapshot("SPY.US", 0, 77, 50000);
    portfolio.apply_delta(&closed);
    assert!(portfolio.portfolio.is_empty());

    // The subscription manager drops the ticker locally and emits nothing.
    let watched = vec!["SPY.US".to_string()];
    let (after, requests) = subscription_requests(&watched, &vec![closed]);
    assert!(after.is_empty());
    assert!(requests.is_none());
}

#[test]
fn rebase_updates_open_price_and_quantity_in_place() {
    let mut portfolio = Portfolio::new("acc1");
    portfolio.apply_delta(&snapshot("SPY.US", 5, 77, 50000));
    portfolio.apply_delta(&price_tick("SPY.US", 50100));
    portfolio.apply_delta(&snapshot("SPY.US", 9, 77, 50050));
    assert_eq!(portfolio.portfolio.len(), 1);
    let p = &portfolio.portfolio[0];
    assert_eq!(p.quantity, 9);
    assert_eq!(p.open_price, 50050);
    // Re-basing keeps the last current price; only a tick recomputes PnL.
    assert_eq!(p.current_price, 50100);
}

#[test]
fn a_batch_applies_its_deltas_in_order() {
    let mut portfolio = Portfolio::new("acc1");
    let batch = vec![
        snapshot("AAPL.US", 3, 5, 15000),
        snapshot("SPY.US", 5, 77, 50000),
        price_tick("SPY.US", 50100),
    ];
    portfolio.apply_deltas(&batch);
    assert_eq!(portfolio.portfolio.len(), 2);
    assert_eq!(portfolio.portfolio[0].ticker, "AAPL.US");
    assert_eq!(portfolio.portfolio[0].current_price, 0);
    assert_eq!(portfolio.portfolio[1].ticker, "SPY.US");
    // The tick lands after the snapshot that created the position.
    assert_eq!(portfolio.portfolio[1].current_price, 50100);
    assert_eq!(portfolio.portfolio[1].pnl, 500);
}

#[test]
fn tick_for_unknown_ticker_is_a_no_op() {
    let mut portfolio = Portfolio::new("acc1");
    portfolio.apply_delta(&price_tick("SPY.US", 50100));
    assert!(portfolio.portfolio.is_empty());
}

#[test]
fn new_subscription_emits_requests_against_the_full_updated_list() {
    let watched = vec!["QQQ.US".to_string()];
    let deltas = vec![snapshot("AAPL.US", 3, 5, 15000)];
    let (after, requests) = subscription_requests(&watched, &deltas);
    assert_eq!(after, vec!["QQQ.US".to_string(), "AAPL.US".to_string()]);
    let (quotes_msg, book_msg) = requests.expect("a newly watched ticker owes requests");
    assert_eq!(quotes_msg, "[\"quotes\",[\"QQQ.US\",\"AAPL.US\"]]");
    assert_eq!(book_msg, "[\"orderBook\",[\"QQQ.US\",\"AAPL.US\"]]");
}

#[test]
fn already_watched_ticker_never_emits_a_second_request() {
    // The same "already watched" ticker applied twice never emits again.
    let watched = vec!["SPY.US".to_string()];
    let delta = vec![snapshot("SPY.US", 5, 77, 50000)];
    let (after_first, first) = subscription_requests(&watched, &delta);
    assert!(first.is_none());
    assert_eq!(after_first, watched);
    let (after_second, second) = subscription_requests(&after_first, &delta);
    assert!(second.is_none());
    assert_eq!(after_second, watched);
}

#[test]
fn a_removal_free_batch_applied_twice_emits_only_once() {
    let watched: Vec<String> = Vec::new();
    let batch = vec![snapshot("AAPL.US", 3, 5, 15000), snapshot("MSFT.US", 2, 6, 30000)];
    let (after_first, first) = subscription_requests(&watched, &batch);
    assert!(first.is_some());
    assert_eq!(after_first, vec!["AAPL.US".to_string(), "MSFT.US".to_string()]);
    let (after_second, second) = subscription_requests(&after_first, &batch);
    assert!(second.is_none());
    assert_eq!(after_second, after_first);
}

#[test]
fn quantity_only_change_on_watched_ticker_emits_nothing() {
    let watched = vec!["SPY.US".to_string()];
    let (after, new) = plan_subscriptions(&watched, &vec![snapshot("SPY.US", 11, 77, 50000)]);
    assert_eq!(after, watched);
    assert!(new.is_empty());
}

#[test]
fn market_data_stage_routes_messages_per_account() {
    let mut order_books: Vec<OrderBook> = Vec::new();
    let mut quote_books: Vec<QuoteBook> = Vec::new();

    let book_msg = MarketData::OrderBookMessage(OrderBookMessage {
        n: 1,
        i: "QQQ.US".to_string(),
        del: vec![],
        ins: vec![InsertEntry { p: 40000, s: "B".to_string(), q: 10, k: 1 }],
        upd: vec![],
    });
    let deltas = apply_market_data(&mut order_books, &mut quote_books, "acc1", &book_msg);
    assert_eq!(order_books.len(), 1);
    assert_eq!(order_books[0].id, "acc1");
    assert_eq!(deltas.len(), 1);
    assert_eq!(deltas[0].ticker, "QQQ.US");

    // A second account gets a book of its own.
    apply_market_data(&mut order_books, &mut quote_books, "acc2", &book_msg);
    assert_eq!(order_books.len(), 2);
    assert_eq!(order_books[0].order_book[0].buy_rows.len(), 1);
    assert_eq!(order_books[1].order_book[0].buy_rows.len(), 1);

    let quote_msg = MarketData::QuoteMessage(QuoteMessage {
        c: Some("QQQ.US".to_string()),
        bap: Some(40010),
        bbp: Some(39990),
        ltp: None,
        ltt: None,
    });
    let deltas = apply_market_data(&mut order_books, &mut quote_books, "acc1", &quote_msg);
    assert!(deltas.is_empty());
    assert_eq!(quote_books.len(), 1);
    assert_eq!(quote_books[0].quotes_list[0].ask_price, Some(40010));

    let portfolio_msg = MarketData::PortfolioMessage(PortfolioMessage {
        pos: vec![PositionEntry {
            i: "SPY.US".to_string(),
            q: 5,
            acc_pos_id: 77,
            price_a: 50000,
        }],
    });
    let deltas = apply_market_data(&mut order_books, &mut quote_books, "acc1", &portfolio_msg);
    assert_eq!(deltas.len(), 1);
    assert_eq!(deltas[0].position_id, 77);
    assert_eq!(deltas[0].quantity, 5);
    assert_eq!(deltas[0].open_price, 50000);

    let mut portfolios: Vec<Portfolio> = Vec::new();
    update_portfolios(&mut portfolios, "acc1", &deltas);
    assert_eq!(portfolios.len(), 1);
    assert_eq!(portfolios[0].id, "acc1");
    assert_eq!(portfolios[0].portfolio.len(), 1);
    assert_eq!(portfolios[0].portfolio[0].ticker, "SPY.US");
}

#[test]
fn request_wire_forms_match_the_protocol() {
    assert_eq!(
        Request::quotes(vec!["QQQ.US".to_string()]).message(),
        "[\"quotes\",[\"QQQ.US\"]]"
    );
    assert_eq!(
        Request::order_book(vec!["QQQ.US".to_string(), "SPY.US".to_string()]).message(),
        "[\"orderBook\",[\"QQQ.US\",\"SPY.US\"]]"
    );
    assert_eq!(Request::portfolio().message(), "[\"portfolio\"]");
    assert_eq!(Request::orders().message(), "[\"orders\"]");
    assert_eq!(Request::markets().message(), "[\"markets\"]");
    // The params list is JSON-escaped by the serializer, not echoed verbatim.
    assert_eq!(
        Request::quotes(vec!["A\"B".to_string()]).message(),
        "[\"quotes\",[\"A\\\"B\"]]"
    );
}

#[test]
fn broker_codes_and_defaults() {
    assert_eq!(ActionType::Buy.ff_code(), 1);
    assert_eq!(ActionType::Sell.ff_code(), 3);
    assert_eq!(OrderType::Market.ff_code(), 1);
    assert_eq!(OrderType::Limit.ff_code(), 2);
    assert_eq!(Expirations::Day.ff_code(), 1);
    assert_eq!(ConnectionStatus::Connected.description(), "online");
    assert_eq!(ConnectionStatus::Disconnected.description(), "offline");
    assert_eq!(base_tickers(), vec!["QQQ.US".to_string(), "SPY.US".to_string()]);

    let auth = AuthMessage::new("user", "pass");
    assert_eq!(auth.login, "user");
    assert_eq!(auth.password, "pass");
    assert_eq!(auth.remember_me, 1);

    let sub = MessagesToFileSubscriber::new("messages.log".to_string());
    assert_eq!(sub.file_path, "messages.log");

    let opts = TickerOptions::new("SPY.US".to_string());
    assert_eq!(opts.ticker, "SPY.US");
    assert!(opts.short_option.is_empty());
    assert!(opts.long_option.is_empty());
}
