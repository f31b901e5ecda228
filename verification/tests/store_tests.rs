use trader_core::market_data::{DeleteEntry, InsertEntry, OrderBookMessage, UpdateEntry};
use trader_core::processed_data::{OrderBook, OrderBookRow, QuoteBook, QuoteData, Side};

fn insert(p: i64, s: &str, q: i32, k: i32) -> InsertEntry {
    InsertEntry { p, s: s.to_string(), q, k }
}

fn book_message(i: &str, n: i32, ins: Vec<InsertEntry>, del: Vec<DeleteEntry>, upd: Vec<UpdateEntry>) -> OrderBookMessage {
    OrderBookMessage { n, i: i.to_string(), del, ins, upd }
}

#[test]
fn insert_delta_adds_one_buy_row_and_forwards_price_tick() {
    // Insert delta {i:"QQQ.US", ins:[{p:400.0, s:"B", q:10, k:1}]} (400.00 = 40000 cents).
    let mut book = OrderBook::new("acc1");
    let msg = book_message("QQQ.US", 7, vec![insert(40000, "B", 10, 1)], vec![], vec![]);
    let ticks = book.apply_message(&msg);

    assert_eq!(book.order_book.len(), 1);
    let block = &book.order_book[0];
    assert_eq!(block.ticker, "QQQ.US");
    assert_eq!(block.buy_rows.len(), 1);
    assert_eq!(block.sell_rows.len(), 0);
    let row = block.buy_rows[0];
    assert_eq!(row.price, 40000);
    assert_eq!(row.side, Side::Buy);
    assert_eq!(row.quantity, 10);
    assert_eq!(row.position, 1);
    assert_eq!(row.message_number, 7);

    // A synthetic price-tick position delta for "QQQ.US" at 400.00 is forwarded.
    assert_eq!(ticks.len(), 1);
    assert_eq!(ticks[0].position_id, 0);
    assert_eq!(ticks[0].ticker, "QQQ.US");
    assert_eq!(ticks[0].current_price, 40000);
    assert_eq!(ticks[0].quantity, 0);
}

#[test]
fn sell_insert_goes_to_sell_side_and_forwards_no_tick() {
    let mut book = OrderBook::new("acc1");
    let msg = book_message("QQQ.US", 3, vec![insert(40100, "S", 4, 2)], vec![], vec![]);
    let ticks = book.apply_message(&msg);
    assert_eq!(book.order_book[0].sell_rows.len(), 1);
    assert_eq!(book.order_book[0].buy_rows.len(), 0);
    assert!(ticks.is_empty());
}

#[test]
fn unrecognized_side_is_discarded() {
    let mut book = OrderBook::new("acc1");
    let msg = book_message("QQQ.US", 3, vec![insert(40100, "X", 4, 2)], vec![], vec![]);
    let ticks = book.apply_message(&msg);
    // A discarded entry never reaches the store: no block is created for it.
    assert!(book.order_book.is_empty());
    assert!(ticks.is_empty());
}

#[test]
fn update_then_delete_leaves_no_row_at_price() {
    // Update delta {upd:[{p:400.0, q:0}]} followed by delete {del:[{p:400.0}]}
    // leaves no row at 400.00, regardless of the prior update.
    let mut book = OrderBook::new("acc1");
    let setup = book_message(
        "QQQ.US",
        1,
        vec![insert(40000, "B", 10, 1), insert(40000, "S", 2, 1), insert(40100, "S", 5, 2)],
        vec![],
        vec![],
    );
    book.apply_message(&setup);

    let upd = book_message(
        "QQQ.US",
        2,
        vec![],
        vec![],
        vec![UpdateEntry { p: 40000, s: "B".to_string(), q: 0, k: 1 }],
    );
    book.apply_message(&upd);

    let del = book_message("QQQ.US", 3, vec![], vec![DeleteEntry { p: 40000, k: 1 }], vec![]);
    book.apply_message(&del);

    for block in &book.order_book {
        for row in &block.buy_rows {
            assert_ne!(row.price, 40000);
        }
        for row in &block.sell_rows {
            assert_ne!(row.price, 40000);
        }
    }
    // The unrelated row survives.
    assert_eq!(book.order_book[0].sell_rows.len(), 1);
    assert_eq!(book.order_book[0].sell_rows[0].price, 40100);
}

#[test]
fn update_applies_to_every_matching_row_and_is_idempotent() {
    // The same update twice yields rows identical to applying it once.
    let mut once = OrderBook::new("acc1");
    let setup = book_message(
        "QQQ.US",
        1,
        vec![insert(40000, "B", 10, 1), insert(40000, "S", 3, 1)],
        vec![],
        vec![],
    );
    once.apply_message(&setup);
    let mut twice = OrderBook::new("acc1");
    twice.apply_message(&setup);

    once.update_row(40000, 8, 2);
    twice.update_row(40000, 8, 2);
    twice.update_row(40000, 8, 2);

    let rows = |b: &OrderBook| -> Vec<OrderBookRow> {
        let mut out = Vec::new();
        for block in &b.order_book {
            out.extend(block.buy_rows.iter().copied());
            out.extend(block.sell_rows.iter().copied());
        }
        out
    };
    let once_rows = rows(&once);
    let twice_rows = rows(&twice);
    assert_eq!(once_rows, twice_rows);
    for row in once_rows {
        assert_eq!(row.quantity, 8);
        assert_eq!(row.message_number, 2);
    }
}

#[test]
fn delete_spans_all_instruments_of_the_account() {
    // Delete matches by price across every instrument's ladder.
    let mut book = OrderBook::new("acc1");
    book.apply_message(&book_message("QQQ.US", 1, vec![insert(40000, "B", 10, 1)], vec![], vec![]));
    book.apply_message(&book_message("SPY.US", 2, vec![insert(40000, "S", 5, 1)], vec![], vec![]));
    book.remove_row(40000);
    for block in &book.order_book {
        assert!(block.buy_rows.is_empty());
        assert!(block.sell_rows.is_empty());
    }
}

#[test]
fn quote_book_sparse_merge_keeps_absent_fields() {
    let mut quotes = QuoteBook::new("acc1");
    quotes.add_quote(QuoteData {
        ticker: Some("SPY.US".to_string()),
        ask_price: Some(50010),
        bid_price: Some(49990),
        last_trade: Some(50000),
        last_trade_time: Some("10:00:00".to_string()),
    });
    // A later partial update overwrites only the fields present.
    quotes.add_quote(QuoteData {
        ticker: Some("SPY.US".to_string()),
        ask_price: None,
        bid_price: Some(49995),
        last_trade: None,
        last_trade_time: None,
    });
    assert_eq!(quotes.quotes_list.len(), 1);
    let q = &quotes.quotes_list[0];
    assert_eq!(q.ask_price, Some(50010));
    assert_eq!(q.bid_price, Some(49995));
    assert_eq!(q.last_trade, Some(50000));
    assert_eq!(q.last_trade_time.as_deref(), Some("10:00:00"));
}

#[test]
fn quote_book_creates_record_for_unseen_symbol() {
    let mut quotes = QuoteBook::new("acc1");
    quotes.add_quote(QuoteData {
        ticker: Some("SPY.US".to_string()),
        ask_price: Some(50010),
        bid_price: None,
        last_trade: None,
        last_trade_time: None,
    });
    quotes.add_quote(QuoteData {
        ticker: Some("QQQ.US".to_string()),
        ask_price: Some(40010),
        bid_price: None,
        last_trade: None,
        last_trade_time: None,
    });
    assert_eq!(quotes.quotes_list.len(), 2);
    assert_eq!(quotes.quotes_list[1].ticker.as_deref(), Some("QQQ.US"));
}
