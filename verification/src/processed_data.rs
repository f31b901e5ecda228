//! Per-account stores rebuilt from incremental broker deltas: the two-sided
//! order-book price ladder, the latest-quote book, and the portfolio of open
//! positions. Prices are fixed-point integers in hundredths (cents).
use vstd::prelude::*;

use crate::trading_utils::{SLStrategy, SLType};
use crate::{PNL_ABS_MAX, PRICE_MAX};

verus! {

broadcast use vstd::seq_lib::group_seq_lib_default;

/// Side of an order-book row.
#[derive(Debug, Clone, Copy, PartialEq, Eq, Structural)]
pub enum Side {
    Buy,
    Sell,
}

/// One price level of an instrument's ladder.
#[derive(Debug, Clone, Copy, PartialEq, Eq, Structural)]
pub struct OrderBookRow {
    /// Price of the level, in cents.
    pub price: i64,
    pub side: Side,
    pub quantity: i32,
    /// Slot number inside the ladder, as the wire reported it.
    pub position: i32,
    /// Sequence number of the message that produced or last updated the row.
    pub message_number: i32,
}

/// Both sides of one instrument's ladder.
pub struct OrderBookBlock {
    pub ticker: String,
    pub buy_rows: Vec<OrderBookRow>,
    pub sell_rows: Vec<OrderBookRow>,
}

/// Mathematical value of an `OrderBookBlock`.
pub ghost struct BlockView {
    pub ticker: Seq<char>,
    pub buys: Seq<OrderBookRow>,
    pub sells: Seq<OrderBookRow>,
}

impl View for OrderBookBlock {
    type V = BlockView;

    open spec fn view(&self) -> BlockView {
        BlockView { ticker: self.ticker@, buys: self.buy_rows@, sells: self.sell_rows@ }
    }
}

/// Per-account order book: one ladder block per instrument.
pub struct OrderBook {
    pub id: String,
    pub order_book: Vec<OrderBookBlock>,
}

/// Mathematical value of an `OrderBook`.
pub ghost struct BookView {
    pub id: Seq<char>,
    pub blocks: Seq<BlockView>,
}

impl View for OrderBook {
    type V = BookView;

    open spec fn view(&self) -> BookView {
        BookView { id: self.id@, blocks: self.order_book@.map_values(|b: OrderBookBlock| b@) }
    }
}

/// Keeps the rows that a delete delta at `price` leaves in place.
pub open spec fn price_ne_pred(price: i64) -> spec_fn(OrderBookRow) -> bool {
    |r: OrderBookRow| r.price != price
}

/// A row's quantity and sequence number after a reconciling update at `price`.
pub open spec fn row_updated(r: OrderBookRow, price: i64, quantity: i32, n: i32) -> OrderBookRow {
    if r.price == price {
        OrderBookRow { quantity, message_number: n, ..r }
    } else {
        r
    }
}

/// `row_updated` as a mapping over a side's rows.
pub open spec fn row_update_fn(price: i64, quantity: i32, n: i32) -> spec_fn(OrderBookRow) -> OrderBookRow {
    |r: OrderBookRow| row_updated(r, price, quantity, n)
}

/// One ladder block after every row priced `price`, on either side, is removed.
pub open spec fn block_without_price(b: BlockView, price: i64) -> BlockView {
    BlockView {
        ticker: b.ticker,
        buys: b.buys.filter(price_ne_pred(price)),
        sells: b.sells.filter(price_ne_pred(price)),
    }
}

/// One ladder block after every row priced `price`, on either side, takes the
/// update's quantity and sequence number.
pub open spec fn block_with_update(b: BlockView, price: i64, quantity: i32, n: i32) -> BlockView {
    BlockView {
        ticker: b.ticker,
        buys: b.buys.map_values(row_update_fn(price, quantity, n)),
        sells: b.sells.map_values(row_update_fn(price, quantity, n)),
    }
}

/// One ladder block after `row` is appended to the bucket for its side.
pub open spec fn block_with_row(b: BlockView, row: OrderBookRow) -> BlockView {
    match row.side {
        Side::Buy => BlockView { buys: b.buys.push(row), ..b },
        Side::Sell => BlockView { sells: b.sells.push(row), ..b },
    }
}

/// A fresh ladder block for `ticker` holding only `row`.
pub open spec fn singleton_block(ticker: Seq<char>, row: OrderBookRow) -> BlockView {
    match row.side {
        Side::Buy => BlockView { ticker, buys: seq![row], sells: seq![] },
        Side::Sell => BlockView { ticker, buys: seq![], sells: seq![row] },
    }
}

/// Whether some block of `blocks` is keyed by `ticker`.
pub open spec fn has_ticker(blocks: Seq<BlockView>, ticker: Seq<char>) -> bool {
    exists|i: int| 0 <= i < blocks.len() && blocks[i].ticker == ticker
}

/// An account's blocks after an insert delta: the row joins the block for
/// `ticker`, which is created if absent.
pub open spec fn spec_add_row(blocks: Seq<BlockView>, ticker: Seq<char>, row: OrderBookRow) -> Seq<
    BlockView,
> {
    if has_ticker(blocks, ticker) {
        blocks.map_values(
            |b: BlockView| if b.ticker == ticker { block_with_row(b, row) } else { b },
        )
    } else {
        blocks.push(singleton_block(ticker, row))
    }
}

/// An account's blocks after a delete delta: every row priced `price` leaves
/// every side of every instrument's ladder.
pub open spec fn spec_remove_price(blocks: Seq<BlockView>, price: i64) -> Seq<BlockView> {
    blocks.map_values(|b: BlockView| block_without_price(b, price))
}

/// An account's blocks after an update delta: every row priced `price`, in
/// every ladder, takes the delta's quantity and sequence number.
pub open spec fn spec_update_price(blocks: Seq<BlockView>, price: i64, quantity: i32, n: i32) -> Seq<
    BlockView,
> {
    blocks.map_values(|b: BlockView| block_with_update(b, price, quantity, n))
}

/// Whether any row priced `price` remains on either side of any instrument's
/// ladder.
pub open spec fn book_has_price(blocks: Seq<BlockView>, price: i64) -> bool {
    exists|j: int, k: int|
        0 <= j < blocks.len() && ((0 <= k < blocks[j].buys.len() && blocks[j].buys[k].price
            == price) || (0 <= k < blocks[j].sells.len() && blocks[j].sells[k].price == price))
}

/// Reconciling update deltas converge: applying the same update twice leaves
/// every row exactly as one application does.
pub proof fn lemma_update_idempotent(blocks: Seq<BlockView>, price: i64, quantity: i32, n: i32)
    ensures
        spec_update_price(spec_update_price(blocks, price, quantity, n), price, quantity, n)
            == spec_update_price(blocks, price, quantity, n),
{
    let once = spec_update_price(blocks, price, quantity, n);
    let twice = spec_update_price(once, price, quantity, n);
    let f = row_update_fn(price, quantity, n);
    assert forall|j: int| 0 <= j < blocks.len() implies twice[j] == once[j] by {
        assert(twice[j].buys =~= once[j].buys);
        assert(twice[j].sells =~= once[j].sells);
    }
    assert(twice =~= once);
}

/// Delete completeness: after a delete delta at `price`, no row with that
/// price remains on either side of any instrument's ladder for the account.
pub proof fn lemma_delete_complete(blocks: Seq<BlockView>, price: i64)
    ensures
        !book_has_price(spec_remove_price(blocks, price), price),
{
    let stripped = spec_remove_price(blocks, price);
    assert forall|j: int, k: int|
        0 <= j < stripped.len() && 0 <= k < stripped[j].buys.len() implies stripped[j].buys[k].price
        != price by {
        assert(stripped[j].buys == blocks[j].buys.filter(price_ne_pred(price)));
    }
    assert forall|j: int, k: int|
        0 <= j < stripped.len() && 0 <= k
            < stripped[j].sells.len() implies stripped[j].sells[k].price != price by {
        assert(stripped[j].sells == blocks[j].sells.filter(price_ne_pred(price)));
    }
}

/// Copies of the rows of `rows` whose price differs from `price`, in order.
fn rows_without_price(rows: &Vec<OrderBookRow>, price: i64) -> (r: Vec<OrderBookRow>)
    ensures
        r@ == rows@.filter(price_ne_pred(price)),
{
    let mut out: Vec<OrderBookRow> = Vec::new();
    let mut i: usize = 0;
    while i < rows.len()
        invariant
            i <= rows@.len(),
            out@ == rows@.take(i as int).filter(price_ne_pred(price)),
        decreases rows@.len() - i,
    {
        let row = rows[i];
        if row.price != price {
            out.push(row);
        }
        proof {
            assert(rows@.take(i + 1) =~= rows@.take(i as int).push(rows@[i as int]));
            rows@.take(i as int).lemma_filter_push(rows@[i as int], price_ne_pred(price));
        }
        i += 1;
    }
    proof {
        assert(rows@.take(rows@.len() as int) =~= rows@);
    }
    out
}

/// Copies of the rows of `rows`, those priced `price` reconciled to the
/// update's quantity and sequence number.
fn rows_with_update(rows: &Vec<OrderBookRow>, price: i64, quantity: i32, n: i32) -> (r: Vec<
    OrderBookRow,
>)
    ensures
        r@ == rows@.map_values(row_update_fn(price, quantity, n)),
{
    let mut out: Vec<OrderBookRow> = Vec::new();
    let mut i: usize = 0;
    while i < rows.len()
        invariant
            i <= rows@.len(),
            out@ == rows@.take(i as int).map_values(row_update_fn(price, quantity, n)),
        decreases rows@.len() - i,
    {
        let row = rows[i];
        if row.price == price {
            out.push(OrderBookRow { quantity, message_number: n, ..row });
        } else {
            out.push(row);
        }
        proof {
            assert(rows@.take(i + 1) =~= rows@.take(i as int).push(rows@[i as int]));
            rows@.take(i as int).lemma_push_map_commute(
                row_update_fn(price, quantity, n),
                rows@[i as int],
            );
        }
        i += 1;
    }
    proof {
        assert(rows@.take(rows@.len() as int) =~= rows@);
    }
    out
}

/// Index of the ladder block keyed by `key`, if one exists.
fn find_block(blocks: &Vec<OrderBookBlock>, key: &String) -> (r: Option<usize>)
    ensures
        match r {
            Some(i) => i < blocks@.len() && blocks@[i as int].ticker@ == key@,
            None => forall|j: int| 0 <= j < blocks@.len() ==> blocks@[j].ticker@ != key@,
        },
{
    let mut i: usize = 0;
    while i < blocks.len()
        invariant
            i <= blocks@.len(),
            forall|j: int| 0 <= j < i ==> blocks@[j].ticker@ != key@,
        decreases blocks@.len() - i,
    {
        if blocks[i].ticker == *key {
            return Some(i);
        }
        i += 1;
    }
    None
}

impl OrderBook {
    /// Distinct tickers: a reconciling delta touches at most one block per instrument.
    pub open spec fn wf(self) -> bool {
        forall|i: int, j: int|
            0 <= i < j < self@.blocks.len() ==> self@.blocks[i].ticker != self@.blocks[j].ticker
    }

    pub fn new(id: &str) -> (r: OrderBook)
        ensures
            r@.id == id@,
            r@.blocks.len() == 0,
            r.wf(),
    {
        OrderBook { id: id.to_owned(), order_book: Vec::new() }
    }

    /// Appends `row` to the side bucket of the ladder for `ticker`, creating
    /// the per-instrument block if absent.
    pub fn add_row(&mut self, ticker: &str, row: OrderBookRow)
        requires
            old(self).wf(),
        ensures
            final(self)@.id == old(self)@.id,
            final(self)@.blocks == spec_add_row(old(self)@.blocks, ticker@, row),
            final(self).wf(),
    {
        let ghost orig = self@.blocks;
        let key = ticker.to_owned();
        match find_block(&self.order_book, &key) {
            Some(i) => {
                proof {
                    assert(orig[i as int] == self.order_book@[i as int]@);
                    assert(orig[i as int].ticker == ticker@);
                    assert(has_ticker(orig, ticker@));
                    assert forall|j: int|
                        0 <= j < orig.len() && j != i ==> orig[j].ticker != ticker@ by {
                        if 0 <= j < orig.len() && j != i {
                            if j < i {
                                assert(orig[j].ticker != orig[i as int].ticker);
                            } else {
                                assert(orig[i as int].ticker != orig[j].ticker);
                            }
                        }
                    }
                }
                let block = &mut self.order_book[i];
                match row.side {
                    Side::Buy => block.buy_rows.push(row),
                    Side::Sell => block.sell_rows.push(row),
                }
                proof {
                    assert(self@.blocks[i as int] == self.order_book@[i as int]@);
                    assert(self@.blocks[i as int] == block_with_row(orig[i as int], row));
                    assert(forall|j: int|
                        0 <= j < orig.len() && j != i ==> self@.blocks[j] == orig[j]);
                    assert(self@.blocks =~= spec_add_row(orig, ticker@, row));
                }
            },
            None => {
                proof {
                    assert(!has_ticker(orig, ticker@));
                }
                let mut block = OrderBookBlock {
                    ticker: key,
                    buy_rows: Vec::new(),
                    sell_rows: Vec::new(),
                };
                match row.side {
                    Side::Buy => block.buy_rows.push(row),
                    Side::Sell => block.sell_rows.push(row),
                }
                self.order_book.push(block);
                proof {
                    assert(self@.blocks =~= spec_add_row(orig, ticker@, row));
                }
            },
        }
    }

    /// Removes every row priced `price` from either side of every instrument's
    /// ladder for this account.
    pub fn remove_row(&mut self, price: i64)
        ensures
            final(self)@.id == old(self)@.id,
            final(self)@.blocks == spec_remove_price(old(self)@.blocks, price),
            old(self).wf() ==> final(self).wf(),
    {
        let ghost orig = self@.blocks;
        let ghost orig_id = self@.id;
        let n = self.order_book.len();
        let mut i: usize = 0;
        while i < n
            invariant
                n == self.order_book@.len(),
                self@.id == orig_id,
                i <= n,
                forall|j: int|
                    0 <= j < i ==> self@.blocks[j] == block_without_price(orig[j], price),
                forall|j: int| i <= j < n ==> self@.blocks[j] == orig[j],
            decreases n - i,
        {
            let ghost pre = self@.blocks;
            let buys = rows_without_price(&self.order_book[i].buy_rows, price);
            let sells = rows_without_price(&self.order_book[i].sell_rows, price);
            let block = &mut self.order_book[i];
            block.buy_rows = buys;
            block.sell_rows = sells;
            proof {
                assert forall|j: int| 0 <= j < n && j != i implies self@.blocks[j] == pre[j] by {
                    assert(self@.blocks[j] == self.order_book@[j]@);
                }
                assert(self@.blocks[i as int] == self.order_book@[i as int]@);
                assert(self@.blocks[i as int] == block_without_price(orig[i as int], price));
                assert forall|j: int|
                    0 <= j < i + 1 implies self@.blocks[j] == block_without_price(
                    orig[j],
                    price,
                ) by {
                    if j != i {
                        assert(self@.blocks[j] == pre[j]);
                    }
                }
                assert forall|j: int| i + 1 <= j < n implies self@.blocks[j] == orig[j] by {
                    assert(self@.blocks[j] == pre[j]);
                }
            }
            i += 1;
        }
        proof {
            assert(self@.blocks =~= spec_remove_price(orig, price));
        }
    }

    /// Sets the quantity and sequence number of every row priced `price`
    /// across all instruments and both sides of this account's book.
    pub fn update_row(&mut self, price: i64, quantity: i32, message_number: i32)
        ensures
            final(self)@.id == old(self)@.id,
            final(self)@.blocks == spec_update_price(
                old(self)@.blocks,
                price,
                quantity,
                message_number,
            ),
            old(self).wf() ==> final(self).wf(),
    {
        let ghost orig = self@.blocks;
        let ghost orig_id = self@.id;
        let n = self.order_book.len();
        let mut i: usize = 0;
        while i < n
            invariant
                n == self.order_book@.len(),
                self@.id == orig_id,
                i <= n,
                forall|j: int|
                    0 <= j < i ==> self@.blocks[j] == block_with_update(
                        orig[j],
                        price,
                        quantity,
                        message_number,
                    ),
                forall|j: int| i <= j < n ==> self@.blocks[j] == orig[j],
            decreases n - i,
        {
            let ghost pre = self@.blocks;
            let buys = rows_with_update(&self.order_book[i].buy_rows, price, quantity, message_number);
            let sells = rows_with_update(&self.order_book[i].sell_rows, price, quantity, message_number);
            let block = &mut self.order_book[i];
            block.buy_rows = buys;
            block.sell_rows = sells;
            proof {
                assert forall|j: int| 0 <= j < n && j != i implies self@.blocks[j] == pre[j] by {
                    assert(self@.blocks[j] == self.order_book@[j]@);
                }
                assert(self@.blocks[i as int] == self.order_book@[i as int]@);
                assert(self@.blocks[i as int] == block_with_update(
                    orig[i as int],
                    price,
                    quantity,
                    message_number,
                ));
                assert forall|j: int|
                    0 <= j < i + 1 implies self@.blocks[j] == block_with_update(
                    orig[j],
                    price,
                    quantity,
                    message_number,
                ) by {
                    if j != i {
                        assert(self@.blocks[j] == pre[j]);
                    }
                }
                assert forall|j: int| i + 1 <= j < n implies self@.blocks[j] == orig[j] by {
                    assert(self@.blocks[j] == pre[j]);
                }
            }
            i += 1;
        }
        proof {
            assert(self@.blocks =~= spec_update_price(orig, price, quantity, message_number));
        }
    }
}

/// Latest best-bid/ask/last-trade snapshot for one instrument. A later
/// partial update overwrites only the fields present in the incoming message.
pub struct QuoteData {
    pub ticker: Option<String>,
    pub ask_price: Option<i64>,
    pub bid_price: Option<i64>,
    pub last_trade: Option<i64>,
    pub last_trade_time: Option<String>,
}

/// Mathematical value of a `QuoteData`.
pub ghost struct QuoteView {
    pub ticker: Option<Seq<char>>,
    pub ask_price: Option<i64>,
    pub bid_price: Option<i64>,
    pub last_trade: Option<i64>,
    pub last_trade_time: Option<Seq<char>>,
}

impl View for QuoteData {
    type V = QuoteView;

    open spec fn view(&self) -> QuoteView {
        QuoteView {
            ticker: self.ticker.deep_view(),
            ask_price: self.ask_price,
            bid_price: self.bid_price,
            last_trade: self.last_trade,
            last_trade_time: self.last_trade_time.deep_view(),
        }
    }
}

/// Per-account quote book: the latest snapshot per instrument.
pub struct QuoteBook {
    pub id: String,
    pub quotes_list: Vec<QuoteData>,
}

/// Mathematical value of a `QuoteBook`.
pub ghost struct QuoteBookView {
    pub id: Seq<char>,
    pub quotes: Seq<QuoteView>,
}

impl View for QuoteBook {
    type V = QuoteBookView;

    open spec fn view(&self) -> QuoteBookView {
        QuoteBookView { id: self.id@, quotes: self.quotes_list@.map_values(|q: QuoteData| q@) }
    }
}

/// The sparse merge of an incoming quote into the record it matches: fields
/// present in the message overwrite, absent fields retain their prior value.
pub open spec fn merge_quote(existing: QuoteView, incoming: QuoteView) -> QuoteView {
    QuoteView {
        ticker: existing.ticker,
        ask_price: if incoming.ask_price is Some {
            incoming.ask_price
        } else {
            existing.ask_price
        },
        bid_price: if incoming.bid_price is Some {
            incoming.bid_price
        } else {
            existing.bid_price
        },
        last_trade: if incoming.last_trade is Some {
            incoming.last_trade
        } else {
            existing.last_trade
        },
        last_trade_time: if incoming.last_trade_time is Some {
            incoming.last_trade_time
        } else {
            existing.last_trade_time
        },
    }
}

/// Whether some record of `quotes` carries the same ticker as `t`.
pub open spec fn has_quote_ticker(quotes: Seq<QuoteView>, t: Option<Seq<char>>) -> bool {
    exists|i: int| 0 <= i < quotes.len() && quotes[i].ticker == t
}

/// A quote book's records after an incoming quote: a sparse merge into the
/// record with the same ticker, or a new record if the ticker is unseen.
pub open spec fn spec_add_quote(quotes: Seq<QuoteView>, incoming: QuoteView) -> Seq<QuoteView> {
    if has_quote_ticker(quotes, incoming.ticker) {
        quotes.map_values(
            |q: QuoteView|
                if q.ticker == incoming.ticker {
                    merge_quote(q, incoming)
                } else {
                    q
                },
        )
    } else {
        quotes.push(incoming)
    }
}

/// Whether two optional tickers denote the same instrument.
fn opt_string_eq(a: &Option<String>, b: &Option<String>) -> (r: bool)
    ensures
        r == (a.deep_view() == b.deep_view()),
{
    match (a, b) {
        (Some(x), Some(y)) => *x == *y,
        (None, None) => true,
        _ => false,
    }
}

/// Index of the quote record with the same ticker as `key`, if one exists.
fn find_quote(quotes: &Vec<QuoteData>, key: &Option<String>) -> (r: Option<usize>)
    ensures
        match r {
            Some(i) => i < quotes@.len() && quotes@[i as int]@.ticker == key.deep_view(),
            None => forall|j: int| 0 <= j < quotes@.len() ==> quotes@[j]@.ticker != key.deep_view(),
        },
{
    let mut i: usize = 0;
    while i < quotes.len()
        invariant
            i <= quotes@.len(),
            forall|j: int| 0 <= j < i ==> quotes@[j]@.ticker != key.deep_view(),
        decreases quotes@.len() - i,
    {
        if opt_string_eq(&quotes[i].ticker, key) {
            return Some(i);
        }
        i += 1;
    }
    None
}

impl QuoteBook {
    /// Distinct tickers: an incoming quote merges into at most one record.
    pub open spec fn wf(self) -> bool {
        forall|i: int, j: int|
            0 <= i < j < self@.quotes.len() ==> self@.quotes[i].ticker != self@.quotes[j].ticker
    }

    pub fn new(id: &str) -> (r: QuoteBook)
        ensures
            r@.id == id@,
            r@.quotes.len() == 0,
            r.wf(),
    {
        QuoteBook { id: id.to_owned(), quotes_list: Vec::new() }
    }

    /// Applies an incoming quote: sparse merge keyed by ticker, creating a new
    /// record if the ticker is unseen.
    pub fn add_quote(&mut self, quote_data: QuoteData)
        requires
            old(self).wf(),
        ensures
            final(self)@.id == old(self)@.id,
            final(self)@.quotes == spec_add_quote(old(self)@.quotes, quote_data@),
            final(self).wf(),
    {
        let ghost orig = self@.quotes;
        let ghost incoming = quote_data@;
        match find_quote(&self.quotes_list, &quote_data.ticker) {
            Some(i) => {
                proof {
                    assert(orig[i as int] == self.quotes_list@[i as int]@);
                    assert(has_quote_ticker(orig, incoming.ticker));
                    assert forall|j: int|
                        0 <= j < orig.len() && j != i implies orig[j].ticker != incoming.ticker by {
                        if j < i {
                            assert(orig[j].ticker != orig[i as int].ticker);
                        } else {
                            assert(orig[i as int].ticker != orig[j].ticker);
                        }
                    }
                }
                let QuoteData { ticker: _, ask_price, bid_price, last_trade, last_trade_time } =
                    quote_data;
                let record = &mut self.quotes_list[i];
                match ask_price {
                    Some(v) => record.ask_price = Some(v),
                    None => {},
                }
                match bid_price {
                    Some(v) => record.bid_price = Some(v),
                    None => {},
                }
                match last_trade {
                    Some(v) => record.last_trade = Some(v),
                    None => {},
                }
                match last_trade_time {
                    Some(v) => record.last_trade_time = Some(v),
                    None => {},
                }
                proof {
                    assert(self@.quotes[i as int] == self.quotes_list@[i as int]@);
                    assert(self@.quotes[i as int] == merge_quote(orig[i as int], incoming));
                    assert forall|j: int|
                        0 <= j < orig.len() && j != i implies self@.quotes[j] == orig[j] by {
                        assert(self@.quotes[j] == self.quotes_list@[j]@);
                    }
                    assert(self@.quotes =~= spec_add_quote(orig, incoming));
                }
            },
            None => {
                proof {
                    assert(!has_quote_ticker(orig, incoming.ticker));
                }
                self.quotes_list.push(quote_data);
                proof {
                    assert(self@.quotes =~= spec_add_quote(orig, incoming));
                }
            },
        }
    }
}

/// One open position, mutated by the portfolio reconciler and the stop-loss
/// engine. `position_id` 0 marks a synthetic price tick, a nonzero id a real
/// broker position.
#[derive(Debug, Clone)]
pub struct Position {
    pub position_id: i64,
    pub ticker: String,
    pub quantity: i32,
    pub open_price: i64,
    pub current_price: i64,
    pub pnl: i64,
    pub sl_strategy: SLStrategy,
    pub sl_type: SLType,
    pub sl_price: i64,
    pub close_alert: bool,
    pub closing: bool,
}

/// Mathematical value of a `Position`.
pub ghost struct PositionView {
    pub position_id: i64,
    pub ticker: Seq<char>,
    pub quantity: i32,
    pub open_price: i64,
    pub current_price: i64,
    pub pnl: i64,
    pub sl_strategy: SLStrategy,
    pub sl_type: SLType,
    pub sl_price: i64,
    pub close_alert: bool,
    pub closing: bool,
}

impl View for Position {
    type V = PositionView;

    open spec fn view(&self) -> PositionView {
        PositionView {
            position_id: self.position_id,
            ticker: self.ticker@,
            quantity: self.quantity,
            open_price: self.open_price,
            current_price: self.current_price,
            pnl: self.pnl,
            sl_strategy: self.sl_strategy,
            sl_type: self.sl_type,
            sl_price: self.sl_price,
            close_alert: self.close_alert,
            closing: self.closing,
        }
    }
}

impl DeepView for Position {
    type V = PositionView;

    open spec fn deep_view(&self) -> PositionView {
        self@
    }
}

impl PositionView {
    /// Machine bounds under which every stop-loss and PnL computation stays
    /// inside `i64`.
    pub open spec fn wf(self) -> bool {
        &&& 0 <= self.open_price <= PRICE_MAX
        &&& 0 <= self.current_price <= PRICE_MAX
        &&& -PNL_ABS_MAX <= self.pnl <= PNL_ABS_MAX
        &&& -PNL_ABS_MAX <= self.sl_price <= PNL_ABS_MAX
    }
}

/// Per-account list of open positions, keyed logically by ticker.
pub struct Portfolio {
    pub id: String,
    pub portfolio: Vec<Position>,
}

/// Mathematical value of a `Portfolio`.
pub ghost struct PortfolioView {
    pub id: Seq<char>,
    pub positions: Seq<PositionView>,
}

impl View for Portfolio {
    type V = PortfolioView;

    open spec fn view(&self) -> PortfolioView {
        PortfolioView { id: self.id@, positions: self.portfolio.deep_view() }
    }
}

impl Portfolio {
    /// Positions are keyed by ticker, hold a nonzero quantity, and stay inside
    /// the machine bounds of the stop-loss arithmetic.
    pub open spec fn wf(self) -> bool {
        &&& forall|i: int, j: int|
            0 <= i < j < self@.positions.len() ==> self@.positions[i].ticker
                != self@.positions[j].ticker
        &&& forall|i: int|
            0 <= i < self@.positions.len() ==> (#[trigger] self@.positions[i]).quantity != 0
                && self@.positions[i].wf()
    }

    pub fn new(id: &str) -> (r: Portfolio)
        ensures
            r@.id == id@,
            r@.positions.len() == 0,
            r.wf(),
    {
        Portfolio { id: id.to_owned(), portfolio: Vec::new() }
    }
}

} // verus!
