//! The reconcilers that sit between decoded market data and the stores: the
//! order-book/quote-book stage that also derives synthetic price ticks, the
//! portfolio stage that keeps positions and their stop-loss state current,
//! and the subscription planner that watches portfolio deltas.
use vstd::prelude::*;

use crate::market_data::{
    InsertView, MarketData, OrderBookMessage, OrderBookMessageView, PortfolioMessage,
    PositionEntryView, QuoteMessage, QuoteMessageView,
};
use crate::processed_data::{
    spec_add_quote, spec_add_row, spec_remove_price, spec_update_price, BlockView,
    BookView, OrderBook, OrderBookRow, Portfolio, PortfolioView, Position, PositionView,
    QuoteBook, QuoteBookView, QuoteData, QuoteView, Side,
};
use crate::trading_utils::{check_sl, spec_tick, SLStrategy, SLType};
use crate::PRICE_MAX;

verus! {

/// A handler interested in the fact that an account's portfolio changed.
pub trait PortfolioUpdaterSubscriber {
    fn on_data(&mut self, id: &str);
}

/// Marker for the stage that prints raw server messages to the console; the
/// printing itself lives with the application shell.
pub struct ConsoleOutputSubscriber;

/// The stage that appends raw server messages to a log file; the writing
/// itself lives with the application shell.
pub struct MessagesToFileSubscriber {
    pub file_path: String,
}

impl MessagesToFileSubscriber {
    pub fn new(file_path: String) -> (r: MessagesToFileSubscriber)
        ensures
            r.file_path@ == file_path@,
    {
        MessagesToFileSubscriber { file_path }
    }
}

/// What one price-tick delta does to each position: a matching ticker takes
/// the new current price, a recomputed PnL and a refreshed stop state; any
/// other position is untouched.
pub open spec fn tick_map_fn(d: PositionView) -> spec_fn(PositionView) -> PositionView {
    |p: PositionView|
        if p.ticker == d.ticker {
            spec_tick(p, d.current_price)
        } else {
            p
        }
}

/// What one snapshot delta does to each position: a matching ticker is
/// re-based on the snapshot's open price and quantity; any other position is
/// untouched.
pub open spec fn rebase_map_fn(d: PositionView) -> spec_fn(PositionView) -> PositionView {
    |p: PositionView|
        if p.ticker == d.ticker {
            PositionView { open_price: d.open_price, quantity: d.quantity, ..p }
        } else {
            p
        }
}

/// Keeps the positions whose ticker differs from `t`.
pub open spec fn ticker_ne_pred(t: Seq<char>) -> spec_fn(PositionView) -> bool {
    |p: PositionView| p.ticker != t
}

/// Whether some position of `ps` carries `ticker`.
pub open spec fn has_position(ps: Seq<PositionView>, ticker: Seq<char>) -> bool {
    exists|i: int| 0 <= i < ps.len() && ps[i].ticker == ticker
}

/// A snapshot delta as it enters the portfolio: a fresh position starts at
/// the bottom of the stop ladder with no close signal pending.
pub open spec fn normalized_new(d: PositionView) -> PositionView {
    PositionView { sl_type: SLType::NoStop, close_alert: false, closing: false, ..d }
}

/// One position delta applied to an account's positions.
/// A price tick (id 0) refreshes the matching position and is a no-op when
/// none matches; a zero-quantity snapshot delta removes the ticker's
/// position; a nonzero-quantity one re-bases the existing position, or
/// enters a new one at the bottom of the stop ladder.
pub open spec fn spec_apply_delta(ps: Seq<PositionView>, d: PositionView) -> Seq<PositionView> {
    if d.position_id == 0 {
        ps.map_values(tick_map_fn(d))
    } else if d.quantity == 0 {
        ps.filter(ticker_ne_pred(d.ticker))
    } else if has_position(ps, d.ticker) {
        ps.map_values(rebase_map_fn(d))
    } else {
        ps.push(normalized_new(d))
    }
}

/// A whole batch of position deltas applied in order, oldest first.
pub open spec fn spec_apply_deltas(ps: Seq<PositionView>, ds: Seq<PositionView>) -> Seq<
    PositionView,
>
    decreases ds.len(),
{
    if ds.len() == 0 {
        ps
    } else {
        spec_apply_delta(spec_apply_deltas(ps, ds.drop_last()), ds.last())
    }
}

/// Filtering positions keeps their tickers pairwise distinct.
proof fn lemma_filter_keeps_distinct(ps: Seq<PositionView>, pred: spec_fn(PositionView) -> bool)
    requires
        forall|i: int, j: int| 0 <= i < j < ps.len() ==> ps[i].ticker != ps[j].ticker,
    ensures
        forall|i: int, j: int|
            0 <= i < j < ps.filter(pred).len() ==> ps.filter(pred)[i].ticker != ps.filter(
                pred,
            )[j].ticker,
    decreases ps.len(),
{
    broadcast use vstd::seq_lib::group_seq_lib_default;

    if ps.len() > 0 {
        let prefix = ps.drop_last();
        let x = ps.last();
        lemma_filter_keeps_distinct(prefix, pred);
        prefix.lemma_filter_push(x, pred);
        assert(prefix.push(x) =~= ps);
        if pred(x) {
            assert forall|i: int|
                0 <= i < prefix.filter(pred).len() implies prefix.filter(pred)[i].ticker
                != x.ticker by {
                let e = prefix.filter(pred)[i];
                assert(prefix.filter(pred).contains(e));
                prefix.lemma_filter_contains_rev(pred, e);
                let j = choose|j: int| 0 <= j < prefix.len() && prefix[j] == e;
                assert(ps[j].ticker != ps[ps.len() - 1].ticker);
            }
            assert(ps.filter(pred) == prefix.filter(pred).push(x));
        } else {
            assert(ps.filter(pred) == prefix.filter(pred));
        }
    }
}

/// Index of the position carrying `key`, if one exists.
fn find_position(positions: &Vec<Position>, key: &String) -> (r: Option<usize>)
    ensures
        match r {
            Some(i) => i < positions@.len() && positions.deep_view()[i as int].ticker == key@,
            None => forall|j: int|
                0 <= j < positions@.len() ==> positions.deep_view()[j].ticker != key@,
        },
{
    let mut i: usize = 0;
    while i < positions.len()
        invariant
            i <= positions@.len(),
            forall|j: int| 0 <= j < i ==> positions.deep_view()[j].ticker != key@,
        decreases positions@.len() - i,
    {
        if positions[i].ticker == *key {
            return Some(i);
        }
        i += 1;
    }
    None
}

/// A field-for-field copy of a position.
fn copy_position(p: &Position) -> (r: Position)
    ensures
        r@ == p@,
{
    Position {
        position_id: p.position_id,
        ticker: p.ticker.clone(),
        quantity: p.quantity,
        open_price: p.open_price,
        current_price: p.current_price,
        pnl: p.pnl,
        sl_strategy: p.sl_strategy,
        sl_type: p.sl_type,
        sl_price: p.sl_price,
        close_alert: p.close_alert,
        closing: p.closing,
    }
}

/// Copies of the positions of `positions` whose ticker differs from `key`,
/// in order.
fn positions_without_ticker(positions: &Vec<Position>, key: &String) -> (r: Vec<Position>)
    ensures
        r.deep_view() == positions.deep_view().filter(ticker_ne_pred(key@)),
{
    let mut out: Vec<Position> = Vec::new();
    let mut i: usize = 0;
    while i < positions.len()
        invariant
            i <= positions@.len(),
            out.deep_view() == positions.deep_view().take(i as int).filter(ticker_ne_pred(key@)),
        decreases positions@.len() - i,
    {
        let p = &positions[i];
        if !(p.ticker == *key) {
            let copied = copy_position(p);
            out.push(copied);
        }
        proof {
            let dv = positions.deep_view();
            assert(dv.take(i + 1) =~= dv.take(i as int).push(dv[i as int]));
            dv.take(i as int).lemma_filter_push(dv[i as int], ticker_ne_pred(key@));
            assert(out.deep_view() =~= dv.take(i + 1).filter(ticker_ne_pred(key@)));
        }
        i += 1;
    }
    proof {
        let dv = positions.deep_view();
        assert(dv.take(dv.len() as int) =~= dv);
    }
    out
}

impl Portfolio {
    /// Applies one position delta, as `spec_apply_delta` states.
    pub fn apply_delta(&mut self, delta: &Position)
        requires
            old(self).wf(),
            delta@.wf(),
        ensures
            final(self)@.id == old(self)@.id,
            final(self)@.positions == spec_apply_delta(old(self)@.positions, delta@),
            final(self).wf(),
    {
        let ghost orig = self@.positions;
        if delta.position_id == 0 {
            match find_position(&self.portfolio, &delta.ticker) {
                Some(i) => {
                    proof {
                        assert forall|j: int|
                            0 <= j < orig.len() && j != i implies orig[j].ticker
                            != delta@.ticker by {
                            if j < i {
                                assert(orig[j].ticker != orig[i as int].ticker);
                            } else {
                                assert(orig[i as int].ticker != orig[j].ticker);
                            }
                        }
                        crate::trading_utils::lemma_tick_step(orig[i as int], delta@.current_price);
                    }
                    let current = delta.current_price;
                    let p = &mut self.portfolio[i];
                    p.current_price = current;
                    p.pnl = (current - p.open_price) * (p.quantity as i64);
                    let r = check_sl(p);
                    p.sl_type = r.0;
                    p.sl_price = r.1;
                    p.close_alert = r.2;
                    proof {
                        assert(self@.positions[i as int] == self.portfolio.deep_view()[i as int]);
                        assert(self@.positions[i as int] == spec_tick(
                            orig[i as int],
                            delta@.current_price,
                        ));
                        assert forall|j: int|
                            0 <= j < orig.len() && j != i implies self@.positions[j] == orig[j] by {
                            assert(self@.positions[j] == self.portfolio.deep_view()[j]);
                        }
                        assert(self@.positions =~= orig.map_values(tick_map_fn(delta@)));
                    }
                },
                None => {
                    proof {
                        assert(self@.positions =~= orig.map_values(tick_map_fn(delta@)));
                    }
                },
            }
        } else if delta.quantity == 0 {
            let filtered = positions_without_ticker(&self.portfolio, &delta.ticker);
            self.portfolio = filtered;
            proof {
                lemma_filter_keeps_distinct(orig, ticker_ne_pred(delta@.ticker));
                assert forall|i: int|
                    0 <= i < self@.positions.len() implies (#[trigger] self@.positions[i]).quantity
                    != 0 && self@.positions[i].wf() by {
                    orig.lemma_filter_pred(ticker_ne_pred(delta@.ticker), i);
                    let e = self@.positions[i];
                    assert(orig.filter(ticker_ne_pred(delta@.ticker)).contains(e));
                    orig.lemma_filter_contains_rev(ticker_ne_pred(delta@.ticker), e);
                    let j = choose|j: int| 0 <= j < orig.len() && orig[j] == e;
                    assert(orig[j].quantity != 0 && orig[j].wf());
                }
            }
        } else {
            match find_position(&self.portfolio, &delta.ticker) {
                Some(i) => {
                    proof {
                        assert(has_position(orig, delta@.ticker));
                        assert forall|j: int|
                            0 <= j < orig.len() && j != i implies orig[j].ticker
                            != delta@.ticker by {
                            if j < i {
                                assert(orig[j].ticker != orig[i as int].ticker);
                            } else {
                                assert(orig[i as int].ticker != orig[j].ticker);
                            }
                        }
                    }
                    let open_price = delta.open_price;
                    let quantity = delta.quantity;
                    let p = &mut self.portfolio[i];
                    p.open_price = open_price;
                    p.quantity = quantity;
                    proof {
                        assert(self@.positions[i as int] == self.portfolio.deep_view()[i as int]);
                        assert(self@.positions[i as int] == rebase_map_fn(delta@)(orig[i as int]));
                        assert forall|j: int|
                            0 <= j < orig.len() && j != i implies self@.positions[j] == orig[j] by {
                            assert(self@.positions[j] == self.portfolio.deep_view()[j]);
                        }
                        assert(self@.positions =~= orig.map_values(rebase_map_fn(delta@)));
                    }
                },
                None => {
                    proof {
                        assert(!has_position(orig, delta@.ticker));
                    }
                    let mut entering = copy_position(delta);
                    entering.sl_type = SLType::NoStop;
                    entering.close_alert = false;
                    entering.closing = false;
                    self.portfolio.push(entering);
                    proof {
                        assert(self@.positions =~= orig.push(normalized_new(delta@)));
                    }
                },
            }
        }
    }

    /// Applies a batch of position deltas in order, as the portfolio
    /// reconciler receives them from the market-data stage.
    pub fn apply_deltas(&mut self, deltas: &Vec<Position>)
        requires
            old(self).wf(),
            forall|k: int| 0 <= k < deltas@.len() ==> (#[trigger] deltas.deep_view()[k]).wf(),
        ensures
            final(self)@.id == old(self)@.id,
            final(self)@.positions == spec_apply_deltas(old(self)@.positions, deltas.deep_view()),
            final(self).wf(),
    {
        let ghost orig = self@.positions;
        let ghost dv = deltas.deep_view();
        let mut k: usize = 0;
        while k < deltas.len()
            invariant
                k <= deltas@.len(),
                dv == deltas.deep_view(),
                dv.len() == deltas@.len(),
                self@.id == old(self)@.id,
                self@.positions == spec_apply_deltas(orig, dv.take(k as int)),
                self.wf(),
                forall|j: int| 0 <= j < dv.len() ==> (#[trigger] dv[j]).wf(),
            decreases deltas@.len() - k,
        {
            proof {
                assert(deltas@[k as int]@ == dv[k as int]);
            }
            self.apply_delta(&deltas[k]);
            proof {
                assert(dv.take(k + 1).drop_last() =~= dv.take(k as int));
                assert(dv.take(k + 1).last() == dv[k as int]);
            }
            k += 1;
        }
        proof {
            assert(dv.take(dv.len() as int) =~= dv);
        }
    }
}

/// Keeps the watched symbols that differ from `t`.
pub open spec fn str_ne_pred(t: Seq<char>) -> spec_fn(Seq<char>) -> bool {
    |s: Seq<char>| s != t
}

/// One position delta applied to the subscription plan `(watched, newly)`:
/// a closed position's ticker leaves the watched list (local bookkeeping
/// only), an open position's ticker joins both lists when not yet watched,
/// and price ticks and already-watched tickers change nothing.
pub open spec fn spec_plan_step(
    acc: (Seq<Seq<char>>, Seq<Seq<char>>),
    d: PositionView,
) -> (Seq<Seq<char>>, Seq<Seq<char>>) {
    if d.position_id != 0 {
        if d.quantity == 0 {
            (acc.0.filter(str_ne_pred(d.ticker)), acc.1)
        } else if !acc.0.contains(d.ticker) {
            (acc.0.push(d.ticker), acc.1.push(d.ticker))
        } else {
            acc
        }
    } else {
        acc
    }
}

/// The watched list and the newly-watched batch after a whole delta batch.
pub open spec fn spec_plan(watched: Seq<Seq<char>>, ds: Seq<PositionView>) -> (
    Seq<Seq<char>>,
    Seq<Seq<char>>,
)
    decreases ds.len(),
{
    if ds.len() == 0 {
        (watched, Seq::<Seq<char>>::empty())
    } else {
        spec_plan_step(spec_plan(watched, ds.drop_last()), ds.last())
    }
}

/// Whether `key` is already among the watched symbols.
fn contains_ticker(tickers: &Vec<String>, key: &String) -> (r: bool)
    ensures
        r == tickers.deep_view().contains(key@),
{
    let mut i: usize = 0;
    while i < tickers.len()
        invariant
            i <= tickers@.len(),
            forall|j: int| 0 <= j < i ==> tickers.deep_view()[j] != key@,
        decreases tickers@.len() - i,
    {
        if tickers[i] == *key {
            proof {
                assert(tickers.deep_view()[i as int] == key@);
            }
            return true;
        }
        i += 1;
    }
    false
}

/// What a symbol list's mathematical value holds at each index.
proof fn lemma_string_vec_deep_view(v: &Vec<String>)
    ensures
        v.deep_view().len() == v@.len(),
        forall|j: int| 0 <= j < v@.len() ==> v.deep_view()[j] == v@[j]@,
{
}

/// A copy of the watched-symbol list.
fn copy_tickers(tickers: &Vec<String>) -> (r: Vec<String>)
    ensures
        r.deep_view() == tickers.deep_view(),
{
    let mut out: Vec<String> = Vec::new();
    let mut i: usize = 0;
    while i < tickers.len()
        invariant
            i <= tickers@.len(),
            out@.len() == i,
            forall|j: int| 0 <= j < i ==> out@[j]@ == tickers@[j]@,
        decreases tickers@.len() - i,
    {
        let t = &tickers[i];
        out.push(t.clone());
        i += 1;
    }
    proof {
        lemma_string_vec_deep_view(&out);
        lemma_string_vec_deep_view(tickers);
        assert(out.deep_view() =~= tickers.deep_view());
    }
    out
}

/// Copies of the watched symbols that differ from `key`, in order.
fn tickers_without(tickers: &Vec<String>, key: &String) -> (r: Vec<String>)
    ensures
        r.deep_view() == tickers.deep_view().filter(str_ne_pred(key@)),
{
    let mut out: Vec<String> = Vec::new();
    let mut i: usize = 0;
    while i < tickers.len()
        invariant
            i <= tickers@.len(),
            out.deep_view() == tickers.deep_view().take(i as int).filter(str_ne_pred(key@)),
        decreases tickers@.len() - i,
    {
        let t = &tickers[i];
        if !(*t == *key) {
            out.push(t.clone());
        }
        proof {
            let dv = tickers.deep_view();
            assert(dv.take(i + 1) =~= dv.take(i as int).push(dv[i as int]));
            dv.take(i as int).lemma_filter_push(dv[i as int], str_ne_pred(key@));
            assert(out.deep_view() =~= dv.take(i + 1).filter(str_ne_pred(key@)));
        }
        i += 1;
    }
    proof {
        let dv = tickers.deep_view();
        assert(dv.take(dv.len() as int) =~= dv);
    }
    out
}

/// The subscription manager's decision on one delta batch: the updated
/// watched list and the batch of newly watched tickers, as `spec_plan`
/// states. Outbound requests are owed exactly when the second list is
/// non-empty.
pub fn plan_subscriptions(watched: &Vec<String>, deltas: &Vec<Position>) -> (r: (
    Vec<String>,
    Vec<String>,
))
    ensures
        r.0.deep_view() == spec_plan(watched.deep_view(), deltas.deep_view()).0,
        r.1.deep_view() == spec_plan(watched.deep_view(), deltas.deep_view()).1,
{
    let ghost dv = deltas.deep_view();
    let mut tickers = copy_tickers(watched);
    let mut new_tickers: Vec<String> = Vec::new();
    let mut k: usize = 0;
    while k < deltas.len()
        invariant
            k <= deltas@.len(),
            dv == deltas.deep_view(),
            dv.len() == deltas@.len(),
            tickers.deep_view() == spec_plan(watched.deep_view(), dv.take(k as int)).0,
            new_tickers.deep_view() == spec_plan(watched.deep_view(), dv.take(k as int)).1,
        decreases deltas@.len() - k,
    {
        let d = &deltas[k];
        proof {
            assert(deltas@[k as int]@ == dv[k as int]);
        }
        if d.position_id != 0 {
            if d.quantity == 0 {
                let remaining = tickers_without(&tickers, &d.ticker);
                tickers = remaining;
            } else if !contains_ticker(&tickers, &d.ticker) {
                tickers.push(d.ticker.clone());
                new_tickers.push(d.ticker.clone());
                proof {
                    assert(tickers.deep_view() =~= spec_plan(
                        watched.deep_view(),
                        dv.take(k as int),
                    ).0.push(dv[k as int].ticker));
                    assert(new_tickers.deep_view() =~= spec_plan(
                        watched.deep_view(),
                        dv.take(k as int),
                    ).1.push(dv[k as int].ticker));
                }
            }
        }
        proof {
            assert(dv.take(k + 1).drop_last() =~= dv.take(k as int));
            assert(dv.take(k + 1).last() == dv[k as int]);
        }
        k += 1;
    }
    proof {
        assert(dv.take(dv.len() as int) =~= dv);
    }
    (tickers, new_tickers)
}

/// Subscription no-duplication, one step: a delta whose ticker is already
/// watched leaves the watched list as it is and queues no subscribe request.
pub proof fn lemma_watched_ticker_emits_nothing(watched: Seq<Seq<char>>, d: PositionView)
    requires
        d.position_id != 0,
        d.quantity != 0,
        watched.contains(d.ticker),
    ensures
        spec_plan(watched, seq![d]).0 == watched,
        spec_plan(watched, seq![d]).1 == Seq::<Seq<char>>::empty(),
{
    lemma_plan_singleton(watched, d);
}

/// `spec_plan` on a one-delta batch is one `spec_plan_step`.
proof fn lemma_plan_singleton(watched: Seq<Seq<char>>, d: PositionView)
    ensures
        spec_plan(watched, seq![d]) == spec_plan_step(
            (watched, Seq::<Seq<char>>::empty()),
            d,
        ),
{
    let ds = seq![d];
    assert(ds.len() == 1);
    assert(ds.drop_last() =~= Seq::<PositionView>::empty());
    assert(ds.last() == d);
    assert(spec_plan(watched, Seq::<PositionView>::empty()) == (
        watched,
        Seq::<Seq<char>>::empty(),
    ));
}

/// The subscription manager's whole reaction to one delta batch: the updated
/// watched list and, exactly when the batch newly tracks some ticker, the
/// serialized quotes-subscribe and order-book-subscribe requests against the
/// full updated list.
pub fn subscription_requests(watched: &Vec<String>, deltas: &Vec<Position>) -> (r: (
    Vec<String>,
    Option<(String, String)>,
))
    ensures
        r.0.deep_view() == spec_plan(watched.deep_view(), deltas.deep_view()).0,
        match r.1 {
            Some(msgs) => spec_plan(watched.deep_view(), deltas.deep_view()).1.len() > 0
                && msgs.0@ == crate::api_utils::spec_message(
                "quotes"@,
                Some(spec_plan(watched.deep_view(), deltas.deep_view()).0),
            ) && msgs.1@ == crate::api_utils::spec_message(
                "orderBook"@,
                Some(spec_plan(watched.deep_view(), deltas.deep_view()).0),
            ),
            None => spec_plan(watched.deep_view(), deltas.deep_view()).1.len() == 0,
        },
{
    let (tickers, new_tickers) = plan_subscriptions(watched, deltas);
    if new_tickers.is_empty() {
        (tickers, None)
    } else {
        let quotes_request = crate::api_utils::Request::quotes(copy_tickers(&tickers));
        let quotes_message = quotes_request.message();
        let order_book_request = crate::api_utils::Request::order_book(copy_tickers(&tickers));
        let order_book_message = order_book_request.message();
        (tickers, Some((quotes_message, order_book_message)))
    }
}

/// Subscription no-duplication: applying the same open-position delta twice
/// never queues a second subscribe request — after the first application its
/// ticker is watched, so the second finds nothing new.
pub proof fn lemma_no_second_subscribe(watched: Seq<Seq<char>>, d: PositionView)
    requires
        d.position_id != 0,
        d.quantity != 0,
    ensures
        spec_plan(spec_plan(watched, seq![d]).0, seq![d]).1 == Seq::<Seq<char>>::empty(),
{
    let once = spec_plan(watched, seq![d]).0;
    lemma_plan_singleton(watched, d);
    lemma_plan_singleton(once, d);
    if watched.contains(d.ticker) {
        assert(once == watched);
    } else {
        assert(once == watched.push(d.ticker));
        assert(once[once.len() - 1] == d.ticker);
        assert(once.contains(d.ticker));
    }
}

/// A plan step of a delta that closes nothing keeps every watched symbol.
proof fn lemma_plan_step_keeps_watched(
    acc: (Seq<Seq<char>>, Seq<Seq<char>>),
    d: PositionView,
    t: Seq<char>,
)
    requires
        d.position_id != 0 ==> d.quantity != 0,
        acc.0.contains(t),
    ensures
        spec_plan_step(acc, d).0.contains(t),
{
    if d.position_id != 0 && d.quantity != 0 && !acc.0.contains(d.ticker) {
        let i = choose|i: int| 0 <= i < acc.0.len() && acc.0[i] == t;
        assert(acc.0.push(d.ticker)[i] == t);
    }
}

/// After a batch that closes no position, every open-position ticker the
/// batch carries stands in the watched list.
proof fn lemma_plan_covers_batch(watched: Seq<Seq<char>>, ds: Seq<PositionView>, k: int)
    requires
        forall|j: int|
            0 <= j < ds.len() && (#[trigger] ds[j]).position_id != 0 ==> ds[j].quantity != 0,
        0 <= k < ds.len(),
        ds[k].position_id != 0,
    ensures
        spec_plan(watched, ds).0.contains(ds[k].ticker),
    decreases ds.len(),
{
    let prefix = ds.drop_last();
    let d = ds.last();
    let acc = spec_plan(watched, prefix);
    if k == ds.len() - 1 {
        if !acc.0.contains(d.ticker) {
            assert(acc.0.push(d.ticker)[acc.0.len() as int] == d.ticker);
            assert(spec_plan_step(acc, d).0.contains(d.ticker));
        }
    } else {
        assert forall|j: int|
            0 <= j < prefix.len() && (#[trigger] prefix[j]).position_id != 0 implies prefix[j].quantity
            != 0 by {
            assert(prefix[j] == ds[j]);
        }
        assert(prefix[k] == ds[k]);
        lemma_plan_covers_batch(watched, prefix, k);
        lemma_plan_step_keeps_watched(acc, d, ds[k].ticker);
    }
}

/// A batch that closes no position and whose open-position tickers are all
/// watched already changes the watched list not at all and queues nothing.
proof fn lemma_plan_all_watched(watched: Seq<Seq<char>>, ds: Seq<PositionView>)
    requires
        forall|j: int|
            0 <= j < ds.len() && (#[trigger] ds[j]).position_id != 0 ==> ds[j].quantity != 0
                && watched.contains(ds[j].ticker),
    ensures
        spec_plan(watched, ds).0 == watched,
        spec_plan(watched, ds).1 == Seq::<Seq<char>>::empty(),
    decreases ds.len(),
{
    if ds.len() > 0 {
        let prefix = ds.drop_last();
        assert forall|j: int|
            0 <= j < prefix.len() && (#[trigger] prefix[j]).position_id != 0 implies prefix[j].quantity
            != 0 && watched.contains(prefix[j].ticker) by {
            assert(prefix[j] == ds[j]);
        }
        lemma_plan_all_watched(watched, prefix);
        assert(ds.last() == ds[ds.len() - 1]);
    }
}

/// Subscription no-duplication over a whole batch: a batch that closes no
/// position, applied twice, queues no request the second time — after the
/// first application every ticker it opens is watched. The exclusion is
/// owed: a batch that removes a ticker and then re-opens it must subscribe
/// again, so only removal-free batches are covered; the per-delta law above
/// carries the general single-delta case.
pub proof fn lemma_no_second_subscribe_batch(watched: Seq<Seq<char>>, ds: Seq<PositionView>)
    requires
        forall|j: int|
            0 <= j < ds.len() && (#[trigger] ds[j]).position_id != 0 ==> ds[j].quantity != 0,
    ensures
        spec_plan(spec_plan(watched, ds).0, ds).1 == Seq::<Seq<char>>::empty(),
{
    let w1 = spec_plan(watched, ds).0;
    assert forall|j: int|
        0 <= j < ds.len() && (#[trigger] ds[j]).position_id != 0 implies ds[j].quantity != 0
            && w1.contains(ds[j].ticker) by {
        lemma_plan_covers_batch(watched, ds, j);
    }
    lemma_plan_all_watched(w1, ds);
}

/// PnL correctness: a price-tick delta leaves every position it reconciles
/// with `pnl == (current_price - open_price) * quantity`.
pub proof fn lemma_pnl_after_tick(ps: Seq<PositionView>, d: PositionView)
    requires
        forall|i: int|
            0 <= i < ps.len() ==> (#[trigger] ps[i]).wf() && ps[i].quantity != 0,
        d.position_id == 0,
        0 <= d.current_price <= PRICE_MAX,
    ensures
        forall|i: int|
            0 <= i < spec_apply_delta(ps, d).len() && (#[trigger] spec_apply_delta(ps, d)[i]).ticker
                == d.ticker ==> spec_apply_delta(ps, d)[i].pnl == (spec_apply_delta(
                ps,
                d,
            )[i].current_price - spec_apply_delta(ps, d)[i].open_price) * spec_apply_delta(
                ps,
                d,
            )[i].quantity,
{
    let out = spec_apply_delta(ps, d);
    assert forall|i: int|
        0 <= i < out.len() && (#[trigger] out[i]).ticker == d.ticker implies out[i].pnl == (
    out[i].current_price - out[i].open_price) * out[i].quantity by {
        if ps[i].ticker == d.ticker {
            crate::trading_utils::lemma_tick_step(ps[i], d.current_price);
        }
    }
}

/// Whether an insert entry carries the Buy sign.
pub open spec fn buy_pred() -> spec_fn(InsertView) -> bool {
    |e: InsertView| e.s == "B"@
}

/// The synthetic price-tick position delta a Buy-side insert produces:
/// only the instrument and the inserted price carry information.
pub open spec fn tick_of(ticker: Seq<char>, price: i64) -> PositionView {
    PositionView {
        position_id: 0,
        ticker,
        quantity: 0,
        open_price: 0,
        current_price: price,
        pnl: 0,
        sl_strategy: SLStrategy::WithoutStops,
        sl_type: SLType::NoStop,
        sl_price: 0,
        close_alert: false,
        closing: false,
    }
}

/// `tick_of` as a mapping over Buy-side inserts of one instrument.
pub open spec fn tick_of_fn(ticker: Seq<char>) -> spec_fn(InsertView) -> PositionView {
    |e: InsertView| tick_of(ticker, e.p)
}

/// The price-tick deltas one order-book message forwards to the portfolio
/// reconciler: one per Buy-side insert, in message order.
pub open spec fn spec_price_ticks(m: OrderBookMessageView) -> Seq<PositionView> {
    m.ins.filter(buy_pred()).map_values(tick_of_fn(m.i))
}

/// The ladder row an insert entry with `side` becomes under sequence number
/// `n`.
pub open spec fn row_of(e: InsertView, side: Side, n: i32) -> OrderBookRow {
    OrderBookRow { price: e.p, side, quantity: e.q, position: e.k, message_number: n }
}

/// An account's blocks after the insert entries of one message, oldest
/// first: `B` joins the buy side, `S` the sell side, any other sign is
/// discarded.
pub open spec fn spec_apply_inserts(
    blocks: Seq<BlockView>,
    ticker: Seq<char>,
    ins: Seq<InsertView>,
    n: i32,
) -> Seq<BlockView>
    decreases ins.len(),
{
    if ins.len() == 0 {
        blocks
    } else {
        let prev = spec_apply_inserts(blocks, ticker, ins.drop_last(), n);
        let e = ins.last();
        if e.s == "B"@ {
            spec_add_row(prev, ticker, row_of(e, Side::Buy, n))
        } else if e.s == "S"@ {
            spec_add_row(prev, ticker, row_of(e, Side::Sell, n))
        } else {
            prev
        }
    }
}

/// An account's blocks after the delete entries of one message.
pub open spec fn spec_apply_deletes(
    blocks: Seq<BlockView>,
    del: Seq<crate::market_data::DeleteEntry>,
) -> Seq<BlockView>
    decreases del.len(),
{
    if del.len() == 0 {
        blocks
    } else {
        spec_remove_price(spec_apply_deletes(blocks, del.drop_last()), del.last().p)
    }
}

/// An account's blocks after the update entries of one message.
pub open spec fn spec_apply_updates(
    blocks: Seq<BlockView>,
    upd: Seq<crate::market_data::UpdateView>,
    n: i32,
) -> Seq<BlockView>
    decreases upd.len(),
{
    if upd.len() == 0 {
        blocks
    } else {
        let prev = spec_apply_updates(blocks, upd.drop_last(), n);
        let e = upd.last();
        spec_update_price(prev, e.p, e.q, n)
    }
}

/// An account's blocks after a whole order-book delta message: its inserts,
/// then its deletes, then its updates.
pub open spec fn spec_book_after_message(blocks: Seq<BlockView>, m: OrderBookMessageView) -> Seq<
    BlockView,
> {
    spec_apply_updates(spec_apply_deletes(spec_apply_inserts(blocks, m.i, m.ins, m.n), m.del), m.upd, m.n)
}

/// What a position list's mathematical value holds at each index.
proof fn lemma_position_vec_deep_view(v: &Vec<Position>)
    ensures
        v.deep_view().len() == v@.len(),
        forall|j: int| 0 <= j < v@.len() ==> v.deep_view()[j] == v@[j]@,
{
}

impl OrderBook {
    /// Applies one order-book delta message to this account's book and
    /// returns the synthetic price-tick deltas its Buy-side inserts produce.
    pub fn apply_message(&mut self, msg: &OrderBookMessage) -> (ticks: Vec<Position>)
        requires
            old(self).wf(),
        ensures
            final(self)@.id == old(self)@.id,
            final(self)@.blocks == spec_book_after_message(old(self)@.blocks, msg@),
            final(self).wf(),
            ticks.deep_view() == spec_price_ticks(msg@),
    {
        let ghost orig = self@.blocks;
        let ghost m = msg@;
        let mut ticks: Vec<Position> = Vec::new();
        let buy_key: String = "B".to_owned();
        let sell_key: String = "S".to_owned();

        let mut i: usize = 0;
        while i < msg.ins.len()
            invariant
                i <= msg.ins@.len(),
                m == msg@,
                m.ins.len() == msg.ins@.len(),
                self@.id == old(self)@.id,
                self@.blocks == spec_apply_inserts(orig, m.i, m.ins.take(i as int), m.n),
                self.wf(),
                ticks.deep_view() == m.ins.take(i as int).filter(buy_pred()).map_values(
                    tick_of_fn(m.i),
                ),
                buy_key@ == "B"@,
                sell_key@ == "S"@,
            decreases msg.ins@.len() - i,
        {
            let ghost pre_ticks = ticks.deep_view();
            let e = &msg.ins[i];
            proof {
                reveal_strlit("B");
                reveal_strlit("S");
                assert(m.ins[i as int] == msg.ins@[i as int]@);
                assert(m.ins.take(i + 1) =~= m.ins.take(i as int).push(m.ins[i as int]));
                assert(m.ins.take(i + 1).drop_last() =~= m.ins.take(i as int));
                assert(m.ins.take(i + 1).last() == m.ins[i as int]);
                m.ins.take(i as int).lemma_filter_push(m.ins[i as int], buy_pred());
            }
            if e.s == buy_key {
                let row = OrderBookRow {
                    price: e.p,
                    side: Side::Buy,
                    quantity: e.q,
                    position: e.k,
                    message_number: msg.n,
                };
                self.add_row(msg.i.as_str(), row);
                let tick = Position {
                    position_id: 0,
                    ticker: msg.i.clone(),
                    quantity: 0,
                    open_price: 0,
                    current_price: e.p,
                    pnl: 0,
                    sl_strategy: SLStrategy::WithoutStops,
                    sl_type: SLType::NoStop,
                    sl_price: 0,
                    close_alert: false,
                    closing: false,
                };
                ticks.push(tick);
                proof {
                    lemma_position_vec_deep_view(&ticks);
                    assert(ticks.deep_view() =~= pre_ticks.push(tick_of(m.i, m.ins[i as int].p)));
                    m.ins.take(i as int).filter(buy_pred()).lemma_push_map_commute(
                        tick_of_fn(m.i),
                        m.ins[i as int],
                    );
                    assert(buy_pred()(m.ins[i as int]));
                    assert(m.ins.take(i + 1).filter(buy_pred()) == m.ins.take(i as int).filter(
                        buy_pred(),
                    ).push(m.ins[i as int]));
                    assert(tick_of_fn(m.i)(m.ins[i as int]) == tick_of(m.i, m.ins[i as int].p));
                    assert(ticks.deep_view() == m.ins.take(i + 1).filter(buy_pred()).map_values(
                        tick_of_fn(m.i),
                    ));
                }
            } else if e.s == sell_key {
                let row = OrderBookRow {
                    price: e.p,
                    side: Side::Sell,
                    quantity: e.q,
                    position: e.k,
                    message_number: msg.n,
                };
                self.add_row(msg.i.as_str(), row);
            }
            i += 1;
        }
        proof {
            assert(m.ins.take(m.ins.len() as int) =~= m.ins);
        }

        let mut j: usize = 0;
        while j < msg.del.len()
            invariant
                j <= msg.del@.len(),
                m == msg@,
                m.del.len() == msg.del@.len(),
                self@.id == old(self)@.id,
                self@.blocks == spec_apply_deletes(
                    spec_apply_inserts(orig, m.i, m.ins, m.n),
                    m.del.take(j as int),
                ),
                self.wf(),
            decreases msg.del@.len() - j,
        {
            let p = msg.del[j].p;
            proof {
                assert(m.del.take(j + 1).drop_last() =~= m.del.take(j as int));
                assert(m.del.take(j + 1).last() == m.del[j as int]);
            }
            self.remove_row(p);
            j += 1;
        }
        proof {
            assert(m.del.take(m.del.len() as int) =~= m.del);
        }

        let mut k: usize = 0;
        while k < msg.upd.len()
            invariant
                k <= msg.upd@.len(),
                m == msg@,
                m.upd.len() == msg.upd@.len(),
                self@.id == old(self)@.id,
                self@.blocks == spec_apply_updates(
                    spec_apply_deletes(spec_apply_inserts(orig, m.i, m.ins, m.n), m.del),
                    m.upd.take(k as int),
                    m.n,
                ),
                self.wf(),
            decreases msg.upd@.len() - k,
        {
            let e = &msg.upd[k];
            proof {
                assert(m.upd[k as int] == msg.upd@[k as int]@);
                assert(m.upd.take(k + 1).drop_last() =~= m.upd.take(k as int));
                assert(m.upd.take(k + 1).last() == m.upd[k as int]);
            }
            self.update_row(e.p, e.q, msg.n);
            k += 1;
        }
        proof {
            assert(m.upd.take(m.upd.len() as int) =~= m.upd);
        }
        ticks
    }
}

/// The quote record one quote message carries: its relevant sparse fields.
pub open spec fn quote_of(m: QuoteMessageView) -> QuoteView {
    QuoteView {
        ticker: m.c,
        ask_price: m.bap,
        bid_price: m.bbp,
        last_trade: m.ltp,
        last_trade_time: m.ltt,
    }
}

/// The store record a quote message becomes.
fn quote_data_of(msg: &QuoteMessage) -> (r: QuoteData)
    ensures
        r@ == quote_of(msg@),
{
    let ticker = match &msg.c {
        Some(s) => Some(s.clone()),
        None => None,
    };
    let last_trade_time = match &msg.ltt {
        Some(s) => Some(s.clone()),
        None => None,
    };
    QuoteData { ticker, ask_price: msg.bap, bid_price: msg.bbp, last_trade: msg.ltp, last_trade_time }
}

/// The position delta one portfolio-snapshot entry carries: a real broker
/// position id with the snapshot's quantity and open price.
pub open spec fn delta_of_entry(e: PositionEntryView) -> PositionView {
    PositionView {
        position_id: e.acc_pos_id,
        ticker: e.i,
        quantity: e.q,
        open_price: e.price_a,
        current_price: 0,
        pnl: 0,
        sl_strategy: SLStrategy::WithoutStops,
        sl_type: SLType::NoStop,
        sl_price: 0,
        close_alert: false,
        closing: false,
    }
}

/// `delta_of_entry` as a mapping over a snapshot's entries.
pub open spec fn delta_of_entry_fn() -> spec_fn(PositionEntryView) -> PositionView {
    |e: PositionEntryView| delta_of_entry(e)
}

/// The position deltas a portfolio snapshot hands the portfolio reconciler,
/// one per entry, in snapshot order.
pub fn snapshot_deltas(msg: &PortfolioMessage) -> (r: Vec<Position>)
    ensures
        r.deep_view() == msg@.pos.map_values(delta_of_entry_fn()),
{
    let ghost m = msg@;
    let mut out: Vec<Position> = Vec::new();
    let mut i: usize = 0;
    while i < msg.pos.len()
        invariant
            i <= msg.pos@.len(),
            m == msg@,
            m.pos.len() == msg.pos@.len(),
            out.deep_view() == m.pos.take(i as int).map_values(delta_of_entry_fn()),
        decreases msg.pos@.len() - i,
    {
        let ghost pre = out.deep_view();
        let e = &msg.pos[i];
        let delta = Position {
            position_id: e.acc_pos_id,
            ticker: e.i.clone(),
            quantity: e.q,
            open_price: e.price_a,
            current_price: 0,
            pnl: 0,
            sl_strategy: SLStrategy::WithoutStops,
            sl_type: SLType::NoStop,
            sl_price: 0,
            close_alert: false,
            closing: false,
        };
        out.push(delta);
        proof {
            lemma_position_vec_deep_view(&out);
            assert(m.pos[i as int] == msg.pos@[i as int]@);
            assert(m.pos.take(i + 1).drop_last() =~= m.pos.take(i as int));
            assert(m.pos.take(i + 1).last() == m.pos[i as int]);
            m.pos.take(i as int).lemma_push_map_commute(delta_of_entry_fn(), m.pos[i as int]);
            assert(out.deep_view() =~= pre.push(delta_of_entry(m.pos[i as int])));
        }
        i += 1;
    }
    proof {
        assert(m.pos.take(m.pos.len() as int) =~= m.pos);
    }
    out
}

/// The order books of a whole account set, as mathematical values.
pub open spec fn books_view(bs: Seq<OrderBook>) -> Seq<BookView> {
    bs.map_values(|b: OrderBook| b@)
}

/// The quote books of a whole account set, as mathematical values.
pub open spec fn quote_books_view(bs: Seq<QuoteBook>) -> Seq<QuoteBookView> {
    bs.map_values(|b: QuoteBook| b@)
}

/// The portfolios of a whole account set, as mathematical values.
pub open spec fn portfolios_view(ps: Seq<Portfolio>) -> Seq<PortfolioView> {
    ps.map_values(|p: Portfolio| p@)
}

/// Whether some order book belongs to account `id`.
pub open spec fn has_book(books: Seq<BookView>, id: Seq<char>) -> bool {
    exists|i: int| 0 <= i < books.len() && books[i].id == id
}

/// Whether some quote book belongs to account `id`.
pub open spec fn has_quote_book(books: Seq<QuoteBookView>, id: Seq<char>) -> bool {
    exists|i: int| 0 <= i < books.len() && books[i].id == id
}

/// Whether some portfolio belongs to account `id`.
pub open spec fn has_portfolio(ps: Seq<PortfolioView>, id: Seq<char>) -> bool {
    exists|i: int| 0 <= i < ps.len() && ps[i].id == id
}

/// What one order-book message does to the book of account `id`.
pub open spec fn book_apply_fn(id: Seq<char>, m: OrderBookMessageView) -> spec_fn(BookView) -> BookView {
    |b: BookView|
        if b.id == id {
            BookView { id: b.id, blocks: spec_book_after_message(b.blocks, m) }
        } else {
            b
        }
}

/// The account set's order books after one message for account `id`: the
/// account's book is reconciled, and created first when the account is new.
pub open spec fn spec_books_apply(
    books: Seq<BookView>,
    id: Seq<char>,
    m: OrderBookMessageView,
) -> Seq<BookView> {
    if has_book(books, id) {
        books.map_values(book_apply_fn(id, m))
    } else {
        books.push(BookView { id, blocks: spec_book_after_message(Seq::<BlockView>::empty(), m) })
    }
}

/// What one quote does to the quote book of account `id`.
pub open spec fn quote_book_apply_fn(id: Seq<char>, q: QuoteView) -> spec_fn(QuoteBookView) -> QuoteBookView {
    |b: QuoteBookView|
        if b.id == id {
            QuoteBookView { id: b.id, quotes: spec_add_quote(b.quotes, q) }
        } else {
            b
        }
}

/// The account set's quote books after one quote for account `id`.
pub open spec fn spec_quote_books_apply(
    books: Seq<QuoteBookView>,
    id: Seq<char>,
    q: QuoteView,
) -> Seq<QuoteBookView> {
    if has_quote_book(books, id) {
        books.map_values(quote_book_apply_fn(id, q))
    } else {
        books.push(
            QuoteBookView { id, quotes: spec_add_quote(Seq::<QuoteView>::empty(), q) },
        )
    }
}

/// What one delta batch does to the portfolio of account `id`.
pub open spec fn portfolio_apply_fn(id: Seq<char>, ds: Seq<PositionView>) -> spec_fn(PortfolioView) -> PortfolioView {
    |p: PortfolioView|
        if p.id == id {
            PortfolioView { id: p.id, positions: spec_apply_deltas(p.positions, ds) }
        } else {
            p
        }
}

/// The account set's portfolios after one delta batch for account `id`.
pub open spec fn spec_portfolios_apply(
    ps: Seq<PortfolioView>,
    id: Seq<char>,
    ds: Seq<PositionView>,
) -> Seq<PortfolioView> {
    if has_portfolio(ps, id) {
        ps.map_values(portfolio_apply_fn(id, ds))
    } else {
        ps.push(
            PortfolioView { id, positions: spec_apply_deltas(Seq::<PositionView>::empty(), ds) },
        )
    }
}

/// Index of account `key`'s order book, if one exists.
fn find_book(books: &Vec<OrderBook>, key: &String) -> (r: Option<usize>)
    ensures
        match r {
            Some(i) => i < books@.len() && books@[i as int]@.id == key@,
            None => forall|j: int| 0 <= j < books@.len() ==> books@[j]@.id != key@,
        },
{
    let mut i: usize = 0;
    while i < books.len()
        invariant
            i <= books@.len(),
            forall|j: int| 0 <= j < i ==> books@[j]@.id != key@,
        decreases books@.len() - i,
    {
        if books[i].id == *key {
            return Some(i);
        }
        i += 1;
    }
    None
}

/// Index of account `key`'s quote book, if one exists.
fn find_quote_book(books: &Vec<QuoteBook>, key: &String) -> (r: Option<usize>)
    ensures
        match r {
            Some(i) => i < books@.len() && books@[i as int]@.id == key@,
            None => forall|j: int| 0 <= j < books@.len() ==> books@[j]@.id != key@,
        },
{
    let mut i: usize = 0;
    while i < books.len()
        invariant
            i <= books@.len(),
            forall|j: int| 0 <= j < i ==> books@[j]@.id != key@,
        decreases books@.len() - i,
    {
        if books[i].id == *key {
            return Some(i);
        }
        i += 1;
    }
    None
}

/// Index of account `key`'s portfolio, if one exists.
fn find_portfolio(ps: &Vec<Portfolio>, key: &String) -> (r: Option<usize>)
    ensures
        match r {
            Some(i) => i < ps@.len() && ps@[i as int]@.id == key@,
            None => forall|j: int| 0 <= j < ps@.len() ==> ps@[j]@.id != key@,
        },
{
    let mut i: usize = 0;
    while i < ps.len()
        invariant
            i <= ps@.len(),
            forall|j: int| 0 <= j < i ==> ps@[j]@.id != key@,
        decreases ps@.len() - i,
    {
        if ps[i].id == *key {
            return Some(i);
        }
        i += 1;
    }
    None
}

/// The market-data stage: applies one decoded push-message to the stores of
/// account `id`, lazily creating them on the account's first message, and
/// returns the position deltas the message produces — synthetic price ticks
/// for Buy-side inserts, or one delta per portfolio-snapshot entry.
pub fn apply_market_data(
    order_books: &mut Vec<OrderBook>,
    quote_books: &mut Vec<QuoteBook>,
    id: &str,
    data: &MarketData,
) -> (deltas: Vec<Position>)
    requires
        forall|i: int| 0 <= i < old(order_books)@.len() ==> (#[trigger] old(order_books)@[i]).wf(),
        forall|i: int, j: int|
            0 <= i < j < old(order_books)@.len() ==> old(order_books)@[i]@.id != old(order_books)@[j]@.id,
        forall|i: int| 0 <= i < old(quote_books)@.len() ==> (#[trigger] old(quote_books)@[i]).wf(),
        forall|i: int, j: int|
            0 <= i < j < old(quote_books)@.len() ==> old(quote_books)@[i]@.id != old(quote_books)@[j]@.id,
    ensures
        forall|i: int| 0 <= i < final(order_books)@.len() ==> (#[trigger] final(order_books)@[i]).wf(),
        forall|i: int, j: int|
            0 <= i < j < final(order_books)@.len() ==> final(order_books)@[i]@.id != final(order_books)@[j]@.id,
        forall|i: int| 0 <= i < final(quote_books)@.len() ==> (#[trigger] final(quote_books)@[i]).wf(),
        forall|i: int, j: int|
            0 <= i < j < final(quote_books)@.len() ==> final(quote_books)@[i]@.id != final(quote_books)@[j]@.id,
        match data {
            MarketData::OrderBookMessage(m) => books_view(final(order_books)@)
                == spec_books_apply(books_view(old(order_books)@), id@, m@) && final(quote_books)@ == old(quote_books)@ && deltas.deep_view() == spec_price_ticks(m@),
            MarketData::QuoteMessage(m) => quote_books_view(final(quote_books)@)
                == spec_quote_books_apply(quote_books_view(old(quote_books)@), id@, quote_of(m@))
                && final(order_books)@ == old(order_books)@ && deltas.deep_view() == Seq::<
                PositionView,
            >::empty(),
            MarketData::PortfolioMessage(m) => deltas.deep_view() == m@.pos.map_values(
                delta_of_entry_fn(),
            ) && final(order_books)@ == old(order_books)@ && final(quote_books)@ == old(quote_books)@,
        },
{
    match data {
        MarketData::OrderBookMessage(msg) => {
            let ghost orig = books_view(order_books@);
            let key = id.to_owned();
            let idx = match find_book(order_books, &key) {
                Some(i) => {
                    proof {
                        assert(orig[i as int] == order_books@[i as int]@);
                        assert(has_book(orig, id@));
                    }
                    i
                },
                None => {
                    proof {
                        assert(!has_book(orig, id@));
                    }
                    let fresh = OrderBook::new(id);
                    order_books.push(fresh);
                    order_books.len() - 1
                },
            };
            proof {
                assert forall|j: int|
                    0 <= j < order_books@.len() && j != idx implies order_books@[j]@.id
                    != id@ by {
                    if has_book(orig, id@) {
                        if j < idx {
                            assert(order_books@[j]@.id != order_books@[idx as int]@.id);
                        } else {
                            assert(order_books@[idx as int]@.id != order_books@[j]@.id);
                        }
                    }
                }
            }
            let ghost mid = order_books@;
            let book = &mut order_books[idx];
            let ticks = book.apply_message(msg);
            proof {
                assert forall|j: int|
                    0 <= j < order_books@.len() && j != idx implies order_books@[j]
                    == mid[j] by {}
                assert(order_books@[idx as int]@.blocks == spec_book_after_message(
                    mid[idx as int]@.blocks,
                    msg@,
                ));
                if has_book(orig, id@) {
                    assert(books_view(order_books@) =~= orig.map_values(book_apply_fn(id@, msg@)));
                } else {
                    assert(mid[idx as int]@.blocks =~= Seq::<BlockView>::empty());
                    assert(books_view(order_books@) =~= orig.push(
                        BookView {
                            id: id@,
                            blocks: spec_book_after_message(Seq::<BlockView>::empty(), msg@),
                        },
                    ));
                }
            }
            ticks
        },
        MarketData::QuoteMessage(msg) => {
            let ghost orig = quote_books_view(quote_books@);
            let key = id.to_owned();
            let idx = match find_quote_book(quote_books, &key) {
                Some(i) => {
                    proof {
                        assert(orig[i as int] == quote_books@[i as int]@);
                        assert(has_quote_book(orig, id@));
                    }
                    i
                },
                None => {
                    proof {
                        assert(!has_quote_book(orig, id@));
                    }
                    let fresh = QuoteBook::new(id);
                    quote_books.push(fresh);
                    quote_books.len() - 1
                },
            };
            proof {
                assert forall|j: int|
                    0 <= j < quote_books@.len() && j != idx implies quote_books@[j]@.id
                    != id@ by {
                    if has_quote_book(orig, id@) {
                        if j < idx {
                            assert(quote_books@[j]@.id != quote_books@[idx as int]@.id);
                        } else {
                            assert(quote_books@[idx as int]@.id != quote_books@[j]@.id);
                        }
                    }
                }
            }
            let record = quote_data_of(msg);
            let ghost mid = quote_books@;
            let book = &mut quote_books[idx];
            book.add_quote(record);
            proof {
                assert forall|j: int|
                    0 <= j < quote_books@.len() && j != idx implies quote_books@[j]
                    == mid[j] by {}
                assert(quote_books@[idx as int]@.quotes == spec_add_quote(
                    mid[idx as int]@.quotes,
                    quote_of(msg@),
                ));
                if has_quote_book(orig, id@) {
                    assert(quote_books_view(quote_books@) =~= orig.map_values(
                        quote_book_apply_fn(id@, quote_of(msg@)),
                    ));
                } else {
                    assert(mid[idx as int]@.quotes =~= Seq::<QuoteView>::empty());
                    assert(quote_books_view(quote_books@) =~= orig.push(
                        QuoteBookView {
                            id: id@,
                            quotes: spec_add_quote(Seq::<QuoteView>::empty(), quote_of(msg@)),
                        },
                    ));
                }
            }
            let deltas: Vec<Position> = Vec::new();
            proof {
                assert(deltas.deep_view() =~= Seq::<PositionView>::empty());
            }
            deltas
        },
        MarketData::PortfolioMessage(msg) => snapshot_deltas(msg),
    }
}

/// The portfolio stage: applies one delta batch to account `id`'s portfolio,
/// creating it on the account's first batch.
pub fn update_portfolios(portfolios: &mut Vec<Portfolio>, id: &str, deltas: &Vec<Position>)
    requires
        forall|i: int| 0 <= i < old(portfolios)@.len() ==> (#[trigger] old(portfolios)@[i]).wf(),
        forall|i: int, j: int|
            0 <= i < j < old(portfolios)@.len() ==> old(portfolios)@[i]@.id != old(portfolios)@[j]@.id,
        forall|k: int| 0 <= k < deltas@.len() ==> (#[trigger] deltas.deep_view()[k]).wf(),
    ensures
        forall|i: int| 0 <= i < final(portfolios)@.len() ==> (#[trigger] final(portfolios)@[i]).wf(),
        forall|i: int, j: int|
            0 <= i < j < final(portfolios)@.len() ==> final(portfolios)@[i]@.id != final(portfolios)@[j]@.id,
        portfolios_view(final(portfolios)@) == spec_portfolios_apply(
            portfolios_view(old(portfolios)@),
            id@,
            deltas.deep_view(),
        ),
{
    let ghost orig = portfolios_view(portfolios@);
    let key = id.to_owned();
    let idx = match find_portfolio(portfolios, &key) {
        Some(i) => {
            proof {
                assert(orig[i as int] == portfolios@[i as int]@);
                assert(has_portfolio(orig, id@));
            }
            i
        },
        None => {
            proof {
                assert(!has_portfolio(orig, id@));
            }
            let fresh = Portfolio::new(id);
            portfolios.push(fresh);
            portfolios.len() - 1
        },
    };
    proof {
        assert forall|j: int|
            0 <= j < portfolios@.len() && j != idx implies portfolios@[j]@.id != id@ by {
            if has_portfolio(orig, id@) {
                if j < idx {
                    assert(portfolios@[j]@.id != portfolios@[idx as int]@.id);
                } else {
                    assert(portfolios@[idx as int]@.id != portfolios@[j]@.id);
                }
            }
        }
    }
    let ghost mid = portfolios@;
    let portfolio = &mut portfolios[idx];
    portfolio.apply_deltas(deltas);
    proof {
        assert forall|j: int|
            0 <= j < portfolios@.len() && j != idx implies portfolios@[j] == mid[j] by {}
        assert(portfolios@[idx as int]@.positions == spec_apply_deltas(
            mid[idx as int]@.positions,
            deltas.deep_view(),
        ));
        if has_portfolio(orig, id@) {
            assert(portfolios_view(portfolios@) =~= orig.map_values(
                portfolio_apply_fn(id@, deltas.deep_view()),
            ));
        } else {
            assert(mid[idx as int]@.positions =~= Seq::<PositionView>::empty());
            assert(portfolios_view(portfolios@) =~= orig.push(
                PortfolioView {
                    id: id@,
                    positions: spec_apply_deltas(Seq::<PositionView>::empty(), deltas.deep_view()),
                },
            ));
        }
    }
}

} // verus!
