//! Typed broker push-messages: a quote, an order-book delta, or a portfolio
//! snapshot. The transport layer turns raw wire frames into these values;
//! prices arrive as fixed-point integers in hundredths (cents).
use vstd::prelude::*;

verus! {

/// One decoded push-message.
pub enum MarketData {
    OrderBookMessage(OrderBookMessage),
    QuoteMessage(QuoteMessage),
    PortfolioMessage(PortfolioMessage),
}

/// A sparse quote: every field the wire may omit is optional.
pub struct QuoteMessage {
    /// Ticker.
    pub c: Option<String>,
    /// Best offer (ask), in cents.
    pub bap: Option<i64>,
    /// Best bid, in cents.
    pub bbp: Option<i64>,
    /// Last trade price, in cents.
    pub ltp: Option<i64>,
    /// Time of the last trade.
    pub ltt: Option<String>,
}

/// Mathematical value of a `QuoteMessage`.
pub ghost struct QuoteMessageView {
    pub c: Option<Seq<char>>,
    pub bap: Option<i64>,
    pub bbp: Option<i64>,
    pub ltp: Option<i64>,
    pub ltt: Option<Seq<char>>,
}

impl View for QuoteMessage {
    type V = QuoteMessageView;

    open spec fn view(&self) -> QuoteMessageView {
        QuoteMessageView {
            c: self.c.deep_view(),
            bap: self.bap,
            bbp: self.bbp,
            ltp: self.ltp,
            ltt: self.ltt.deep_view(),
        }
    }
}

/// A ladder row to delete, identified by price.
#[derive(Debug, Clone, Copy, PartialEq, Eq, Structural)]
pub struct DeleteEntry {
    /// Price of the rows to remove, in cents.
    pub p: i64,
    /// Slot number in the ladder.
    pub k: i32,
}

/// A new ladder row.
pub struct InsertEntry {
    /// Price of the row, in cents.
    pub p: i64,
    /// Buy-or-sell sign, `"B"` or `"S"`; any other sign is discarded.
    pub s: String,
    /// Quantity at the price level.
    pub q: i32,
    /// Slot number in the ladder.
    pub k: i32,
}

/// Mathematical value of an `InsertEntry`.
pub ghost struct InsertView {
    pub p: i64,
    pub s: Seq<char>,
    pub q: i32,
    pub k: i32,
}

impl View for InsertEntry {
    type V = InsertView;

    open spec fn view(&self) -> InsertView {
        InsertView { p: self.p, s: self.s@, q: self.q, k: self.k }
    }
}

/// A ladder row to update, identified by price.
pub struct UpdateEntry {
    /// Price of the rows to reconcile, in cents.
    pub p: i64,
    /// Buy-or-sell sign as the wire carried it; updates match by price alone.
    pub s: String,
    /// The quantity the matched rows take.
    pub q: i32,
    /// Slot number in the ladder.
    pub k: i32,
}

/// Mathematical value of an `UpdateEntry`.
pub ghost struct UpdateView {
    pub p: i64,
    pub s: Seq<char>,
    pub q: i32,
    pub k: i32,
}

impl View for UpdateEntry {
    type V = UpdateView;

    open spec fn view(&self) -> UpdateView {
        UpdateView { p: self.p, s: self.s@, q: self.q, k: self.k }
    }
}

/// An order-book delta for one instrument.
pub struct OrderBookMessage {
    /// Message sequence number.
    pub n: i32,
    /// Instrument the depth information belongs to.
    pub i: String,
    /// Rows to delete.
    pub del: Vec<DeleteEntry>,
    /// Rows to insert.
    pub ins: Vec<InsertEntry>,
    /// Rows to update.
    pub upd: Vec<UpdateEntry>,
}

/// Mathematical value of an `OrderBookMessage`.
pub ghost struct OrderBookMessageView {
    pub n: i32,
    pub i: Seq<char>,
    pub del: Seq<DeleteEntry>,
    pub ins: Seq<InsertView>,
    pub upd: Seq<UpdateView>,
}

impl View for OrderBookMessage {
    type V = OrderBookMessageView;

    open spec fn view(&self) -> OrderBookMessageView {
        OrderBookMessageView {
            n: self.n,
            i: self.i@,
            del: self.del@,
            ins: self.ins@.map_values(|e: InsertEntry| e@),
            upd: self.upd@.map_values(|e: UpdateEntry| e@),
        }
    }
}

/// One open position inside a portfolio snapshot.
pub struct PositionEntry {
    /// Ticker of the open position.
    pub i: String,
    /// Number of securities in the position.
    pub q: i32,
    /// Unique identifier of the open position at the broker.
    pub acc_pos_id: i64,
    /// Book value of the position when opened, in cents.
    pub price_a: i64,
}

/// Mathematical value of a `PositionEntry`.
pub ghost struct PositionEntryView {
    pub i: Seq<char>,
    pub q: i32,
    pub acc_pos_id: i64,
    pub price_a: i64,
}

impl View for PositionEntry {
    type V = PositionEntryView;

    open spec fn view(&self) -> PositionEntryView {
        PositionEntryView { i: self.i@, q: self.q, acc_pos_id: self.acc_pos_id, price_a: self.price_a }
    }
}

/// A portfolio snapshot: the account's open positions.
pub struct PortfolioMessage {
    pub pos: Vec<PositionEntry>,
}

/// Mathematical value of a `PortfolioMessage`.
pub ghost struct PortfolioMessageView {
    pub pos: Seq<PositionEntryView>,
}

impl View for PortfolioMessage {
    type V = PortfolioMessageView;

    open spec fn view(&self) -> PortfolioMessageView {
        PortfolioMessageView { pos: self.pos@.map_values(|e: PositionEntry| e@) }
    }
}

/// What kind of event a raw frame's envelope announces: the frame is a JSON
/// array `[type_tag, body]`, and the leading tag decides the schema the body
/// is parsed against.
#[derive(Debug, Clone, Copy, PartialEq, Eq, Structural)]
pub enum MessageTag {
    Quote,
    OrderBookDelta,
    PortfolioSnapshot,
    Unknown,
}

/// Whether a byte is JSON whitespace.
pub open spec fn is_json_ws(b: u8) -> bool {
    b == 32 || b == 9 || b == 10 || b == 13
}

/// The first position at or after `i` holding a non-whitespace byte;
/// the frame's length when only whitespace remains.
pub open spec fn first_non_ws(s: Seq<u8>, i: int) -> int
    recommends
        0 <= i <= s.len(),
    decreases s.len() - i,
{
    if i >= s.len() || !is_json_ws(s[i]) {
        i
    } else {
        first_non_ws(s, i + 1)
    }
}

/// The first position at or after `i` that closes a simple JSON string:
/// a quote or a backslash; the frame's length when neither occurs.
pub open spec fn string_end(s: Seq<u8>, i: int) -> int
    recommends
        0 <= i <= s.len(),
    decreases s.len() - i,
{
    if i >= s.len() || s[i] == 34 || s[i] == 92 {
        i
    } else {
        string_end(s, i + 1)
    }
}

/// The event kind a plain tag announces: `q` a quote, `b` an order-book
/// delta, `portfolio` a portfolio snapshot, anything else no event.
pub open spec fn tag_kind(t: Seq<u8>) -> MessageTag {
    if t == seq![113u8] {
        MessageTag::Quote
    } else if t == seq![98u8] {
        MessageTag::OrderBookDelta
    } else if t == seq![112u8, 111u8, 114u8, 116u8, 102u8, 111u8, 108u8, 105u8, 111u8] {
        MessageTag::PortfolioSnapshot
    } else {
        MessageTag::Unknown
    }
}

/// The tag a raw frame's envelope carries: after optional whitespace, an
/// opening bracket and a double-quoted tag without escapes. A frame of any
/// other shape announces no event.
pub open spec fn spec_envelope_tag(s: Seq<u8>) -> MessageTag {
    let i = first_non_ws(s, 0);
    if i < s.len() && s[i] == 91 {
        let j = first_non_ws(s, i + 1);
        if j < s.len() && s[j] == 34 {
            let k = string_end(s, j + 1);
            if k < s.len() && s[k] == 34 {
                tag_kind(s.subrange(j + 1, k))
            } else {
                MessageTag::Unknown
            }
        } else {
            MessageTag::Unknown
        }
    } else {
        MessageTag::Unknown
    }
}

/// Position of the first non-whitespace byte at or after `start`.
fn scan_non_ws(frame: &[u8], start: usize) -> (r: usize)
    requires
        start <= frame@.len(),
    ensures
        r == first_non_ws(frame@, start as int),
        start <= r <= frame@.len(),
{
    let n = frame.len();
    let mut i = start;
    while i < n && (frame[i] == 32 || frame[i] == 9 || frame[i] == 10 || frame[i] == 13)
        invariant
            start <= i <= n,
            n == frame@.len(),
            first_non_ws(frame@, start as int) == first_non_ws(frame@, i as int),
        decreases n - i,
    {
        i += 1;
    }
    i
}

/// Position of the first quote or backslash at or after `start`.
fn scan_string_end(frame: &[u8], start: usize) -> (r: usize)
    requires
        start <= frame@.len(),
    ensures
        r == string_end(frame@, start as int),
        start <= r <= frame@.len(),
{
    let n = frame.len();
    let mut i = start;
    while i < n && frame[i] != 34 && frame[i] != 92
        invariant
            start <= i <= n,
            n == frame@.len(),
            string_end(frame@, start as int) == string_end(frame@, i as int),
        decreases n - i,
    {
        i += 1;
    }
    i
}

/// Classifies a raw frame by its envelope tag, as `spec_envelope_tag`
/// states: the upstream decoder parses the body against the schema this
/// announces, and drops the frame on `Unknown`.
pub fn envelope_tag(frame: &[u8]) -> (r: MessageTag)
    ensures
        r == spec_envelope_tag(frame@),
{
    let n = frame.len();
    let i = scan_non_ws(frame, 0);
    if !(i < n && frame[i] == 91) {
        return MessageTag::Unknown;
    }
    let j = scan_non_ws(frame, i + 1);
    if !(j < n && frame[j] == 34) {
        return MessageTag::Unknown;
    }
    let k = scan_string_end(frame, j + 1);
    if !(k < n && frame[k] == 34) {
        return MessageTag::Unknown;
    }
    let ghost tag = frame@.subrange(j + 1, k as int);
    let tag_len = k - (j + 1);
    if tag_len == 1 && frame[j + 1] == 113 {
        proof {
            assert(tag =~= seq![113u8]);
        }
        MessageTag::Quote
    } else if tag_len == 1 && frame[j + 1] == 98 {
        proof {
            assert(tag =~= seq![98u8]);
        }
        MessageTag::OrderBookDelta
    } else if tag_len == 9 && frame[j + 1] == 112 && frame[j + 2] == 111 && frame[j + 3] == 114
        && frame[j + 4] == 116 && frame[j + 5] == 102 && frame[j + 6] == 111 && frame[j + 7]
        == 108 && frame[j + 8] == 105 && frame[j + 9] == 111 {
        proof {
            assert(tag =~= seq![112u8, 111u8, 114u8, 116u8, 102u8, 111u8, 108u8, 105u8, 111u8]);
        }
        MessageTag::PortfolioSnapshot
    } else {
        proof {
            if tag_len == 1 {
                assert(tag.len() == 1);
                assert(tag[0] == frame@[j + 1]);
                assert(tag != seq![113u8] && tag != seq![98u8]);
                assert(tag.len() != 9);
            } else if tag_len == 9 {
                assert(tag != seq![112u8, 111u8, 114u8, 116u8, 102u8, 111u8, 108u8, 105u8, 111u8])
                    by {
                    let lit = seq![112u8, 111u8, 114u8, 116u8, 102u8, 111u8, 108u8, 105u8, 111u8];
                    if tag == lit {
                        assert(tag[0] == frame@[j + 1]);
                        assert(tag[1] == frame@[j + 2]);
                        assert(tag[2] == frame@[j + 3]);
                        assert(tag[3] == frame@[j + 4]);
                        assert(tag[4] == frame@[j + 5]);
                        assert(tag[5] == frame@[j + 6]);
                        assert(tag[6] == frame@[j + 7]);
                        assert(tag[7] == frame@[j + 8]);
                        assert(tag[8] == frame@[j + 9]);
                    }
                }
            }
        }
        MessageTag::Unknown
    }
}

} // verus!
