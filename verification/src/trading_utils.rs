//! The stop-loss risk engine: a per-position state machine that derives a
//! protective stop price and a close signal from live price updates, together
//! with a manual one-step promotion. Prices are in cents, and the formulas'
//! fractional constants become whole cent counts.
use vstd::prelude::*;
use vstd::string::{StrSliceExecFns, StringExecFns};

use crate::processed_data::{Position, PositionView, Side};
use crate::{PNL_ABS_MAX, PRICE_MAX};

verus! {

/// Width of the initial protective margin under the open price, and of the
/// ratchet step while limiting losses: a tenth of a currency unit.
pub const SL_MARGIN: i64 = 10;

/// Gain, over the open price, that promotes a loss limiter to break-even:
/// eleven hundredths of a currency unit.
pub const BREAK_EVEN_TRIGGER: i64 = 11;

/// Cushion over the open price once a position runs at break-even: two
/// hundredths of a currency unit.
pub const BREAK_EVEN_OFFSET: i64 = 2;

/// Gain, over the open price, that promotes break-even to a trailing stop:
/// two tenths of a currency unit.
pub const TRAILING_TRIGGER: i64 = 20;

/// The option tickers derived for one watched base asset: a protective put
/// for the short side and a call for the long side.
#[derive(Debug, Clone)]
pub struct TickerOptions {
    pub ticker: String,
    pub short_option: String,
    pub long_option: String,
}

impl TickerOptions {
    pub fn new(ticker: String) -> (r: TickerOptions)
        ensures
            r.ticker@ == ticker@,
            r.short_option@.len() == 0,
            r.long_option@.len() == 0,
    {
        proof {
            reveal_strlit("");
        }
        TickerOptions { ticker, short_option: "".to_owned(), long_option: "".to_owned() }
    }
}

/// The decimal digit `d` as a character.
pub open spec fn digit_char(d: int) -> char {
    if d == 0 {
        '0'
    } else if d == 1 {
        '1'
    } else if d == 2 {
        '2'
    } else if d == 3 {
        '3'
    } else if d == 4 {
        '4'
    } else if d == 5 {
        '5'
    } else if d == 6 {
        '6'
    } else if d == 7 {
        '7'
    } else if d == 8 {
        '8'
    } else {
        '9'
    }
}

/// The decimal digits of `n`, most significant first; empty for zero.
pub open spec fn dec_digits(n: int) -> Seq<char>
    decreases n,
{
    if n <= 0 {
        seq![]
    } else {
        dec_digits(n / 10).push(digit_char(n % 10))
    }
}

/// `n` printed in decimal, without a sign.
pub open spec fn dec_str(n: int) -> Seq<char> {
    if n == 0 {
        seq!['0']
    } else {
        dec_digits(n)
    }
}

/// A day of the month, zero-padded to two digits.
pub open spec fn pad2(d: int) -> Seq<char> {
    if d < 10 {
        seq!['0'] + dec_str(d)
    } else {
        dec_str(d)
    }
}

/// A year, zero-padded to four digits.
pub open spec fn pad4(y: int) -> Seq<char> {
    if y < 10 {
        seq!['0', '0', '0'] + dec_str(y)
    } else if y < 100 {
        seq!['0', '0'] + dec_str(y)
    } else if y < 1000 {
        seq!['0'] + dec_str(y)
    } else {
        dec_str(y)
    }
}

/// The upper-case three-letter abbreviation of month `m`.
pub open spec fn month_str(m: int) -> Seq<char> {
    if m == 1 {
        "JAN"@
    } else if m == 2 {
        "FEB"@
    } else if m == 3 {
        "MAR"@
    } else if m == 4 {
        "APR"@
    } else if m == 5 {
        "MAY"@
    } else if m == 6 {
        "JUN"@
    } else if m == 7 {
        "JUL"@
    } else if m == 8 {
        "AUG"@
    } else if m == 9 {
        "SEP"@
    } else if m == 10 {
        "OCT"@
    } else if m == 11 {
        "NOV"@
    } else {
        "DEC"@
    }
}

/// Appends the decimal digits of a positive `n` to `out`.
fn push_dec_digits(out: &mut String, n: u64)
    ensures
        final(out)@ == old(out)@ + dec_digits(n as int),
    decreases n,
{
    if n == 0 {
        proof {
            assert(old(out)@ + dec_digits(0) =~= old(out)@);
        }
    } else {
        push_dec_digits(out, n / 10);
        let d = n % 10;
        let s = if d == 0 {
            "0"
        } else if d == 1 {
            "1"
        } else if d == 2 {
            "2"
        } else if d == 3 {
            "3"
        } else if d == 4 {
            "4"
        } else if d == 5 {
            "5"
        } else if d == 6 {
            "6"
        } else if d == 7 {
            "7"
        } else if d == 8 {
            "8"
        } else {
            "9"
        };
        proof {
            reveal_strlit("0");
            reveal_strlit("1");
            reveal_strlit("2");
            reveal_strlit("3");
            reveal_strlit("4");
            reveal_strlit("5");
            reveal_strlit("6");
            reveal_strlit("7");
            reveal_strlit("8");
            reveal_strlit("9");
            assert(s@ =~= seq![digit_char(n as int % 10)]);
        }
        out.append(s);
        proof {
            assert(out@ =~= old(out)@ + dec_digits(n as int));
        }
    }
}

/// Appends `n` in decimal to `out`.
fn push_dec_str(out: &mut String, n: u64)
    ensures
        final(out)@ == old(out)@ + dec_str(n as int),
{
    if n == 0 {
        out.append("0");
        proof {
            reveal_strlit("0");
            assert(out@ =~= old(out)@ + dec_str(0));
        }
    } else {
        push_dec_digits(out, n);
    }
}

/// What chrono computes from a day count: the proleptic Gregorian civil date
/// `(year, month, day_of_month, weekday)` of the day so many days after the
/// common era began, the weekday counted from Monday as zero.
pub uninterp spec fn civil_of_day(day: int) -> (int, int, int, int);

/// Relies on chrono's `NaiveDate::from_num_days_from_ce_opt` and its
/// accessors: the civil date of a day count is a function of the count alone;
/// months run 1 to 12, days of the month 1 to 31, weekdays 0 to 6, the first
/// day of the common era falls in year 1, and every count between 1 and
/// 3,700,000 names a representable date.
#[verifier::external_body]
fn civil_date_of(day: i64) -> (r: Option<(i32, u32, u32, u32)>)
    ensures
        match r {
            Some(ymdw) => {
                &&& (ymdw.0 as int, ymdw.1 as int, ymdw.2 as int, ymdw.3 as int) == civil_of_day(
                    day as int,
                )
                &&& 1 <= ymdw.1 <= 12
                &&& 1 <= ymdw.2 <= 31
                &&& ymdw.3 <= 6
                &&& (day >= 1 ==> ymdw.0 >= 1)
            },
            None => true,
        },
        1 <= day <= 3_700_000 ==> r is Some,
{
    let d32 = i32::try_from(day).ok()?;
    let d = chrono::NaiveDate::from_num_days_from_ce_opt(d32)?;
    Some((
        chrono::Datelike::year(&d),
        chrono::Datelike::month(&d),
        chrono::Datelike::day(&d),
        chrono::Weekday::num_days_from_monday(&chrono::Datelike::weekday(&d)),
    ))
}

/// Relies on chrono's `Local::now` and `num_days_from_ce`: the day count of
/// the current local calendar date, which chrono keeps within half a million
/// years of the common era. chrono aborts on a system clock that reads
/// before the Unix epoch — an environmental condition no caller can exclude.
#[verifier::external_body]
fn local_epoch_day() -> (r: i64)
    ensures
        -96_000_000 <= r <= 96_000_000,
{
    chrono::Datelike::num_days_from_ce(&chrono::Local::now().date_naive()) as i64
}

/// The option ticker derived for `base` (the watched ticker without its
/// exchange suffix): `+BASE.DDMMMYYYY.Kstrike` with `K` the option kind.
pub open spec fn spec_option_ticker(
    base: Seq<char>,
    year: int,
    month: int,
    day: int,
    kind: char,
    strike: int,
) -> Seq<char> {
    seq!['+'] + base + seq!['.'] + pad2(day) + month_str(month) + pad4(year) + seq!['.'] + seq![
        kind,
    ] + dec_str(strike)
}

/// `spec_option_ticker` taken at the civil date of day count `ed`.
pub open spec fn spec_option_ticker_on(
    base: Seq<char>,
    ed: int,
    kind: char,
    strike: int,
) -> Seq<char> {
    let ymdw = civil_of_day(ed);
    spec_option_ticker(base, ymdw.0, ymdw.1, ymdw.2, kind, strike)
}

/// The watched ticker without its three-character exchange suffix.
pub open spec fn spec_base_ticker(t: Seq<char>) -> Seq<char> {
    t.subrange(0, t.len() - 3)
}

impl TickerOptions {
    /// Writes the option ticker for the given civil expiry date: a Buy-side
    /// price movement refreshes the protective put at the floor of the
    /// price, a Sell-side one the call at its ceiling.
    #[verifier::rlimit(50)]
    pub fn update_for_date(
        &mut self,
        side: Side,
        current_price: i64,
        year: i32,
        month: u32,
        day: u32,
    )
        requires
            0 <= current_price <= PRICE_MAX,
            old(self).ticker@.len() >= 3,
            0 <= year,
            1 <= month <= 12,
            1 <= day <= 31,
        ensures
            final(self).ticker == old(self).ticker,
            side == Side::Buy ==> final(self).short_option@ == spec_option_ticker(
                spec_base_ticker(old(self).ticker@),
                year as int,
                month as int,
                day as int,
                'P',
                current_price as int / 100,
            ) && final(self).long_option == old(self).long_option,
            side == Side::Sell ==> final(self).long_option@ == spec_option_ticker(
                spec_base_ticker(old(self).ticker@),
                year as int,
                month as int,
                day as int,
                'C',
                (current_price + 99) as int / 100,
            ) && final(self).short_option == old(self).short_option,
    {
        let ghost base0 = spec_base_ticker(old(self).ticker@);
        let ghost t2 = seq!['+'] + base0;
        let ghost t3 = t2 + seq!['.'];
        let ghost t4 = t3 + pad2(day as int);
        let ghost t5 = t4 + month_str(month as int);
        let ghost t6 = t5 + pad4(year as int);
        let ghost t7 = t6 + seq!['.'];

        let mut out = String::new();
        out.append("+");
        proof {
            assert(out@ =~= seq!['+']) by {
                reveal_strlit("+");
            }
        }
        let len = self.ticker.as_str().unicode_len();
        let base = self.ticker.as_str().substring_char(0, len - 3);
        out.append(base);
        proof {
            assert(out@ =~= t2);
        }
        out.append(".");
        proof {
            assert(out@ =~= t3) by {
                reveal_strlit(".");
            }
        }
        if day < 10 {
            out.append("0");
            proof {
                assert(out@ =~= t3 + seq!['0']) by {
                    reveal_strlit("0");
                }
            }
        }
        push_dec_str(&mut out, day as u64);
        proof {
            assert(out@ =~= t4);
        }
        let month_name = if month == 1 {
            "JAN"
        } else if month == 2 {
            "FEB"
        } else if month == 3 {
            "MAR"
        } else if month == 4 {
            "APR"
        } else if month == 5 {
            "MAY"
        } else if month == 6 {
            "JUN"
        } else if month == 7 {
            "JUL"
        } else if month == 8 {
            "AUG"
        } else if month == 9 {
            "SEP"
        } else if month == 10 {
            "OCT"
        } else if month == 11 {
            "NOV"
        } else {
            "DEC"
        };
        out.append(month_name);
        proof {
            assert(out@ =~= t5);
        }
        if year < 10 {
            out.append("000");
            proof {
                assert(out@ =~= t5 + seq!['0', '0', '0']) by {
                    reveal_strlit("000");
                }
            }
        } else if year < 100 {
            out.append("00");
            proof {
                assert(out@ =~= t5 + seq!['0', '0']) by {
                    reveal_strlit("00");
                }
            }
        } else if year < 1000 {
            out.append("0");
            proof {
                assert(out@ =~= t5 + seq!['0']) by {
                    reveal_strlit("0");
                }
            }
        }
        push_dec_str(&mut out, year as u64);
        proof {
            assert(out@ =~= t6);
        }
        out.append(".");
        proof {
            assert(out@ =~= t7) by {
                reveal_strlit(".");
            }
        }
        let strike: u64 = match side {
            Side::Buy => {
                out.append("P");
                proof {
                    assert(out@ =~= t7 + seq!['P']) by {
                        reveal_strlit("P");
                    }
                }
                (current_price as u64) / 100
            },
            Side::Sell => {
                out.append("C");
                proof {
                    assert(out@ =~= t7 + seq!['C']) by {
                        reveal_strlit("C");
                    }
                }
                ((current_price + 99) as u64) / 100
            },
        };
        let ghost kind: char = if side == Side::Buy { 'P' } else { 'C' };
        push_dec_str(&mut out, strike);
        proof {
            assert(out@ =~= t7 + seq![kind] + dec_str(strike as int));
            assert(out@ == spec_option_ticker(
                base0,
                year as int,
                month as int,
                day as int,
                kind,
                strike as int,
            ));
        }
        match side {
            Side::Buy => {
                self.short_option = out;
            },
            Side::Sell => {
                self.long_option = out;
            },
        }
    }

    /// Derives the option ticker for the watched base asset from a live
    /// price: the expiry is today plus `days_to_expiration`, shifted off a
    /// Saturday or Sunday by two days, as the calendar collaborator reports
    /// it. A zero price changes nothing; on a clock far outside the
    /// representable calendar the derivation is skipped.
    pub fn update(&mut self, side: Side, current_price: i64, days_to_expiration: i64)
        requires
            0 <= current_price <= PRICE_MAX,
            0 <= days_to_expiration <= 36500,
            old(self).ticker@.len() >= 3,
        ensures
            final(self).ticker == old(self).ticker,
            current_price == 0 ==> *final(self) == *old(self),
            side == Side::Sell ==> final(self).short_option == old(self).short_option,
            side == Side::Buy ==> final(self).long_option == old(self).long_option,
            side == Side::Buy ==> (final(self).short_option == old(self).short_option || exists|
                ed: int,
            |
                final(self).short_option@ == #[trigger] spec_option_ticker_on(
                    spec_base_ticker(old(self).ticker@),
                    ed,
                    'P',
                    current_price as int / 100,
                )),
            side == Side::Sell ==> (final(self).long_option == old(self).long_option || exists|
                ed: int,
            |
                final(self).long_option@ == #[trigger] spec_option_ticker_on(
                    spec_base_ticker(old(self).ticker@),
                    ed,
                    'C',
                    (current_price + 99) as int / 100,
                )),
    {
        if current_price == 0 {
            return ;
        }
        let today = local_epoch_day();
        let target = today + days_to_expiration;
        let date = match civil_date_of(target) {
            Some(ymdw) => {
                if ymdw.3 == 5 || ymdw.3 == 6 {
                    civil_date_of(target + 2)
                } else {
                    Some(ymdw)
                }
            },
            None => None,
        };
        let ghost expiry_day: int = if civil_of_day(target as int).3 == 5 || civil_of_day(
            target as int,
        ).3 == 6 {
            target + 2
        } else {
            target as int
        };
        match date {
            Some((year, month, day, _)) => {
                if year >= 0 {
                    let ghost base = spec_base_ticker(self.ticker@);
                    self.update_for_date(side, current_price, year, month, day);
                    proof {
                        assert(civil_of_day(expiry_day).0 == year as int);
                        assert(civil_of_day(expiry_day).1 == month as int);
                        assert(civil_of_day(expiry_day).2 == day as int);
                        if side == Side::Buy {
                            assert(self.short_option@ == spec_option_ticker_on(
                                base,
                                expiry_day,
                                'P',
                                current_price as int / 100,
                            ));
                        } else {
                            assert(self.long_option@ == spec_option_ticker_on(
                                base,
                                expiry_day,
                                'C',
                                (current_price + 99) as int / 100,
                            ));
                        }
                    }
                }
            },
            None => {},
        }
    }
}

/// How stops are managed for a position. Only `InsuranceStops` drives the
/// automatic ladder; every other strategy leaves the state machine alone.
#[derive(Debug, Copy, Clone, PartialEq, Eq, Structural)]
pub enum SLStrategy {
    WithoutStops,
    InsuranceStops,
    ManualStops,
    CandleTailsStops,
}

impl SLStrategy {
    pub fn description(&self) -> (r: &'static str)
        ensures
            r@ == self.spec_description(),
    {
        match self {
            SLStrategy::WithoutStops => "w/o stops",
            SLStrategy::InsuranceStops => "insurance",
            SLStrategy::ManualStops => "manual",
            SLStrategy::CandleTailsStops => "candle tails",
        }
    }

    pub open spec fn spec_description(self) -> Seq<char> {
        match self {
            SLStrategy::WithoutStops => "w/o stops"@,
            SLStrategy::InsuranceStops => "insurance"@,
            SLStrategy::ManualStops => "manual"@,
            SLStrategy::CandleTailsStops => "candle tails"@,
        }
    }
}

/// The rung of the stop-loss ladder a position stands on.
#[derive(Debug, Copy, Clone, PartialEq, Eq, Structural)]
pub enum SLType {
    NoStop,
    LossLimiter,
    BreakEven,
    TrailingStop,
}

impl SLType {
    pub fn description(&self) -> (r: &'static str)
        ensures
            r@ == self.spec_description(),
    {
        match self {
            SLType::NoStop => "none",
            SLType::LossLimiter => "loss limiter",
            SLType::BreakEven => "break-even",
            SLType::TrailingStop => "trailing stop",
        }
    }

    pub open spec fn spec_description(self) -> Seq<char> {
        match self {
            SLType::NoStop => "none"@,
            SLType::LossLimiter => "loss limiter"@,
            SLType::BreakEven => "break-even"@,
            SLType::TrailingStop => "trailing stop"@,
        }
    }
}

/// Division rounding toward zero, as machine division does.
pub open spec fn trunc_div(a: int, b: int) -> int {
    if (a >= 0) == (b >= 0) {
        vstd::math::abs(a) as int / vstd::math::abs(b) as int
    } else {
        -(vstd::math::abs(a) as int / vstd::math::abs(b) as int)
    }
}

/// `i64` division rounding toward zero.
fn div_trunc_i64(a: i64, b: i64) -> (r: i64)
    requires
        b != 0,
        a != i64::MIN,
        b != i64::MIN,
    ensures
        r as int == trunc_div(a as int, b as int),
{
    let ua: u64 = if a >= 0 {
        a as u64
    } else {
        (-a) as u64
    };
    let ub: u64 = if b >= 0 {
        b as u64
    } else {
        (-b) as u64
    };
    proof {
        vstd::arithmetic::div_mod::lemma_div_nonincreasing(ua as int, ub as int);
    }
    let uq: u64 = ua / ub;
    if (a >= 0) == (b >= 0) {
        uq as i64
    } else {
        -(uq as i64)
    }
}

/// The trailing-stop candidate: the open price raised by half the per-share
/// profit, `open + pnl / (2 * quantity)`.
pub open spec fn sl_candidate(p: PositionView) -> int {
    p.open_price + trunc_div(p.pnl as int, 2 * p.quantity)
}

/// The stop state, stop price and close signal that one evaluation of the
/// engine leaves on `p`, as `(sl_type, sl_price, close_alert)`. The engine is
/// active only under the automatic-stops strategy: any other strategy leaves
/// the state, the stop and the close signal exactly as they were.
pub open spec fn spec_check_sl(p: PositionView) -> (SLType, int, bool) {
    if p.sl_strategy != SLStrategy::InsuranceStops {
        (p.sl_type, p.sl_price as int, p.close_alert)
    } else if p.current_price <= p.sl_price {
        (p.sl_type, p.sl_price as int, true)
    } else {
        match p.sl_type {
            SLType::NoStop => (
                SLType::LossLimiter,
                vstd::math::min(p.current_price as int, p.open_price as int) - SL_MARGIN,
                p.close_alert,
            ),
            SLType::LossLimiter => if p.current_price - p.open_price >= BREAK_EVEN_TRIGGER {
                (SLType::BreakEven, p.open_price + BREAK_EVEN_OFFSET, p.close_alert)
            } else if p.current_price - p.sl_price > SL_MARGIN {
                (SLType::LossLimiter, p.current_price - SL_MARGIN, p.close_alert)
            } else {
                (SLType::LossLimiter, p.sl_price as int, p.close_alert)
            },
            SLType::BreakEven => if p.current_price - p.open_price >= TRAILING_TRIGGER {
                (SLType::TrailingStop, sl_candidate(p), p.close_alert)
            } else {
                (SLType::BreakEven, p.sl_price as int, p.close_alert)
            },
            SLType::TrailingStop => if sl_candidate(p) > p.sl_price {
                (SLType::TrailingStop, sl_candidate(p), p.close_alert)
            } else {
                (SLType::TrailingStop, p.sl_price as int, p.close_alert)
            },
        }
    }
}

/// The trailing-stop candidate stays within the stop-price bounds.
proof fn lemma_candidate_bounds(p: PositionView)
    requires
        p.wf(),
        p.quantity != 0,
    ensures
        -PNL_ABS_MAX <= sl_candidate(p) <= PNL_ABS_MAX,
{
    let a = vstd::math::abs(p.pnl as int) as int;
    let b = vstd::math::abs(2 * p.quantity) as int;
    vstd::arithmetic::div_mod::lemma_div_nonincreasing(a, b);
    vstd::arithmetic::div_mod::lemma_div_pos_is_pos(a, b);
    vstd::arithmetic::div_mod::lemma_div_is_ordered_by_denominator(a, 2, b);
    vstd::arithmetic::div_mod::lemma_div_basics(a);
    assert(a / b <= a / 2);
}

/// Every stop price the evaluation can produce stays within bounds.
proof fn lemma_check_sl_bounds(p: PositionView)
    requires
        p.wf(),
        p.quantity != 0,
    ensures
        -PNL_ABS_MAX <= spec_check_sl(p).1 <= PNL_ABS_MAX,
{
    lemma_candidate_bounds(p);
}

/// One evaluation of the stop-loss engine on a position's present prices.
/// Returns the refreshed `(sl_type, sl_price, close_alert)`. A strategy
/// without automatic stops never advances the ladder and never raises the
/// close signal.
pub fn check_sl(position: &Position) -> (r: (SLType, i64, bool))
    requires
        position@.wf(),
        position.quantity != 0,
    ensures
        r.0 == spec_check_sl(position@).0,
        r.1 as int == spec_check_sl(position@).1,
        r.2 == spec_check_sl(position@).2,
{
    proof {
        lemma_check_sl_bounds(position@);
    }
    let sl_strategy = position.sl_strategy;
    let mut sl_type = position.sl_type;
    let mut sl_price = position.sl_price;
    let mut close_alert = position.close_alert;

    if sl_strategy == SLStrategy::InsuranceStops {
        if position.current_price <= sl_price {
            close_alert = true;
        } else {
            match sl_type {
                SLType::NoStop => {
                    sl_type = SLType::LossLimiter;
                    sl_price = if position.current_price <= position.open_price {
                        position.current_price - SL_MARGIN
                    } else {
                        position.open_price - SL_MARGIN
                    };
                },
                SLType::LossLimiter => {
                    if position.current_price - position.open_price >= BREAK_EVEN_TRIGGER {
                        sl_type = SLType::BreakEven;
                        sl_price = position.open_price + BREAK_EVEN_OFFSET;
                    } else if position.current_price - position.sl_price > SL_MARGIN {
                        sl_price = position.current_price - SL_MARGIN;
                    }
                },
                SLType::BreakEven => {
                    if position.current_price - position.open_price >= TRAILING_TRIGGER {
                        sl_type = SLType::TrailingStop;
                        sl_price = position.open_price + div_trunc_i64(
                            position.pnl,
                            2 * (position.quantity as i64),
                        );
                    }
                },
                SLType::TrailingStop => {
                    let new_sl_price = position.open_price + div_trunc_i64(
                        position.pnl,
                        2 * (position.quantity as i64),
                    );
                    if new_sl_price > sl_price {
                        sl_price = new_sl_price;
                    }
                },
            }
        }
    }
    (sl_type, sl_price, close_alert)
}

/// The stop state and stop price that the manual one-step promotion leaves on
/// `p`, as `(sl_type, sl_price)`.
pub open spec fn spec_upgrade_sl(p: PositionView) -> (SLType, int) {
    if p.sl_strategy == SLStrategy::InsuranceStops {
        match p.sl_type {
            SLType::NoStop => (
                SLType::LossLimiter,
                vstd::math::min(p.current_price as int, p.open_price as int) - SL_MARGIN,
            ),
            SLType::LossLimiter => (SLType::BreakEven, p.open_price + BREAK_EVEN_OFFSET),
            SLType::BreakEven => (SLType::TrailingStop, sl_candidate(p)),
            SLType::TrailingStop => (SLType::TrailingStop, p.sl_price as int),
        }
    } else {
        (p.sl_type, p.sl_price as int)
    }
}

/// Operator-triggered promotion: advances the ladder one step using the same
/// price formulas, without the price-threshold conditions. Returns the new
/// `(sl_type, sl_price)`.
pub fn upgrade_sl(position: &Position) -> (r: (SLType, i64))
    requires
        position@.wf(),
        position.quantity != 0,
    ensures
        r.0 == spec_upgrade_sl(position@).0,
        r.1 as int == spec_upgrade_sl(position@).1,
{
    proof {
        lemma_candidate_bounds(position@);
    }
    let sl_strategy = position.sl_strategy;
    let mut sl_type = position.sl_type;
    let mut sl_price = position.sl_price;

    if sl_strategy == SLStrategy::InsuranceStops {
        match sl_type {
            SLType::NoStop => {
                sl_type = SLType::LossLimiter;
                sl_price = if position.current_price <= position.open_price {
                    position.current_price - SL_MARGIN
                } else {
                    position.open_price - SL_MARGIN
                };
            },
            SLType::LossLimiter => {
                sl_type = SLType::BreakEven;
                sl_price = position.open_price + BREAK_EVEN_OFFSET;
            },
            SLType::BreakEven => {
                sl_type = SLType::TrailingStop;
                sl_price = position.open_price + div_trunc_i64(
                    position.pnl,
                    2 * (position.quantity as i64),
                );
            },
            SLType::TrailingStop => {},
        }
    }
    (sl_type, sl_price)
}

/// The position as one live price tick leaves it: the current price is taken
/// over, the PnL recomputed as `(current - open) * quantity`, and the
/// stop-loss engine evaluated on the result.
pub open spec fn spec_tick(p: PositionView, price: i64) -> PositionView {
    let updated = PositionView {
        current_price: price,
        pnl: ((price - p.open_price) * p.quantity) as i64,
        ..p
    };
    let r = spec_check_sl(updated);
    PositionView { sl_type: r.0, sl_price: r.1 as i64, close_alert: r.2, ..updated }
}

/// The position after a whole sequence of price ticks, applied oldest first.
pub open spec fn spec_apply_ticks(p: PositionView, ticks: Seq<i64>) -> PositionView
    decreases ticks.len(),
{
    if ticks.len() == 0 {
        p
    } else {
        spec_apply_ticks(spec_tick(p, ticks[0]), ticks.drop_first())
    }
}

/// One price tick keeps a position within the machine bounds, never touches
/// its identity, and, on the trailing-stop rung, never lowers the stop.
pub proof fn lemma_tick_step(p: PositionView, price: i64)
    requires
        p.wf(),
        p.quantity != 0,
        0 <= price <= PRICE_MAX,
    ensures
        spec_tick(p, price).wf(),
        spec_tick(p, price).quantity == p.quantity,
        spec_tick(p, price).ticker == p.ticker,
        spec_tick(p, price).open_price == p.open_price,
        spec_tick(p, price).sl_strategy == p.sl_strategy,
        spec_tick(p, price).current_price == price,
        spec_tick(p, price).pnl == (price - p.open_price) * p.quantity,
        p.sl_type == SLType::TrailingStop ==> spec_tick(p, price).sl_type == SLType::TrailingStop
            && spec_tick(p, price).sl_price >= p.sl_price,
{
    assert((-PNL_ABS_MAX) <= (price - p.open_price) * p.quantity <= PNL_ABS_MAX)
        by (nonlinear_arith)
        requires
            -1_000_000_000 <= price - p.open_price <= 1_000_000_000,
            -2_147_483_648 <= p.quantity <= 2_147_483_647,
            PNL_ABS_MAX == 2_147_483_648_000_000_000i64,
    ;
    let updated = PositionView {
        current_price: price,
        pnl: ((price - p.open_price) * p.quantity) as i64,
        ..p
    };
    lemma_check_sl_bounds(updated);
}

/// Stop monotonicity: while a position stands on the trailing-stop rung, its
/// stop price is non-decreasing across any sequence of price ticks — the stop
/// never loosens when the price retraces.
pub proof fn lemma_trailing_stop_monotone(p: PositionView, ticks: Seq<i64>)
    requires
        p.wf(),
        p.quantity != 0,
        p.sl_type == SLType::TrailingStop,
        forall|i: int| 0 <= i < ticks.len() ==> 0 <= #[trigger] ticks[i] <= PRICE_MAX,
    ensures
        spec_apply_ticks(p, ticks).sl_type == SLType::TrailingStop,
        spec_apply_ticks(p, ticks).sl_price >= p.sl_price,
        spec_apply_ticks(p, ticks).wf(),
        spec_apply_ticks(p, ticks).quantity == p.quantity,
    decreases ticks.len(),
{
    if ticks.len() > 0 {
        lemma_tick_step(p, ticks[0]);
        lemma_trailing_stop_monotone(spec_tick(p, ticks[0]), ticks.drop_first());
    }
}

} // verus!
