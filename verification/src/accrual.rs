//! The accrual engine: a queue's balance grows with elapsed wall-clock time
//! in proportion to its income rate, `amount / (interval_in_days * 86400)`
//! money per second. Earnings are computed exactly and floored at the
//! nano-unit, far below the two-digit display precision.

use vstd::arithmetic::div_mod::{
    lemma_fundamental_div_mod, lemma_fundamental_div_mod_converse, lemma_mod_bound,
};
use vstd::prelude::*;

use crate::money::Money;
use crate::timestamp::{format_rfc2822, parse_rfc2822, rfc2822_of, rfc2822_parse, TIMESTAMP_MAX};
use crate::types::{Queue, QueueV, SqError};

verus! {

/// Seconds in one day.
pub const SECONDS_PER_DAY: u64 = 86_400;

/// The magnitude of an integer.
pub open spec fn mag(x: int) -> int {
    if x < 0 {
        -x
    } else {
        x
    }
}

/// Nano-units earned over `elapsed_seconds` at `amount` nano-units per
/// `interval_days` days, floored to a whole nano-unit.
pub open spec fn earned_nanos(amount: int, interval_days: int, elapsed_seconds: int) -> int
    recommends
        interval_days >= 1,
{
    (amount * elapsed_seconds) / (interval_days * (SECONDS_PER_DAY as int))
}

/// The balance a recalculation arrives at: the current balance plus the
/// earnings since `last_calculation`. `None` when no rate is defined
/// (zero-day interval) or the stored timestamp does not parse.
pub open spec fn new_balance_of(q: QueueV, now: int) -> Option<int> {
    match rfc2822_parse(q.last_calculation) {
        Option::None => Option::None,
        Option::Some(then) => if q.income.interval_in_days < 1 {
            Option::None
        } else {
            Option::Some(
                q.current_balance + earned_nanos(
                    q.income.amount,
                    q.income.interval_in_days,
                    now - then,
                ),
            )
        },
    }
}

/// The write-back policy applied to a queue: `last_calculation` always
/// advances to `now`; the balance takes the recalculated value only if the
/// queue is not paused, so paused time is never credited, even retroactively.
pub open spec fn accrued(q: QueueV, now: int) -> QueueV
    recommends
        q.paused || new_balance_of(q, now) is Some,
{
    QueueV {
        income: q.income,
        name: q.name,
        last_calculation: rfc2822_of(now),
        current_balance: if q.paused {
            q.current_balance
        } else {
            new_balance_of(q, now).unwrap()
        },
        future_purchases: q.future_purchases,
        past_purchases: q.past_purchases,
        paused: q.paused,
    }
}

/// Floor division moves to the magnitude of a negative dividend as follows.
pub(crate) proof fn lemma_neg_div(m: int, d: int)
    requires
        m >= 0,
        d > 0,
    ensures
        (-m) / d == if m % d == 0 {
            -(m / d)
        } else {
            -(m / d) - 1
        },
{
    lemma_fundamental_div_mod(m, d);
    lemma_mod_bound(m, d);
    let q = m / d;
    let r = m % d;
    if r == 0 {
        assert(-m == (-q) * d + 0) by (nonlinear_arith)
            requires
                m == d * q + r,
                r == 0,
        ;
        lemma_fundamental_div_mod_converse(-m, d, -q, 0);
    } else {
        assert(-m == (-q - 1) * d + (d - r)) by (nonlinear_arith)
            requires
                m == d * q + r,
        ;
        lemma_fundamental_div_mod_converse(-m, d, -q - 1, d - r);
    }
}

/// A product decomposes into the product of the magnitudes and a sign.
proof fn lemma_product_sign(a: int, e: int)
    ensures
        (a < 0) != (e < 0) ==> a * e == -(mag(a) * mag(e)),
        (a < 0) == (e < 0) ==> a * e == mag(a) * mag(e),
{
    if a >= 0 && e >= 0 {
    } else if a < 0 && e >= 0 {
        assert(a * e == -((-a) * e)) by (nonlinear_arith);
    } else if a >= 0 && e < 0 {
        assert(a * e == -(a * (-e))) by (nonlinear_arith);
    } else {
        assert(a * e == (-a) * (-e)) by (nonlinear_arith);
    }
}

/// Splitting an elapsed time loses at most one nano-unit to flooring:
/// the floored quotients of two parts sum to the floored quotient of the
/// whole, or fall exactly one short of it.
pub proof fn lemma_div_superadditive(x: int, y: int, d: int)
    requires
        d > 0,
    ensures
        x / d + y / d <= (x + y) / d <= x / d + y / d + 1,
{
    lemma_fundamental_div_mod(x, d);
    lemma_fundamental_div_mod(y, d);
    lemma_mod_bound(x, d);
    lemma_mod_bound(y, d);
    let qx = x / d;
    let rx = x % d;
    let qy = y / d;
    let ry = y % d;
    if rx + ry < d {
        assert(x + y == (qx + qy) * d + (rx + ry)) by (nonlinear_arith)
            requires
                x == d * qx + rx,
                y == d * qy + ry,
        ;
        lemma_fundamental_div_mod_converse(x + y, d, qx + qy, rx + ry);
    } else {
        assert(x + y == (qx + qy + 1) * d + (rx + ry - d)) by (nonlinear_arith)
            requires
                x == d * qx + rx,
                y == d * qy + ry,
        ;
        lemma_fundamental_div_mod_converse(x + y, d, qx + qy + 1, rx + ry - d);
    }
}

/// Exact floored earnings, computed on magnitudes so that no intermediate
/// overflows: the product of an `i64` rate and an elapsed span of at most
/// the full `i64` timestamp range stays within `u128`.
fn earned_between(amount_nanos: i64, interval_days: u64, elapsed_seconds: i128) -> (r: i128)
    requires
        interval_days >= 1,
        -0xffff_ffff_ffff_ffff <= elapsed_seconds <= 0xffff_ffff_ffff_ffff,
    ensures
        r == earned_nanos(amount_nanos as int, interval_days as int, elapsed_seconds as int),
        -0x10_0000_0000_0000_0000_0000_0000_0000 <= r <= 0x10_0000_0000_0000_0000_0000_0000_0000,
{
    let ghost a = amount_nanos as int;
    let ghost e = elapsed_seconds as int;
    proof {
        assert((interval_days as int) * (SECONDS_PER_DAY as int) <= 0xffff_ffff_ffff_ffff * 86_400)
            by (nonlinear_arith)
            requires
                1 <= interval_days as int <= 0xffff_ffff_ffff_ffff,
        ;
        assert((interval_days as int) * (SECONDS_PER_DAY as int) >= 86_400) by (nonlinear_arith)
            requires
                interval_days as int >= 1,
        ;
    }
    let d: u128 = (interval_days as u128) * (SECONDS_PER_DAY as u128);
    let negative = (amount_nanos < 0) != (elapsed_seconds < 0);
    let am: u128 = if amount_nanos >= 0 {
        amount_nanos as u128
    } else {
        (-(amount_nanos as i128)) as u128
    };
    let em: u128 = if elapsed_seconds >= 0 {
        elapsed_seconds as u128
    } else {
        (-elapsed_seconds) as u128
    };
    proof {
        assert(mag(a) * mag(e) <= 0x8000_0000_0000_0000 * 0xffff_ffff_ffff_ffff)
            by (nonlinear_arith)
            requires
                0 <= mag(a) <= 0x8000_0000_0000_0000,
                0 <= mag(e) <= 0xffff_ffff_ffff_ffff,
        ;
        lemma_product_sign(a, e);
    }
    let m: u128 = am * em;
    let q: u128 = m / d;
    let rem: u128 = m % d;
    proof {
        lemma_mod_bound(m as int, d as int);
        vstd::arithmetic::div_mod::lemma_div_nonincreasing(m as int, d as int);
        vstd::arithmetic::div_mod::lemma_div_pos_is_pos(m as int, d as int);
        vstd::arithmetic::div_mod::lemma_div_is_ordered(
            m as int,
            0x8000_0000_0000_0000int * 0xffff_ffff_ffff_ffff,
            d as int,
        );
        vstd::arithmetic::div_mod::lemma_div_is_ordered_by_denominator(
            0x8000_0000_0000_0000int * 0xffff_ffff_ffff_ffff,
            86_400,
            d as int,
        );
    }
    if !negative || m == 0 {
        q as i128
    } else {
        proof {
            lemma_neg_div(m as int, d as int);
        }
        if rem == 0 {
            -(q as i128)
        } else {
            -(q as i128) - 1
        }
    }
}

impl Queue {
    /// Recalculate this queue's balance as of `now`: parse the stored
    /// `last_calculation`, credit the elapsed seconds at the income rate,
    /// and return `(now, new_balance)` without mutating the queue. The
    /// caller decides whether to apply the result.
    pub fn recalculate(&self, now: i64) -> (r: Result<(i64, Money), SqError>)
        ensures
            (r == Err::<(i64, Money), SqError>(SqError::CorruptTimestamp) <==> rfc2822_parse(
                self@.last_calculation,
            ) is None),
            (r == Err::<(i64, Money), SqError>(SqError::ZeroInterval) <==> (rfc2822_parse(
                self@.last_calculation,
            ) is Some && self@.income.interval_in_days < 1)),
            new_balance_of(self@, now as int) matches Some(b) ==> (if i64::MIN <= b <= i64::MAX {
                r matches Ok(p) && p.0 == now && p.1@ == b
            } else {
                r == Err::<(i64, Money), SqError>(SqError::BalanceOutOfRange)
            }),
            r matches Ok(p) ==> new_balance_of(self@, now as int) == Some(p.1@),
    {
        let then: i64 = match parse_rfc2822(self.last_calculation.as_str()) {
            Some(t) => t,
            None => {
                return Err(SqError::CorruptTimestamp);
            },
        };
        if self.income.interval_in_days < 1 {
            return Err(SqError::ZeroInterval);
        }
        let elapsed: i128 = (now as i128) - (then as i128);
        let earned: i128 = earned_between(self.income.amount.nanos, self.income.interval_in_days, elapsed);
        let total: i128 = (self.current_balance.nanos as i128) + earned;
        if (i64::MIN as i128) <= total && total <= (i64::MAX as i128) {
            Ok((now, Money::from_nanos(total as i64)))
        } else {
            Err(SqError::BalanceOutOfRange)
        }
    }

    /// Recalculate and apply the write-back policy: `last_calculation`
    /// always advances to `now`; the balance is updated only if this queue
    /// is not paused (paused time is never credited — unpausing does not
    /// catch up). While paused, an out-of-range recalculated balance is
    /// discarded harmlessly; a corrupt timestamp or zero interval is an
    /// error even then.
    pub fn update_accumulation(&mut self, now: i64) -> (r: Result<(), SqError>)
        requires
            0 <= now <= TIMESTAMP_MAX,
        ensures
            ({
                let q0 = old(self)@;
                let parse = rfc2822_parse(q0.last_calculation);
                &&& (r == Err::<(), SqError>(SqError::CorruptTimestamp) <==> parse is None)
                &&& (r == Err::<(), SqError>(SqError::ZeroInterval) <==> (parse is Some
                    && q0.income.interval_in_days < 1))
                &&& (r == Err::<(), SqError>(SqError::BalanceOutOfRange) <==> (new_balance_of(
                    q0,
                    now as int,
                ) matches Some(b) && !q0.paused && !(i64::MIN <= b <= i64::MAX)))
                &&& (r is Err ==> final(self)@ == q0)
                &&& (r is Ok <==> (new_balance_of(q0, now as int) matches Some(b) && (q0.paused
                    || i64::MIN <= b <= i64::MAX)))
                &&& (r is Ok ==> final(self)@ == accrued(q0, now as int))
                &&& (r is Ok ==> rfc2822_parse(rfc2822_of(now as int)) == Some(now as int))
            }),
    {
        match self.recalculate(now) {
            Ok((ts, balance)) => {
                self.last_calculation = format_rfc2822(ts);
                if !self.paused {
                    self.current_balance = balance;
                }
                proof {
                    assert(self@ =~= accrued(old(self)@, now as int));
                }
                Ok(())
            },
            Err(e) => {
                if self.paused && matches!(e, SqError::BalanceOutOfRange) {
                    // the recalculated balance would be discarded anyway;
                    // still advance the clock
                    self.last_calculation = format_rfc2822(now);
                    proof {
                        assert(self@ =~= accrued(old(self)@, now as int));
                    }
                    Ok(())
                } else {
                    Err(e)
                }
            },
        }
    }
}

} // verus!
