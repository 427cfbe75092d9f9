//! The bucket-size ladder shared by every time-series read path (gauges,
//! counters, ...), and the range a read covers. Both charts must agree on what
//! bucket a given time range maps to, or their x-axes desync.
use crate::clock::{now_unix_nanos, CLOCK_BOUND_NANOS};
use crate::config::NATIVE_RESOLUTION_SECS;
use crate::error::ApiError;
use vstd::prelude::*;

verus! {

/// Points a series may hold; caps how many buckets a range gets divided into.
pub const MAX_POINTS: i64 = 2000;

/// Default lookback for a range with no explicit `from`, in seconds.
pub const DEFAULT_RANGE_SECS: i64 = 24 * 60 * 60;

/// Nanoseconds per second.
pub const NANOS_PER_SEC: i128 = 1_000_000_000;

/// Bucket sizes the read path may choose, smallest (native) first.
pub open spec fn resolution_ladder() -> Seq<i64> {
    seq![60i64, 300i64, 600i64, 1800i64, 3600i64, 21600i64, 86400i64]
}

/// `a / b` rounded toward zero, as Rust's integer division rounds.
pub open spec fn div_toward_zero(a: int, b: int) -> int {
    if a >= 0 {
        a / b
    } else {
        -((-a) / b)
    }
}

/// Whether rung `res` keeps a span of `span_secs` within `MAX_POINTS` buckets.
pub open spec fn fits(span_secs: i64, res: i64) -> bool {
    div_toward_zero(span_secs as int, res as int) <= MAX_POINTS
}

/// The first rung of the ladder from index `i` on that fits, or the widest.
pub open spec fn first_fitting_from(span_secs: i64, i: int) -> i64
    decreases 7 - i,
{
    if i >= 7 {
        resolution_ladder()[6]
    } else if fits(span_secs, resolution_ladder()[i]) {
        resolution_ladder()[i]
    } else {
        first_fitting_from(span_secs, i + 1)
    }
}

/// Smallest ladder rung that keeps a span of `span_secs` seconds within
/// `MAX_POINTS` buckets, or the widest rung if even that does not fit.
pub fn pick_resolution(span_secs: i64) -> (res: i64)
    ensures
        res == first_fitting_from(span_secs, 0),
{
    let ladder: [i64; 7] = [
        NATIVE_RESOLUTION_SECS,
        5 * 60,
        10 * 60,
        30 * 60,
        60 * 60,
        6 * 60 * 60,
        24 * 60 * 60,
    ];
    assert(ladder@ == resolution_ladder());
    let mut i: usize = 0;
    while i < 7
        invariant
            i <= 7,
            ladder@ == resolution_ladder(),
            first_fitting_from(span_secs, 0) == first_fitting_from(span_secs, i as int),
        decreases 7 - i,
    {
        let res = ladder[i];
        if span_secs / res <= MAX_POINTS {
            return res;
        }
        i = i + 1;
    }
    ladder[6]
}

/// The range a series read covers: `to` defaults to now and `from` to a day
/// before `to`; a range whose `from` is not earlier than its `to` is refused.
/// Times are unix nanoseconds.
pub open spec fn read_range_spec(from: Option<i128>, to: Option<i128>, now: i128) -> Option<(int, int)> {
    let to = match to {
        Some(t) => t as int,
        None => now as int,
    };
    let from = match from {
        Some(f) => f as int,
        None => to - DEFAULT_RANGE_SECS * NANOS_PER_SEC,
    };
    if from >= to {
        None
    } else {
        Some((from, to))
    }
}

/// Whole seconds in a span of nanoseconds, rounded toward zero.
pub open spec fn whole_seconds(span_nanos: int) -> int {
    div_toward_zero(span_nanos, NANOS_PER_SEC as int)
}

/// The range and bucket size of a series read, from the requested bounds and the
/// current time (unix nanoseconds).
pub fn read_range(from: Option<i128>, to: Option<i128>, now: i128) -> (res: Result<
    (i128, i128, i64),
    ApiError,
>)
    requires
        -CLOCK_BOUND_NANOS <= now <= CLOCK_BOUND_NANOS,
        to matches Some(t) ==> -CLOCK_BOUND_NANOS <= t <= CLOCK_BOUND_NANOS,
        from matches Some(f) ==> -CLOCK_BOUND_NANOS <= f <= CLOCK_BOUND_NANOS,
    ensures
        match read_range_spec(from, to, now) {
            None => res matches Err(ApiError::BadRequest(m)) && m@
                == "`from` must be earlier than `to`"@,
            Some((f, t)) => res matches Ok((rf, rt, resolution)) && rf == f && rt == t
                && resolution == first_fitting_from(whole_seconds(t - f) as i64, 0),
        },
{
    let to = match to {
        Some(t) => t,
        None => now,
    };
    let from = match from {
        Some(f) => f,
        None => to - DEFAULT_RANGE_SECS as i128 * NANOS_PER_SEC,
    };
    if from >= to {
        return Err(ApiError::BadRequest("`from` must be earlier than `to`".to_string()));
    }
    let span_secs = ((to - from) / NANOS_PER_SEC) as i64;
    Ok((from, to, pick_resolution(span_secs)))
}

/// The range and bucket size of a series read, `to` defaulting to now by our
/// clock.
pub fn read_range_now(from: Option<i128>, to: Option<i128>) -> (res: Result<
    (i128, i128, i64),
    ApiError,
>)
    requires
        to matches Some(t) ==> -CLOCK_BOUND_NANOS <= t <= CLOCK_BOUND_NANOS,
        from matches Some(f) ==> -CLOCK_BOUND_NANOS <= f <= CLOCK_BOUND_NANOS,
    ensures
        to is Some ==> match read_range_spec(from, to, 0) {
            None => res matches Err(ApiError::BadRequest(m)) && m@
                == "`from` must be earlier than `to`"@,
            Some((f, t)) => res matches Ok((rf, rt, resolution)) && rf == f && rt == t
                && resolution == first_fitting_from(whole_seconds(t - f) as i64, 0),
        },
        res matches Ok((rf, rt, resolution)) ==> rf < rt && resolution == first_fitting_from(
            whole_seconds(rt - rf) as i64,
            0,
        ) && (from matches Some(f) ==> rf == f) && (to matches Some(t) ==> rt == t),
        from is None && to is None ==> (res matches Ok((rf, rt, resolution)) && rt - rf
            == DEFAULT_RANGE_SECS * NANOS_PER_SEC && resolution == first_fitting_from(
            DEFAULT_RANGE_SECS,
            0,
        )),
        res is Err ==> (to is Some && read_range_spec(from, to, 0) is None) || (from is Some
            && to is None),
{
    let now = now_unix_nanos();
    assert(whole_seconds(DEFAULT_RANGE_SECS * NANOS_PER_SEC) == DEFAULT_RANGE_SECS);
    read_range(from, to, now)
}

proof fn lemma_first_fitting_from(span_secs: i64, i: int)
    requires
        0 <= i < 7,
    ensures
        exists|k: int| i <= k < 7 && #[trigger] resolution_ladder()[k] == first_fitting_from(span_secs, i),
        forall|k: int|
            i <= k < 7 && fits(span_secs, #[trigger] resolution_ladder()[k]) ==> first_fitting_from(
                span_secs,
                i,
            ) <= resolution_ladder()[k] && fits(span_secs, first_fitting_from(span_secs, i)),
        !fits(span_secs, first_fitting_from(span_secs, i)) ==> first_fitting_from(span_secs, i)
            == resolution_ladder()[6],
    decreases 7 - i,
{
    if i < 6 {
        lemma_first_fitting_from(span_secs, i + 1);
        if fits(span_secs, resolution_ladder()[i]) {
            assert(resolution_ladder()[i] == first_fitting_from(span_secs, i));
        }
    } else {
        assert(first_fitting_from(span_secs, 7) == resolution_ladder()[6]);
        assert(resolution_ladder()[6] == first_fitting_from(span_secs, i));
    }
}

/// The bucket size picked for a span is a rung of the ladder; whenever some rung
/// keeps the span within `MAX_POINTS` buckets, the pick does too, and no rung
/// that does is finer than the pick.
pub proof fn picked_rung_is_the_finest_that_fits(span_secs: i64, k: int)
    requires
        0 <= k < 7,
        fits(span_secs, resolution_ladder()[k]),
    ensures
        resolution_ladder().contains(first_fitting_from(span_secs, 0)),
        fits(span_secs, first_fitting_from(span_secs, 0)),
        first_fitting_from(span_secs, 0) <= resolution_ladder()[k],
{
    lemma_first_fitting_from(span_secs, 0);
}

/// A wider span never gets a finer bucket than a narrower one.
pub proof fn wider_spans_never_get_finer_rungs(a: i64, b: i64)
    requires
        a <= b,
    ensures
        first_fitting_from(a, 0) <= first_fitting_from(b, 0),
{
    lemma_first_fitting_from(a, 0);
    lemma_first_fitting_from(b, 0);
    let pb = first_fitting_from(b, 0);
    let k = choose|k: int| 0 <= k < 7 && #[trigger] resolution_ladder()[k] == pb;
    if fits(b, pb) {
        let r = pb as int;
        assert(r > 0);
        if a >= 0 {
            vstd::arithmetic::div_mod::lemma_div_is_ordered(a as int, b as int, r);
        } else {
            assert(div_toward_zero(a as int, r) <= 0) by {
                assert((-(a as int)) / r >= 0) by (nonlinear_arith)
                    requires
                        -(a as int) > 0,
                        r > 0,
                ;
            }
        }
        assert(fits(a, resolution_ladder()[k]));
    } else {
        assert(pb == resolution_ladder()[6]);
        let ka = choose|k: int| 0 <= k < 7 && #[trigger] resolution_ladder()[k] == first_fitting_from(
            a,
            0,
        );
        assert(resolution_ladder()[ka] <= resolution_ladder()[6]);
    }
}

} // verus!
