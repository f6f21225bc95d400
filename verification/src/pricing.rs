use vstd::prelude::*;
use crate::types::{FeedSpec, FeedSpecView, PriceData, RouterError, PRICE_DECIMALS};

verus! {

/// `10` to the power `n`.
pub open spec fn pow10(n: nat) -> int
    decreases n,
{
    if n == 0 {
        1
    } else {
        10 * pow10((n - 1) as nat)
    }
}

/// Division that rounds toward zero, as `/` does on Rust's signed integers.
pub open spec fn div_toward_zero(a: int, b: int) -> int {
    if a >= 0 {
        a / b
    } else {
        -((-a) / b)
    }
}

/// Largest exponent whose power of ten fits in an `i128`.
pub open spec fn max_i128_exponent() -> nat {
    38
}

/// Rescaling from `from_decimals` can be carried out: the divisor it needs
/// fits in an `i128`.
pub open spec fn normalize_defined(from_decimals: u32) -> bool {
    from_decimals <= PRICE_DECIMALS + max_i128_exponent()
}

/// `price` rescaled from `from_decimals` to `PRICE_DECIMALS`: multiplied up
/// (failing with `InvalidPrice` when the product leaves `i128`) or divided
/// down, rounding toward zero.
pub open spec fn normalize_spec(price: i128, from_decimals: u32) -> Result<i128, RouterError> {
    if from_decimals == PRICE_DECIMALS {
        Ok(price)
    } else if from_decimals < PRICE_DECIMALS {
        let v = price * pow10((PRICE_DECIMALS - from_decimals) as nat);
        if i128::MIN <= v <= i128::MAX {
            Ok(v as i128)
        } else {
            Err(RouterError::InvalidPrice)
        }
    } else {
        Ok(div_toward_zero(price as int, pow10((from_decimals - PRICE_DECIMALS) as nat)) as i128)
    }
}

proof fn lemma_pow10_positive_monotone(a: nat, b: nat)
    requires
        a <= b,
    ensures
        1 <= pow10(a) <= pow10(b),
    decreases b,
{
    if b > a {
        lemma_pow10_positive_monotone(a, (b - 1) as nat);
    } else if a > 0 {
        lemma_pow10_positive_monotone((a - 1) as nat, (a - 1) as nat);
    }
}

proof fn lemma_pow10_fits(n: nat)
    requires
        n <= max_i128_exponent(),
    ensures
        1 <= pow10(n) <= i128::MAX,
{
    reveal_with_fuel(pow10, 40);
    assert(pow10(38) == 100000000000000000000000000000000000000int);
    lemma_pow10_positive_monotone(n, 38);
}

/// `10^k` as an `i128`.
fn pow10_i128(k: u32) -> (r: i128)
    requires
        k <= max_i128_exponent(),
    ensures
        r == pow10(k as nat),
{
    let mut r: i128 = 1;
    let mut i: u32 = 0;
    while i < k
        invariant
            i <= k <= max_i128_exponent(),
            r == pow10(i as nat),
        decreases k - i,
    {
        proof {
            lemma_pow10_fits((i + 1) as nat);
        }
        r = r * 10;
        i = i + 1;
    }
    r
}

/// Rescale `price` from `from_decimals` to `PRICE_DECIMALS`.
pub fn normalize(price: i128, from_decimals: u32) -> (r: Result<i128, RouterError>)
    requires
        normalize_defined(from_decimals),
    ensures
        r == normalize_spec(price, from_decimals),
{
    if from_decimals == PRICE_DECIMALS {
        Ok(price)
    } else if from_decimals < PRICE_DECIMALS {
        let factor = pow10_i128(PRICE_DECIMALS - from_decimals);
        match price.checked_mul(factor) {
            Some(v) => Ok(v),
            None => Err(RouterError::InvalidPrice),
        }
    } else {
        let divisor = pow10_i128(from_decimals - PRICE_DECIMALS);
        proof {
            lemma_pow10_fits((from_decimals - PRICE_DECIMALS) as nat);
        }
        match price.checked_div(divisor) {
            Some(v) => Ok(v),
            None => Err(RouterError::InvalidPrice),
        }
    }
}

/// Timestamps above this can only be milliseconds (`1e11` seconds is the
/// year 5138).
pub open spec fn millis_threshold() -> u64 {
    100_000_000_000
}

/// A feed timestamp in seconds: values past [`millis_threshold`] are read as
/// milliseconds and divided by 1000.
pub open spec fn seconds_of(ts: u64) -> u64 {
    if ts > millis_threshold() {
        (ts / 1000) as u64
    } else {
        ts
    }
}

/// A timestamp `ts` (seconds) is unusable at time `now`: it lies in the
/// future, or more than `max_age` seconds in the past.
pub open spec fn is_stale(ts: u64, now: u64, max_age: u64) -> bool {
    ts > now || now - ts > max_age
}

/// How validating one feed's reading ends: `Ok(Ok(p))` for a usable price
/// (present, fresh, rescaled to `PRICE_DECIMALS`, positive both before and
/// after rescaling, and stamped in seconds), `Ok(Err(e))` for a feed that
/// cannot be used and why, and `Err(e)` when rescaling overflows, which fails
/// the whole price request.
pub open spec fn fetch_spec(
    spec: FeedSpecView,
    reading: Option<PriceData>,
    now: u64,
    max_age: u64,
) -> Result<Result<PriceData, RouterError>, RouterError> {
    match reading {
        None => Ok(Err(RouterError::NoPrice)),
        Some(pd) => {
            if pd.price <= 0 {
                Ok(Err(RouterError::InvalidPrice))
            } else if is_stale(seconds_of(pd.timestamp), now, max_age) {
                Ok(Err(RouterError::StalePrice))
            } else {
                match normalize_spec(pd.price, spec.feed_decimals) {
                    Ok(p) => if p <= 0 {
                        Ok(Err(RouterError::InvalidPrice))
                    } else {
                        Ok(Ok(PriceData { price: p, timestamp: seconds_of(pd.timestamp) }))
                    },
                    Err(e) => Err(e),
                }
            }
        },
    }
}

/// Validating a reading does not overflow: a reading that reaches rescaling
/// comes from a feed whose decimals can be rescaled.
pub open spec fn fetch_defined(
    spec: FeedSpecView,
    reading: Option<PriceData>,
    now: u64,
    max_age: u64,
) -> bool {
    match reading {
        None => true,
        Some(pd) => pd.price > 0 && !is_stale(seconds_of(pd.timestamp), now, max_age)
            ==> normalize_defined(spec.feed_decimals),
    }
}

/// Validate and normalize one feed's reading (`None` when the feed had no
/// price or could not be queried) at ledger time `now`. An `Err` result means
/// the price request as a whole fails with that error.
pub fn fetch_one(spec: &FeedSpec, reading: Option<PriceData>, now: u64, max_age: u64) -> (r: Result<
    Result<PriceData, RouterError>,
    RouterError,
>)
    requires
        fetch_defined(spec@, reading, now, max_age),
    ensures
        r == fetch_spec(spec@, reading, now, max_age),
        r matches Ok(Ok(p)) ==> p.price > 0,
{
    let pd = match reading {
        Some(pd) => pd,
        None => return Ok(Err(RouterError::NoPrice)),
    };
    if pd.price <= 0 {
        return Ok(Err(RouterError::InvalidPrice));
    }
    let ts = if pd.timestamp > 100_000_000_000 {
        pd.timestamp / 1000
    } else {
        pd.timestamp
    };
    if ts > now || now - ts > max_age {
        return Ok(Err(RouterError::StalePrice));
    }
    let p = match normalize(pd.price, spec.feed_decimals) {
        Ok(p) => p,
        Err(e) => return Err(e),
    };
    if p <= 0 {
        return Ok(Err(RouterError::InvalidPrice));
    }
    Ok(Ok(PriceData { price: p, timestamp: ts }))
}

/// Going through the feeds' outcomes in order: the usable prices and the
/// first feed error met, or the error that ended the request early.
pub open spec fn scan(outcomes: Seq<Result<Result<PriceData, RouterError>, RouterError>>) -> Result<
    (Seq<PriceData>, Option<RouterError>),
    RouterError,
>
    decreases outcomes.len(),
{
    if outcomes.len() == 0 {
        Ok((Seq::empty(), None))
    } else {
        match scan(outcomes.drop_last()) {
            Err(e) => Err(e),
            Ok((valid, first_err)) => match outcomes.last() {
                Err(e) => Err(e),
                Ok(Ok(p)) => Ok((valid.push(p), first_err)),
                Ok(Err(e)) => Ok((valid, if first_err is Some { first_err } else { Some(e) })),
            },
        }
    }
}

/// Once the scan has ended early, further outcomes do not change it.
pub proof fn lemma_scan_stops(outcomes: Seq<Result<Result<PriceData, RouterError>, RouterError>>, n: int)
    requires
        0 <= n <= outcomes.len(),
        scan(outcomes.take(n)) is Err,
    ensures
        scan(outcomes) == scan(outcomes.take(n)),
    decreases outcomes.len(),
{
    if n == outcomes.len() {
        assert(outcomes.take(n) =~= outcomes);
    } else {
        let prev = outcomes.drop_last();
        assert(prev.take(n) =~= outcomes.take(n));
        lemma_scan_stops(prev, n);
    }
}

/// The smaller of two integers.
pub open spec fn min_int(a: int, b: int) -> int {
    if a <= b {
        a
    } else {
        b
    }
}

/// The larger of two integers.
pub open spec fn max_int(a: int, b: int) -> int {
    if a <= b {
        b
    } else {
        a
    }
}

/// Basis points in a whole.
pub open spec fn bps_scale() -> int {
    10_000
}

/// Two usable prices combined: their gap, relative to the lower one, must not
/// exceed `max_divergence_bps` basis points (`InvalidPrice` when either side of
/// that comparison leaves `i128`, `Divergence` when it fails); the result is
/// their midpoint, rounded toward zero, stamped with the older timestamp.
pub open spec fn two_feed_spec(a: PriceData, b: PriceData, max_divergence_bps: u32) -> Result<
    PriceData,
    RouterError,
> {
    let lo = min_int(a.price as int, b.price as int);
    let hi = max_int(a.price as int, b.price as int);
    let gap = (hi - lo) * bps_scale();
    let bound = lo * max_divergence_bps;
    if gap > i128::MAX || gap < i128::MIN {
        Err(RouterError::InvalidPrice)
    } else if bound > i128::MAX || bound < i128::MIN {
        Err(RouterError::InvalidPrice)
    } else if gap > bound {
        Err(RouterError::Divergence)
    } else {
        Ok(
            PriceData {
                price: div_toward_zero(a.price + b.price, 2) as i128,
                timestamp: min_int(a.timestamp as int, b.timestamp as int) as u64,
            },
        )
    }
}

/// The midpoint of two prices that pass the divergence check can be summed
/// within `i128`.
pub open spec fn two_feed_defined(a: PriceData, b: PriceData, max_divergence_bps: u32) -> bool {
    two_feed_spec(a, b, max_divergence_bps) is Ok ==> a.price + b.price <= i128::MAX
}

/// The router's answer from the usable prices, the first error and the number
/// of feeds: no usable price gives the first error (`NoPrice` if there was
/// none); one usable price is returned unless several feeds are configured
/// and single-source answers are not allowed (`SingleSource`); two usable
/// prices are combined by [`two_feed_spec`].
pub open spec fn decide_spec(
    valid: Seq<PriceData>,
    first_err: Option<RouterError>,
    n_feeds: nat,
    allow_single: bool,
    max_divergence_bps: u32,
) -> Result<PriceData, RouterError> {
    if valid.len() == 0 {
        match first_err {
            Some(e) => Err(e),
            None => Err(RouterError::NoPrice),
        }
    } else if valid.len() == 1 {
        if n_feeds > 1 && !allow_single {
            Err(RouterError::SingleSource)
        } else {
            Ok(valid[0])
        }
    } else {
        two_feed_spec(valid[0], valid[1], max_divergence_bps)
    }
}

/// Combining the usable prices does not overflow.
pub open spec fn decide_defined(valid: Seq<PriceData>, max_divergence_bps: u32) -> bool {
    valid.len() >= 2 ==> two_feed_defined(valid[0], valid[1], max_divergence_bps)
}

/// Whether validating `reading` would overflow while rescaling: the reading
/// is present, positive and fresh, and the feed's decimals cannot be
/// rescaled.
pub fn fetch_overflows(spec: &FeedSpec, reading: Option<PriceData>, now: u64, max_age: u64) -> (b:
    bool)
    ensures
        b == !fetch_defined(spec@, reading, now, max_age),
{
    match reading {
        None => false,
        Some(pd) => {
            let ts = if pd.timestamp > 100_000_000_000 {
                pd.timestamp / 1000
            } else {
                pd.timestamp
            };
            let fresh = !(ts > now || now - ts > max_age);
            pd.price > 0 && fresh && spec.feed_decimals > PRICE_DECIMALS + 38
        },
    }
}

/// Combine two usable, non-negative prices; `None` when their midpoint
/// cannot be summed within `i128`.
fn two_feed(a: PriceData, b: PriceData, max_divergence_bps: u32) -> (r: Option<
    Result<PriceData, RouterError>,
>)
    requires
        a.price >= 0,
        b.price >= 0,
    ensures
        r is None <==> !two_feed_defined(a, b, max_divergence_bps),
        r matches Some(x) ==> x == two_feed_spec(a, b, max_divergence_bps),
{
    let (lo, hi) = if a.price <= b.price {
        (a.price, b.price)
    } else {
        (b.price, a.price)
    };
    let gap = match (hi - lo).checked_mul(10_000) {
        Some(g) => g,
        None => return Some(Err(RouterError::InvalidPrice)),
    };
    let bound = match lo.checked_mul(max_divergence_bps as i128) {
        Some(x) => x,
        None => return Some(Err(RouterError::InvalidPrice)),
    };
    if gap > bound {
        return Some(Err(RouterError::Divergence));
    }
    let sum = match a.price.checked_add(b.price) {
        Some(s) => s,
        None => return None,
    };
    let mid = match sum.checked_div(2) {
        Some(m) => m,
        None => return None,
    };
    let ts = if a.timestamp <= b.timestamp {
        a.timestamp
    } else {
        b.timestamp
    };
    Some(Ok(PriceData { price: mid, timestamp: ts }))
}

/// The router's answer from the usable prices (non-negative, in feed order),
/// the first error met and the number of configured feeds; `None` when the
/// midpoint of two usable prices cannot be summed within `i128`.
pub fn decide(
    valid: &Vec<PriceData>,
    first_err: Option<RouterError>,
    n_feeds: usize,
    allow_single: bool,
    max_divergence_bps: u32,
) -> (r: Option<Result<PriceData, RouterError>>)
    requires
        forall|i: int| 0 <= i < valid@.len() ==> (#[trigger] valid@[i]).price >= 0,
    ensures
        r is None <==> !decide_defined(valid@, max_divergence_bps),
        r matches Some(x) ==> x == decide_spec(
            valid@,
            first_err,
            n_feeds as nat,
            allow_single,
            max_divergence_bps,
        ),
{
    if valid.len() == 0 {
        match first_err {
            Some(e) => Some(Err(e)),
            None => Some(Err(RouterError::NoPrice)),
        }
    } else if valid.len() == 1 {
        if n_feeds > 1 && !allow_single {
            Some(Err(RouterError::SingleSource))
        } else {
            Some(Ok(valid[0]))
        }
    } else {
        two_feed(valid[0], valid[1], max_divergence_bps)
    }
}

} // verus!
