//! Properties of the router's answer that hold for every configuration and
//! every set of readings.
use vstd::prelude::*;
use crate::factory::FactoryView;
use crate::mock_feed::MockFeedView;
use crate::pricing::{
    div_toward_zero, fetch_spec, lemma_scan_stops, max_int, min_int, normalize_defined,
    normalize_spec, pow10, scan, seconds_of, two_feed_spec,
};
use crate::router::{
    apply_op, apply_ops, fetch_outcomes, initial_view, price_spec, reading_at, RouterOp, RouterView,
    MAX_FEEDS,
};
use crate::types::{Address, AssetView, FeedSpecView, PriceData, RouterError, PRICE_DECIMALS};

verus! {

proof fn lemma_scan_all(
    outcomes: Seq<Result<Result<PriceData, RouterError>, RouterError>>,
    p: spec_fn(PriceData) -> bool,
)
    requires
        forall|j: int| 0 <= j < outcomes.len() ==> (#[trigger] outcomes[j] matches Ok(Ok(x)) ==> p(x)),
    ensures
        scan(outcomes) matches Ok((valid, _)) ==> forall|k: int| 0 <= k < valid.len() ==> p(#[trigger] valid[k]),
    decreases outcomes.len(),
{
    if outcomes.len() > 0 {
        let prev = outcomes.drop_last();
        assert forall|j: int| 0 <= j < prev.len() implies (#[trigger] prev[j] matches Ok(Ok(x)) ==> p(x)) by {
            assert(prev[j] == outcomes[j]);
        }
        lemma_scan_all(prev, p);
        assert(outcomes[outcomes.len() - 1] == outcomes.last());
        if let Ok((pv, _)) = scan(prev) {
            if let Ok((v, _)) = scan(outcomes) {
                assert forall|k: int| 0 <= k < v.len() implies p(#[trigger] v[k]) by {
                    if k < pv.len() {
                        assert(v[k] == pv[k]);
                    }
                }
            }
        }
    }
}

proof fn lemma_scan_ok(outcomes: Seq<Result<Result<PriceData, RouterError>, RouterError>>)
    requires
        forall|j: int| 0 <= j < outcomes.len() ==> #[trigger] outcomes[j] is Ok,
    ensures
        scan(outcomes) is Ok,
    decreases outcomes.len(),
{
    if outcomes.len() > 0 {
        let prev = outcomes.drop_last();
        assert forall|j: int| 0 <= j < prev.len() implies #[trigger] prev[j] is Ok by {
            assert(prev[j] == outcomes[j]);
        }
        lemma_scan_ok(prev);
        assert(outcomes[outcomes.len() - 1] == outcomes.last());
    }
}

proof fn lemma_scan_unusable(outcomes: Seq<Result<Result<PriceData, RouterError>, RouterError>>)
    requires
        outcomes.len() >= 1,
        forall|j: int| 0 <= j < outcomes.len() ==> #[trigger] outcomes[j] matches Ok(Err(_)),
    ensures
        scan(outcomes) == Ok::<(Seq<PriceData>, Option<RouterError>), RouterError>(
            (Seq::empty(), Some(outcomes[0]->Ok_0->Err_0)),
        ),
    decreases outcomes.len(),
{
    let prev = outcomes.drop_last();
    assert(outcomes[outcomes.len() - 1] == outcomes.last());
    if outcomes.len() > 1 {
        assert forall|j: int| 0 <= j < prev.len() implies #[trigger] prev[j] matches Ok(Err(_)) by {
            assert(prev[j] == outcomes[j]);
        }
        assert(prev[0] == outcomes[0]);
        lemma_scan_unusable(prev);
    } else {
        assert(prev.len() == 0);
        assert(scan(prev) == Ok::<(Seq<PriceData>, Option<RouterError>), RouterError>((Seq::empty(), None)));
        assert(outcomes.last() == outcomes[0]);
    }
}

proof fn lemma_fetch_ok_usable(spec: FeedSpecView, reading: Option<PriceData>, now: u64, max_age: u64)
    ensures
        fetch_spec(spec, reading, now, max_age) matches Ok(Ok(p)) ==> p.timestamp <= now && now
            - p.timestamp <= max_age && p.price > 0,
{
}

/// Two usable prices are combined only when their gap is within the
/// divergence bound; the answer is their midpoint, between the two, stamped
/// with the older of their timestamps.
pub proof fn law_two_feed_midpoint(a: PriceData, b: PriceData, max_divergence_bps: u32)
    requires
        a.price >= 0,
        b.price >= 0,
        two_feed_spec(a, b, max_divergence_bps) is Ok,
    ensures
        ({
            let r = two_feed_spec(a, b, max_divergence_bps)->Ok_0;
            let lo = min_int(a.price as int, b.price as int);
            let hi = max_int(a.price as int, b.price as int);
            &&& (hi - lo) * 10_000 <= lo * max_divergence_bps
            &&& lo <= r.price <= hi
            &&& r.price == (a.price + b.price) / 2
            &&& r.timestamp == min_int(a.timestamp as int, b.timestamp as int)
        }),
{
}

/// Combining two usable prices does not depend on which feed gave which.
pub proof fn law_two_feed_symmetric(a: PriceData, b: PriceData, max_divergence_bps: u32)
    ensures
        two_feed_spec(a, b, max_divergence_bps) == two_feed_spec(b, a, max_divergence_bps),
{
    assert(a.price + b.price == b.price + a.price);
}

/// Every price the router returns is fresh at `now` (not in the future, at
/// most the configured age old) and positive.
pub proof fn law_price_fresh_and_positive(
    v: RouterView,
    token: Address,
    readings: Seq<Option<PriceData>>,
    now: u64,
)
    requires
        price_spec(v, token, readings, now) is Ok,
    ensures
        ({
            let p = price_spec(v, token, readings, now)->Ok_0;
            &&& p.timestamp <= now
            &&& now - p.timestamp <= v.max_age_secs
            &&& p.price > 0
        }),
{
    let specs = v.feeds[token];
    let outcomes = fetch_outcomes(specs, readings, now, v.max_age_secs);
    let good = |x: PriceData| x.timestamp <= now && now - x.timestamp <= v.max_age_secs && x.price > 0;
    assert forall|j: int| 0 <= j < outcomes.len() implies (#[trigger] outcomes[j] matches Ok(Ok(x)) ==> good(x)) by {
        lemma_fetch_ok_usable(specs[j], reading_at(readings, j), now, v.max_age_secs);
    }
    lemma_scan_all(outcomes, good);
    if let Ok((valid, _)) = scan(outcomes) {
        if valid.len() >= 2 {
            assert(good(valid[0]));
            assert(good(valid[1]));
        } else if valid.len() == 1 {
            assert(good(valid[0]));
        }
    }
}

/// When no feed of a registered token is usable, the router reports the
/// primary feed's error.
pub proof fn law_primary_error_reported(
    v: RouterView,
    token: Address,
    readings: Seq<Option<PriceData>>,
    now: u64,
)
    requires
        v.feeds.contains_key(token),
        v.feeds[token].len() >= 1,
        forall|i: int|
            0 <= i < v.feeds[token].len() ==> fetch_spec(
                #[trigger] v.feeds[token][i],
                reading_at(readings, i),
                now,
                v.max_age_secs,
            ) matches Ok(Err(_)),
    ensures
        price_spec(v, token, readings, now) == Err::<PriceData, RouterError>(
            fetch_spec(v.feeds[token][0], reading_at(readings, 0), now, v.max_age_secs)->Ok_0->Err_0,
        ),
{
    let specs = v.feeds[token];
    let outcomes = fetch_outcomes(specs, readings, now, v.max_age_secs);
    assert forall|j: int| 0 <= j < outcomes.len() implies #[trigger] outcomes[j] matches Ok(Err(_)) by {
        assert(outcomes[j] == fetch_spec(specs[j], reading_at(readings, j), now, v.max_age_secs));
    }
    lemma_scan_unusable(outcomes);
}

/// The first feed, in order, whose usable reading cannot be rescaled fails
/// the whole request with its error, whatever the other feeds give.
pub proof fn law_rescaling_failure_fails_request(
    v: RouterView,
    token: Address,
    readings: Seq<Option<PriceData>>,
    now: u64,
    k: int,
)
    requires
        v.feeds.contains_key(token),
        0 <= k < v.feeds[token].len(),
        fetch_spec(v.feeds[token][k], reading_at(readings, k), now, v.max_age_secs) is Err,
        forall|i: int|
            0 <= i < k ==> fetch_spec(
                #[trigger] v.feeds[token][i],
                reading_at(readings, i),
                now,
                v.max_age_secs,
            ) is Ok,
    ensures
        price_spec(v, token, readings, now) == Err::<PriceData, RouterError>(
            fetch_spec(v.feeds[token][k], reading_at(readings, k), now, v.max_age_secs)->Err_0,
        ),
{
    let specs = v.feeds[token];
    let outcomes = fetch_outcomes(specs, readings, now, v.max_age_secs);
    let pre = outcomes.take(k);
    assert forall|j: int| 0 <= j < pre.len() implies #[trigger] pre[j] is Ok by {
        assert(pre[j] == fetch_spec(specs[j], reading_at(readings, j), now, v.max_age_secs));
    }
    lemma_scan_ok(pre);
    assert(outcomes.take(k + 1).drop_last() =~= pre);
    assert(outcomes.take(k + 1).last() == outcomes[k]);
    lemma_scan_stops(outcomes, k + 1);
}

/// With two feeds of which exactly one is usable, a router that allows a
/// single source answers with that feed's price; a strict one refuses with
/// `SingleSource`.
pub proof fn law_single_source(
    v: RouterView,
    token: Address,
    readings: Seq<Option<PriceData>>,
    now: u64,
    k: int,
)
    requires
        v.feeds.contains_key(token),
        v.feeds[token].len() == 2,
        0 <= k < 2,
        fetch_spec(v.feeds[token][k], reading_at(readings, k), now, v.max_age_secs) matches Ok(Ok(_)),
        fetch_spec(v.feeds[token][1 - k], reading_at(readings, 1 - k), now, v.max_age_secs) matches Ok(Err(_)),
    ensures
        price_spec(v, token, readings, now) == (if v.allow_single {
            fetch_spec(v.feeds[token][k], reading_at(readings, k), now, v.max_age_secs)->Ok_0
        } else {
            Err(RouterError::SingleSource)
        }),
{
    let specs = v.feeds[token];
    let outcomes = fetch_outcomes(specs, readings, now, v.max_age_secs);
    assert(outcomes.drop_last().drop_last().len() == 0);
    assert(outcomes.drop_last().last() == outcomes[0]);
    assert(outcomes.last() == outcomes[1]);
    reveal_with_fuel(scan, 3);
}

/// A token configured with a single feed is priced by that feed alone,
/// whatever the single-source setting.
pub proof fn law_one_feed(v: RouterView, token: Address, readings: Seq<Option<PriceData>>, now: u64)
    requires
        v.feeds.contains_key(token),
        v.feeds[token].len() == 1,
    ensures
        price_spec(v, token, readings, now) == (match fetch_spec(
            v.feeds[token][0],
            reading_at(readings, 0),
            now,
            v.max_age_secs,
        ) {
            Ok(r) => r,
            Err(e) => Err(e),
        }),
{
    let specs = v.feeds[token];
    let outcomes = fetch_outcomes(specs, readings, now, v.max_age_secs);
    assert(outcomes.drop_last().len() == 0);
    assert(outcomes.last() == outcomes[0]);
    reveal_with_fuel(scan, 2);
}

/// Two usable feeds of a registered token are combined into their midpoint,
/// whatever the single-source setting.
pub proof fn law_two_usable_feeds(
    v: RouterView,
    token: Address,
    readings: Seq<Option<PriceData>>,
    now: u64,
)
    requires
        v.feeds.contains_key(token),
        v.feeds[token].len() == 2,
        fetch_spec(v.feeds[token][0], reading_at(readings, 0), now, v.max_age_secs) matches Ok(Ok(_)),
        fetch_spec(v.feeds[token][1], reading_at(readings, 1), now, v.max_age_secs) matches Ok(Ok(_)),
    ensures
        price_spec(v, token, readings, now) == two_feed_spec(
            fetch_spec(v.feeds[token][0], reading_at(readings, 0), now, v.max_age_secs)->Ok_0->Ok_0,
            fetch_spec(v.feeds[token][1], reading_at(readings, 1), now, v.max_age_secs)->Ok_0->Ok_0,
            v.max_divergence_bps,
        ),
{
    let specs = v.feeds[token];
    let outcomes = fetch_outcomes(specs, readings, now, v.max_age_secs);
    assert(outcomes.drop_last().drop_last().len() == 0);
    assert(outcomes.drop_last().last() == outcomes[0]);
    assert(outcomes.last() == outcomes[1]);
    reveal_with_fuel(scan, 3);
}

/// A feed reading stamped in milliseconds past the year 5138 threshold is
/// read as seconds: its timestamp is divided by 1000.
pub proof fn law_millisecond_timestamps(seconds: u64)
    requires
        seconds * 1000 <= u64::MAX,
        seconds * 1000 > 100_000_000_000,
    ensures
        seconds_of((seconds * 1000) as u64) == seconds,
{
}

/// Rescaling from fewer decimals than `PRICE_DECIMALS` multiplies by the
/// matching power of ten when the product fits; from more decimals it divides,
/// rounding toward zero.
pub proof fn law_normalize_scales(price: i128, from_decimals: u32)
    requires
        normalize_defined(from_decimals),
    ensures
        from_decimals <= PRICE_DECIMALS && normalize_spec(price, from_decimals) is Ok ==> normalize_spec(price, from_decimals)->Ok_0
            == price * pow10((PRICE_DECIMALS - from_decimals) as nat),
        from_decimals > PRICE_DECIMALS ==> normalize_spec(price, from_decimals) == Ok::<i128, RouterError>(
            div_toward_zero(price as int, pow10((from_decimals - PRICE_DECIMALS) as nat)) as i128,
        ),
{
    if from_decimals == PRICE_DECIMALS {
        assert(pow10(0) == 1);
    }
}

/// Registering feeds for one token leaves the price of every other token
/// exactly as it was, whatever the readings.
pub proof fn law_set_feeds_isolated(
    before: RouterView,
    token: Address,
    specs: Seq<FeedSpecView>,
    other: Address,
    readings: Seq<Option<PriceData>>,
    now: u64,
)
    requires
        other != token,
    ensures
        price_spec(apply_op(before, RouterOp::SetFeeds(token, specs)), other, readings, now)
            == price_spec(before, other, readings, now),
{
}

/// An accepted feed list (one or two feeds) is stored exactly as given, in
/// the given order, so its first feed is the primary one; every other token
/// and every setting is untouched. Any other list changes nothing.
pub proof fn law_set_feeds_read_back(
    before: RouterView,
    token: Address,
    specs: Seq<FeedSpecView>,
    other: Address,
)
    requires
        other != token,
    ensures
        ({
            let after = apply_op(before, RouterOp::SetFeeds(token, specs));
            &&& 1 <= specs.len() <= 2 ==> {
                &&& after.feeds.contains_key(token)
                &&& after.feeds[token] == specs
                &&& forall|i: int| 0 <= i < specs.len() ==> after.feeds[token][i] == specs[i]
            }
            &&& !(1 <= specs.len() <= 2) ==> after == before
            &&& after.feeds.contains_key(other) == before.feeds.contains_key(other)
            &&& before.feeds.contains_key(other) ==> after.feeds[other] == before.feeds[other]
            &&& after.admin == before.admin
            &&& after.max_age_secs == before.max_age_secs
            &&& after.max_divergence_bps == before.max_divergence_bps
            &&& after.allow_single == before.allow_single
        }),
{
}

/// Each setting change stores exactly the value given and leaves the other
/// settings and every token's feeds untouched.
pub proof fn law_settings_read_back(before: RouterView, max_age: u64, bps: u32, allow: bool)
    ensures
        ({
            let a = apply_op(before, RouterOp::SetMaxAge(max_age));
            &&& a.max_age_secs == max_age
            &&& a.admin == before.admin && a.max_divergence_bps == before.max_divergence_bps
            &&& a.allow_single == before.allow_single && a.feeds == before.feeds
        }),
        ({
            let d = apply_op(before, RouterOp::SetDivergence(bps));
            &&& d.max_divergence_bps == bps
            &&& d.admin == before.admin && d.max_age_secs == before.max_age_secs
            &&& d.allow_single == before.allow_single && d.feeds == before.feeds
        }),
        ({
            let s = apply_op(before, RouterOp::SetAllowSingle(allow));
            &&& s.allow_single == allow
            &&& s.admin == before.admin && s.max_age_secs == before.max_age_secs
            &&& s.max_divergence_bps == before.max_divergence_bps && s.feeds == before.feeds
        }),
{
}

/// After a price is set for an asset, the feed reports it for that asset and
/// still reports the earlier prices of every other asset.
pub proof fn law_set_price_read_back(
    before: MockFeedView,
    asset: AssetView,
    price: i128,
    timestamp: u64,
    other: AssetView,
)
    requires
        other != asset,
    ensures
        ({
            let after = MockFeedView {
                prices: before.prices.insert(asset, PriceData { price, timestamp }),
                ..before
            };
            &&& after.prices.contains_key(asset)
            &&& after.prices[asset] == PriceData { price, timestamp }
            &&& after.prices.contains_key(other) == before.prices.contains_key(other)
            &&& before.prices.contains_key(other) ==> after.prices[other] == before.prices[other]
        }),
{
}

/// Creating a folio adds it as the newest entry of the registry and keeps
/// every earlier folio in place; new folio code never touches the registry.
pub proof fn law_registry_append_only(before: FactoryView, folio: Address, new_hash: Seq<u8>)
    ensures
        ({
            let created = FactoryView { folios: before.folios.push(folio), ..before };
            &&& created.folios.len() == before.folios.len() + 1
            &&& created.folios.last() == folio
            &&& forall|i: int| 0 <= i < before.folios.len() ==> created.folios[i] == before.folios[i]
        }),
        (FactoryView { wasm_hash: new_hash, ..before }).folios == before.folios,
{
}

/// Whatever history of changes a router goes through after its creation,
/// every registered token has one or two feeds.
pub proof fn law_registered_tokens_have_one_or_two_feeds(
    admin: Address,
    max_age_secs: u64,
    max_divergence_bps: u32,
    allow_single: bool,
    ops: Seq<RouterOp>,
    token: Address,
)
    ensures
        ({
            let v = apply_ops(initial_view(admin, max_age_secs, max_divergence_bps, allow_single), ops);
            v.feeds.contains_key(token) ==> 1 <= v.feeds[token].len() <= MAX_FEEDS
        }),
    decreases ops.len(),
{
    if ops.len() > 0 {
        law_registered_tokens_have_one_or_two_feeds(
            admin,
            max_age_secs,
            max_divergence_bps,
            allow_single,
            ops.drop_last(),
            token,
        );
    }
}

/// A token that no accepted feed list has named since the router's creation
/// is not registered: reading its feeds gives none, and its price is
/// `NoFeed`.
pub proof fn law_unregistered_until_set(
    admin: Address,
    max_age_secs: u64,
    max_divergence_bps: u32,
    allow_single: bool,
    ops: Seq<RouterOp>,
    token: Address,
    readings: Seq<Option<PriceData>>,
    now: u64,
)
    requires
        forall|i: int|
            0 <= i < ops.len() ==> !(#[trigger] ops[i] matches RouterOp::SetFeeds(t, specs) && t
                == token && 1 <= specs.len() <= MAX_FEEDS),
    ensures
        ({
            let v = apply_ops(initial_view(admin, max_age_secs, max_divergence_bps, allow_single), ops);
            &&& !v.feeds.contains_key(token)
            &&& price_spec(v, token, readings, now) == Err::<PriceData, RouterError>(RouterError::NoFeed)
        }),
    decreases ops.len(),
{
    if ops.len() > 0 {
        let prev = ops.drop_last();
        assert forall|i: int|
            0 <= i < prev.len() implies !(#[trigger] prev[i] matches RouterOp::SetFeeds(t, specs) && t
                == token && 1 <= specs.len() <= MAX_FEEDS) by {
            assert(prev[i] == ops[i]);
        }
        law_unregistered_until_set(
            admin,
            max_age_secs,
            max_divergence_bps,
            allow_single,
            prev,
            token,
            readings,
            now,
        );
        assert(ops[ops.len() - 1] == ops.last());
    }
}

/// `pow10` is the power of ten.
pub proof fn law_pow10_is_power_of_ten(n: nat)
    ensures
        pow10(n) == vstd::arithmetic::power::pow(10, n),
    decreases n,
{
    reveal(vstd::arithmetic::power::pow);
    if n > 0 {
        law_pow10_is_power_of_ten((n - 1) as nat);
    }
}

/// Rescaling a price: with `PRICE_DECIMALS` decimals it is unchanged; with
/// fewer it is multiplied by ten per missing decimal, failing with
/// `InvalidPrice` exactly when the product leaves `i128`; with more it is
/// divided by ten per extra decimal, rounding toward zero.
pub proof fn law_normalize_exact(price: i128, from_decimals: u32)
    requires
        from_decimals <= 52,
    ensures
        from_decimals == 14 ==> normalize_spec(price, from_decimals) == Ok::<i128, RouterError>(price),
        from_decimals < 14 ==> ({
            let v = price * vstd::arithmetic::power::pow(10, (14 - from_decimals) as nat);
            normalize_spec(price, from_decimals) == if i128::MIN <= v <= i128::MAX {
                Ok::<i128, RouterError>(v as i128)
            } else {
                Err(RouterError::InvalidPrice)
            }
        }),
        from_decimals > 14 ==> ({
            let d = vstd::arithmetic::power::pow(10, (from_decimals - 14) as nat);
            normalize_spec(price, from_decimals) == Ok::<i128, RouterError>(
                (if price >= 0 { (price as int) / d } else { -((-(price as int)) / d) }) as i128,
            )
        }),
{
    if from_decimals < 14 {
        law_pow10_is_power_of_ten((14 - from_decimals) as nat);
    } else if from_decimals > 14 {
        law_pow10_is_power_of_ten((from_decimals - 14) as nat);
    }
}

/// A usable reading keeps its own time (seconds; a stamp above 1e11 is in
/// milliseconds and divided by 1000) and its price rescaled to
/// `PRICE_DECIMALS`, which is positive.
pub proof fn law_usable_reading_keeps_its_values(
    spec: FeedSpecView,
    reading: Option<PriceData>,
    now: u64,
    max_age: u64,
)
    requires
        fetch_spec(spec, reading, now, max_age) matches Ok(Ok(_)),
    ensures
        ({
            let p = fetch_spec(spec, reading, now, max_age)->Ok_0->Ok_0;
            let pd = reading->Some_0;
            let ts = if pd.timestamp > 100_000_000_000 { pd.timestamp / 1000 } else { pd.timestamp };
            &&& reading is Some
            &&& pd.price > 0
            &&& p.timestamp == ts
            &&& ts <= now && now - ts <= max_age
            &&& normalize_spec(pd.price, spec.feed_decimals) == Ok::<i128, RouterError>(p.price)
            &&& p.price > 0
        }),
{
}

/// A reading that is present, positive and fresh, and whose rescaling gives a
/// positive value, is usable: it yields exactly that value, stamped with the
/// reading's own time in seconds.
pub proof fn law_fresh_positive_reading_is_usable(
    spec: FeedSpecView,
    pd: PriceData,
    now: u64,
    max_age: u64,
    p: i128,
)
    requires
        pd.price > 0,
        ({
            let ts = if pd.timestamp > 100_000_000_000 { pd.timestamp / 1000 } else { pd.timestamp };
            ts <= now && now - ts <= max_age
        }),
        normalize_spec(pd.price, spec.feed_decimals) == Ok::<i128, RouterError>(p),
        p > 0,
    ensures
        fetch_spec(spec, Some(pd), now, max_age) == Ok::<Result<PriceData, RouterError>, RouterError>(
            Ok(
                PriceData {
                    price: p,
                    timestamp: if pd.timestamp > 100_000_000_000 {
                        (pd.timestamp / 1000) as u64
                    } else {
                        pd.timestamp
                    },
                },
            ),
        ),
{
}

/// Two non-negative prices whose gap (times 10_000) and bound (lower price
/// times `max_divergence_bps`) both fit in `i128`: they are combined exactly
/// when the gap is within the bound, into their midpoint stamped with the
/// older timestamp; otherwise the answer is `Divergence`. `InvalidPrice` comes
/// only when one side of the comparison leaves `i128`.
pub proof fn law_two_feed_exact(a: PriceData, b: PriceData, max_divergence_bps: u32)
    requires
        a.price >= 0,
        b.price >= 0,
    ensures
        ({
            let lo: int = if a.price <= b.price { a.price as int } else { b.price as int };
            let hi: int = if a.price <= b.price { b.price as int } else { a.price as int };
            let gap = (hi - lo) * 10_000;
            let bound = lo * max_divergence_bps;
            let r = two_feed_spec(a, b, max_divergence_bps);
            &&& (gap <= i128::MAX && bound <= i128::MAX && gap <= bound) ==> r
                == Ok::<PriceData, RouterError>(
                PriceData {
                    price: ((a.price + b.price) / 2) as i128,
                    timestamp: if a.timestamp <= b.timestamp { a.timestamp } else { b.timestamp },
                },
            )
            &&& (gap <= i128::MAX && bound <= i128::MAX && gap > bound) ==> r == Err::<PriceData, RouterError>(
                RouterError::Divergence,
            )
            &&& r == Err::<PriceData, RouterError>(RouterError::InvalidPrice) <==> (gap > i128::MAX
                || bound > i128::MAX)
        }),
{
    assert(max_divergence_bps >= 0);
    let lo: int = if a.price <= b.price { a.price as int } else { b.price as int };
    assert(lo * max_divergence_bps >= 0) by (nonlinear_arith)
        requires
            lo >= 0,
            max_divergence_bps >= 0,
    ;
}

/// With two feeds both usable, the router answers as two prices combine:
/// within the bound (and without overflow) the midpoint of the two rescaled
/// prices with the older of their timestamps, whatever the single-source
/// setting.
pub proof fn law_two_usable_feeds_midpoint(
    v: RouterView,
    token: Address,
    readings: Seq<Option<PriceData>>,
    now: u64,
)
    requires
        v.feeds.contains_key(token),
        v.feeds[token].len() == 2,
        fetch_spec(v.feeds[token][0], reading_at(readings, 0), now, v.max_age_secs) matches Ok(Ok(_)),
        fetch_spec(v.feeds[token][1], reading_at(readings, 1), now, v.max_age_secs) matches Ok(Ok(_)),
    ensures
        ({
            let a = fetch_spec(v.feeds[token][0], reading_at(readings, 0), now, v.max_age_secs)->Ok_0->Ok_0;
            let b = fetch_spec(v.feeds[token][1], reading_at(readings, 1), now, v.max_age_secs)->Ok_0->Ok_0;
            let lo: int = if a.price <= b.price { a.price as int } else { b.price as int };
            let hi: int = if a.price <= b.price { b.price as int } else { a.price as int };
            ((hi - lo) * 10_000 <= i128::MAX && lo * v.max_divergence_bps <= i128::MAX && (hi - lo)
                * 10_000 <= lo * v.max_divergence_bps) ==> price_spec(v, token, readings, now) == Ok::<
                PriceData,
                RouterError,
            >(
                PriceData {
                    price: ((a.price + b.price) / 2) as i128,
                    timestamp: if a.timestamp <= b.timestamp { a.timestamp } else { b.timestamp },
                },
            )
        }),
{
    let a = fetch_spec(v.feeds[token][0], reading_at(readings, 0), now, v.max_age_secs)->Ok_0->Ok_0;
    let b = fetch_spec(v.feeds[token][1], reading_at(readings, 1), now, v.max_age_secs)->Ok_0->Ok_0;
    law_two_usable_feeds(v, token, readings, now);
    lemma_fetch_ok_usable(v.feeds[token][0], reading_at(readings, 0), now, v.max_age_secs);
    lemma_fetch_ok_usable(v.feeds[token][1], reading_at(readings, 1), now, v.max_age_secs);
    law_two_feed_exact(a, b, v.max_divergence_bps);
}

} // verus!
