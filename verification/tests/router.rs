use nebula_dtf::{
    Address, AddressKind, FeedSpec, MockPriceFeed, NebulaOracleRouter, OracleAsset, PriceData, RouterError,
    Sep40PriceFeed, PRICE_DECIMALS,
};

fn contract(key: u128) -> Address {
    Address { kind: AddressKind::Contract, hi: 0, lo: key }
}

fn account(key: u128) -> Address {
    Address { kind: AddressKind::Account, hi: 0, lo: key }
}

const NOW: u64 = 1_760_000_000;
const MAX_AGE: u64 = 3_600;
const MAX_DIV_BPS: u32 = 500; // 5%

/// The router, two mock feeds and one token; the feeds stand for the
/// contracts at `feed_a_addr` and `feed_b_addr`.
struct Setup {
    router: NebulaOracleRouter,
    feed_a: MockPriceFeed,
    feed_b: MockPriceFeed,
    feed_a_addr: Address,
    feed_b_addr: Address,
    token: Address,
}

/// Plays the ledger: reads every feed configured for `token`.
fn readings(s: &Setup, token: &Address) -> Vec<Option<PriceData>> {
    match s.router.feeds(token) {
        None => Vec::new(),
        Some(specs) => specs
            .iter()
            .map(|spec| {
                if spec.feed == s.feed_a_addr {
                    s.feed_a.lastprice(&spec.asset)
                } else if spec.feed == s.feed_b_addr {
                    s.feed_b.lastprice(&spec.asset)
                } else {
                    None
                }
            })
            .collect(),
    }
}

fn try_price(s: &Setup, token: &Address) -> Result<PriceData, RouterError> {
    let r = readings(s, token);
    s.router.price(token, &r, NOW)
}

fn price(s: &Setup, token: &Address) -> PriceData {
    try_price(s, token).unwrap()
}

fn spec_for(feed_addr: Address, feed: &MockPriceFeed, asset: OracleAsset) -> FeedSpec {
    FeedSpec { feed: feed_addr, asset, feed_decimals: feed.decimals() }
}

/// Router with one token; `dual` wires both mock feeds to it, else only A.
fn setup(feed_decimals: u32, dual: bool, allow_single: bool) -> Setup {
    let admin = account(1);
    let feed_a_addr = contract(100);
    let feed_b_addr = contract(101);
    let feed_a = MockPriceFeed::new(admin, feed_decimals);
    let feed_b = MockPriceFeed::new(admin, feed_decimals);
    let mut router = NebulaOracleRouter::new(admin, MAX_AGE, MAX_DIV_BPS, allow_single);

    let token = contract(200);
    let oa = OracleAsset::Stellar(token);
    let mut feeds = vec![spec_for(feed_a_addr, &feed_a, oa.clone())];
    if dual {
        feeds.push(spec_for(feed_b_addr, &feed_b, oa));
    }
    router.set_feeds(token, feeds).unwrap();

    Setup { router, feed_a, feed_b, feed_a_addr, feed_b_addr, token }
}

fn px(dec: u32, units: i128) -> i128 {
    units * 10i128.pow(dec)
}

// --- single-feed behavior ---

#[test]
fn returns_fresh_price_normalized() {
    let mut s = setup(14, false, true);
    let oa = OracleAsset::Stellar(s.token);
    s.feed_a.set_price(oa, 25 * 10i128.pow(PRICE_DECIMALS - 2), NOW);
    let pd = price(&s, &s.token);
    assert_eq!(pd.price, 25 * 10i128.pow(12));
    assert_eq!(pd.timestamp, NOW);
}

#[test]
fn rescales_feed_decimals_both_ways() {
    let mut s8 = setup(8, false, true);
    let oa = OracleAsset::Stellar(s8.token);
    s8.feed_a.set_price(oa, px(8, 3), NOW);
    assert_eq!(price(&s8, &s8.token).price, px(14, 3));

    let mut s18 = setup(18, false, true);
    let oa = OracleAsset::Stellar(s18.token);
    s18.feed_a.set_price(oa, px(18, 2), NOW);
    assert_eq!(price(&s18, &s18.token).price, px(14, 2));
}

#[test]
fn normalizes_millisecond_timestamps() {
    let mut s = setup(14, false, true);
    let oa = OracleAsset::Stellar(s.token);
    s.feed_a.set_price(oa, px(14, 1), NOW * 1000);
    assert_eq!(price(&s, &s.token).timestamp, NOW);
}

#[test]
fn rejects_stale_missing_nonpositive_and_unregistered() {
    let mut s = setup(14, false, true);
    let oa = OracleAsset::Stellar(s.token);

    let unknown = contract(999);
    assert_eq!(try_price(&s, &unknown), Err(RouterError::NoFeed));

    assert_eq!(try_price(&s, &s.token), Err(RouterError::NoPrice));

    s.feed_a.set_price(oa.clone(), 0, NOW);
    assert_eq!(try_price(&s, &s.token), Err(RouterError::InvalidPrice));

    s.feed_a.set_price(oa, px(14, 1), NOW - MAX_AGE - 1);
    assert_eq!(try_price(&s, &s.token), Err(RouterError::StalePrice));
}

#[test]
fn symbol_mapped_assets_work() {
    // a test-network token can map to a feed's ticker symbol
    let mut s = setup(14, false, true);
    let taqua = contract(300);
    let sym = OracleAsset::Other(b"AQUA".to_vec());
    let spec = spec_for(s.feed_a_addr, &s.feed_a, sym.clone());
    s.router.set_feeds(taqua, vec![spec]).unwrap();
    s.feed_a.set_price(sym, px(14, 1), NOW);
    assert_eq!(price(&s, &taqua).price, px(14, 1));
}

// --- two-feed median + divergence breaker ---

#[test]
fn two_valid_feeds_return_midpoint_and_older_timestamp() {
    let mut s = setup(14, true, true);
    let oa = OracleAsset::Stellar(s.token);
    s.feed_a.set_price(oa.clone(), px(14, 100), NOW);
    s.feed_b.set_price(oa, px(14, 102), NOW - 10); // +2%, within 5%
    let pd = price(&s, &s.token);
    assert_eq!(pd.price, px(14, 101));
    assert_eq!(pd.timestamp, NOW - 10);
}

#[test]
fn divergence_beyond_threshold_trips_breaker() {
    let mut s = setup(14, true, true);
    let oa = OracleAsset::Stellar(s.token);
    s.feed_a.set_price(oa.clone(), px(14, 100), NOW);
    s.feed_b.set_price(oa.clone(), px(14, 105) + 1, NOW); // just past 5%
    assert_eq!(try_price(&s, &s.token), Err(RouterError::Divergence));

    // exactly at the threshold is allowed
    s.feed_b.set_price(oa, px(14, 105), NOW);
    assert_eq!(price(&s, &s.token).price, px(14, 102) + 5 * 10i128.pow(13));
}

#[test]
fn one_stale_feed_falls_back_when_allow_single() {
    let mut s = setup(14, true, true);
    let oa = OracleAsset::Stellar(s.token);
    s.feed_a.set_price(oa.clone(), px(14, 100), NOW);
    s.feed_b.set_price(oa, px(14, 500), NOW - MAX_AGE - 1); // stale + wild
    // stale outlier ignored, primary used
    assert_eq!(price(&s, &s.token).price, px(14, 100));
}

#[test]
fn one_valid_feed_rejected_when_strict_dual() {
    let mut s = setup(14, true, false); // allow_single = false
    let oa = OracleAsset::Stellar(s.token);
    s.feed_a.set_price(oa, px(14, 100), NOW);
    // feed_b has no data
    assert_eq!(try_price(&s, &s.token), Err(RouterError::SingleSource));
}

#[test]
fn both_feeds_dead_reports_primary_error() {
    let mut s = setup(14, true, true);
    let oa = OracleAsset::Stellar(s.token);
    s.feed_a.set_price(oa, px(14, 1), NOW - MAX_AGE - 1);
    // b: no data at all
    assert_eq!(try_price(&s, &s.token), Err(RouterError::StalePrice));
}

#[test]
fn set_feeds_rejects_empty_and_too_many() {
    let mut s = setup(14, false, true);
    let oa = OracleAsset::Stellar(s.token);
    let empty: Vec<FeedSpec> = vec![];
    assert_eq!(s.router.set_feeds(s.token, empty), Err(RouterError::BadConfig));
    let three = vec![
        spec_for(s.feed_a_addr, &s.feed_a, oa.clone()),
        spec_for(s.feed_b_addr, &s.feed_b, oa.clone()),
        spec_for(s.feed_a_addr, &s.feed_a, oa),
    ];
    assert_eq!(s.router.set_feeds(s.token, three), Err(RouterError::BadConfig));
}
