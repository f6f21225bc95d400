use nebula_dtf::{
    decide, fetch_one, fetch_overflows, normalize, Address, AddressKind, FeedSpec, MockPriceFeed,
    NebulaFactory, NebulaOracleRouter, OracleAsset, PriceData, RouterError, Sep40PriceFeed,
};

fn contract(key: u128) -> Address {
    Address { kind: AddressKind::Contract, hi: 0, lo: key }
}

fn account(key: u128) -> Address {
    Address { kind: AddressKind::Account, hi: 0, lo: key }
}

const NOW: u64 = 1_760_000_000;

fn spec(decimals: u32) -> FeedSpec {
    FeedSpec {
        feed: contract(7),
        asset: OracleAsset::Stellar(contract(8)),
        feed_decimals: decimals,
    }
}

fn pd(price: i128, timestamp: u64) -> PriceData {
    PriceData { price, timestamp }
}

// --- normalize ---

#[test]
fn normalize_keeps_native_decimals() {
    assert_eq!(normalize(-42, 14), Ok(-42));
}

#[test]
fn normalize_scales_up_exactly() {
    assert_eq!(normalize(3, 8), Ok(3_000_000));
    assert_eq!(normalize(1, 0), Ok(100_000_000_000_000));
}

#[test]
fn normalize_scales_down_toward_zero() {
    assert_eq!(normalize(1_999, 17), Ok(1));
    assert_eq!(normalize(-1_999, 17), Ok(-1));
    assert_eq!(normalize(5, 15), Ok(0));
    assert_eq!(normalize(i128::MAX, 52), Ok(1));
}

#[test]
fn normalize_overflow_is_invalid_price() {
    assert_eq!(normalize(i128::MAX / 10 + 1, 13), Err(RouterError::InvalidPrice));
    assert_eq!(normalize(i128::MAX / 10, 13), Ok(i128::MAX / 10 * 10));
    assert_eq!(normalize(i128::MIN, 0), Err(RouterError::InvalidPrice));
}

// --- one feed ---

#[test]
fn fetch_one_classifies_readings() {
    let s = spec(14);
    assert_eq!(fetch_one(&s, None, NOW, 60), Ok(Err(RouterError::NoPrice)));
    assert_eq!(fetch_one(&s, Some(pd(-1, NOW)), NOW, 60), Ok(Err(RouterError::InvalidPrice)));
    assert_eq!(fetch_one(&s, Some(pd(5, NOW + 1)), NOW, 60), Ok(Err(RouterError::StalePrice)));
    assert_eq!(fetch_one(&s, Some(pd(5, NOW - 61)), NOW, 60), Ok(Err(RouterError::StalePrice)));
    assert_eq!(fetch_one(&s, Some(pd(5, NOW - 60)), NOW, 60), Ok(Ok(pd(5, NOW - 60))));
    assert_eq!(fetch_one(&spec(12), Some(pd(5, NOW)), NOW, 60), Ok(Ok(pd(500, NOW))));
    assert_eq!(fetch_one(&spec(15), Some(pd(9, NOW)), NOW, 60), Ok(Err(RouterError::InvalidPrice)));
    assert_eq!(fetch_one(&spec(15), Some(pd(10, NOW)), NOW, 60), Ok(Ok(pd(1, NOW))));
}

#[test]
fn fetch_one_reads_large_timestamps_as_milliseconds() {
    let s = spec(14);
    assert_eq!(fetch_one(&s, Some(pd(5, NOW * 1000 + 999)), NOW, 60), Ok(Ok(pd(5, NOW))));
    // the threshold itself is still seconds (and far in the future here)
    assert_eq!(
        fetch_one(&s, Some(pd(5, 100_000_000_000)), NOW, 60),
        Ok(Err(RouterError::StalePrice))
    );
}

#[test]
fn fetch_one_scaling_overflow_fails_the_request() {
    assert_eq!(
        fetch_one(&spec(0), Some(pd(i128::MAX / 10, NOW)), NOW, 60),
        Err(RouterError::InvalidPrice)
    );
}

#[test]
fn router_scaling_overflow_fails_even_with_another_good_feed() {
    let mut r = NebulaOracleRouter::new(account(3), 60, 100, true);
    let t = contract(1);
    r.set_feeds(t, vec![spec(14), spec(0)]).unwrap();
    let readings = vec![Some(pd(9, NOW)), Some(pd(i128::MAX / 10, NOW))];
    assert_eq!(r.price(&t, &readings, NOW), Err(RouterError::InvalidPrice));
    // an unusable second feed does not fail the request
    let readings = vec![Some(pd(9, NOW)), Some(pd(0, NOW))];
    assert_eq!(r.price(&t, &readings, NOW), Ok(pd(9, NOW)));
}

#[test]
fn fetch_overflow_only_for_usable_readings_of_unscalable_feeds() {
    assert!(fetch_overflows(&spec(53), Some(pd(5, NOW)), NOW, 60));
    assert!(!fetch_overflows(&spec(52), Some(pd(5, NOW)), NOW, 60));
    assert!(!fetch_overflows(&spec(53), None, NOW, 60));
    assert!(!fetch_overflows(&spec(53), Some(pd(0, NOW)), NOW, 60));
    assert!(!fetch_overflows(&spec(53), Some(pd(5, NOW - 61)), NOW, 60));
}

// --- combining ---

#[test]
fn decide_without_valid_price_reports_first_error() {
    assert_eq!(decide(&vec![], Some(RouterError::StalePrice), 2, true, 500), Some(Err(RouterError::StalePrice)));
    assert_eq!(decide(&vec![], None, 0, true, 500), Some(Err(RouterError::NoPrice)));
}

#[test]
fn decide_single_valid_price() {
    let v = vec![pd(7, 1)];
    assert_eq!(decide(&v, None, 1, false, 500), Some(Ok(pd(7, 1))));
    assert_eq!(decide(&v, Some(RouterError::NoPrice), 2, true, 500), Some(Ok(pd(7, 1))));
    assert_eq!(decide(&v, Some(RouterError::NoPrice), 2, false, 500), Some(Err(RouterError::SingleSource)));
}

#[test]
fn decide_two_prices_midpoint_is_order_independent() {
    let a = pd(100, 50);
    let b = pd(103, 40);
    assert_eq!(decide(&vec![a, b], None, 2, true, 300), Some(Ok(pd(101, 40))));
    assert_eq!(decide(&vec![b, a], None, 2, true, 300), Some(Ok(pd(101, 40))));
    assert_eq!(decide(&vec![a, b], None, 2, true, 299), Some(Err(RouterError::Divergence)));
}

#[test]
fn decide_divergence_arithmetic_overflow_is_invalid_price() {
    // the gap times 10_000 leaves i128
    assert_eq!(
        decide(&vec![pd(0, 1), pd(i128::MAX, 1)], None, 2, true, 500),
        Some(Err(RouterError::InvalidPrice))
    );
    // the lower price times the bound leaves i128
    assert_eq!(
        decide(&vec![pd(i128::MAX / 2, 1), pd(i128::MAX / 2, 1)], None, 2, true, u32::MAX),
        Some(Err(RouterError::InvalidPrice))
    );
}

#[test]
fn decide_midpoint_sum_overflow_is_flagged() {
    let big = i128::MAX / 2 + 1;
    assert_eq!(decide(&vec![pd(big, 1), pd(big, 1)], None, 2, true, 1), None);
}

// --- router state ---

#[test]
fn router_settings_read_back() {
    let admin = account(3);
    let mut r = NebulaOracleRouter::new(admin, 60, 100, false);
    assert_eq!(r.admin(), admin);
    assert_eq!((r.max_age(), r.divergence_bps(), r.allow_single()), (60, 100, false));
    r.set_max_age(90);
    r.set_divergence(250);
    r.set_allow_single(true);
    assert_eq!((r.max_age(), r.divergence_bps(), r.allow_single()), (90, 250, true));
}

#[test]
fn router_feeds_replace_and_stay_per_token() {
    let mut r = NebulaOracleRouter::new(account(3), 60, 100, true);
    let t1 = contract(1);
    let t2 = contract(2);
    assert_eq!(r.feeds(&t1), None);
    assert_eq!(r.set_feeds(t1, vec![spec(8)]), Ok(()));
    assert_eq!(r.set_feeds(t2, vec![spec(14), spec(18)]), Ok(()));
    assert_eq!(r.set_feeds(t1, vec![spec(10), spec(12)]), Ok(()));
    assert_eq!(r.feeds(&t1), Some(vec![spec(10), spec(12)]));
    assert_eq!(r.feeds(&t2), Some(vec![spec(14), spec(18)]));
    assert_eq!(r.set_feeds(t2, vec![]), Err(RouterError::BadConfig));
    assert_eq!(r.feeds(&t2), Some(vec![spec(14), spec(18)]));
}

#[test]
fn router_checked_price_flags_overflow() {
    let mut r = NebulaOracleRouter::new(account(3), 60, 100, true);
    let t = contract(1);
    r.set_feeds(t, vec![spec(60)]).unwrap();
    assert_eq!(r.checked_price(&t, &vec![Some(pd(5, NOW))], NOW), None);
    assert_eq!(r.checked_price(&t, &vec![None], NOW), Some(Err(RouterError::NoPrice)));
    assert_eq!(r.checked_price(&contract(2), &vec![], NOW), Some(Err(RouterError::NoFeed)));
}

#[test]
fn router_missing_reading_counts_as_no_price() {
    let mut r = NebulaOracleRouter::new(account(3), 60, 100, true);
    let t = contract(1);
    r.set_feeds(t, vec![spec(14), spec(14)]).unwrap();
    assert_eq!(r.price(&t, &vec![Some(pd(9, NOW))], NOW), Ok(pd(9, NOW)));
    assert_eq!(r.price(&t, &vec![], NOW), Err(RouterError::NoPrice));
}

#[test]
fn error_codes_follow_declaration_order() {
    let all = [
        RouterError::NoFeed,
        RouterError::NoPrice,
        RouterError::StalePrice,
        RouterError::InvalidPrice,
        RouterError::Divergence,
        RouterError::SingleSource,
        RouterError::BadConfig,
    ];
    let codes: Vec<u32> = all.iter().map(|e| e.code()).collect();
    assert_eq!(codes, vec![1, 2, 3, 4, 5, 6, 7]);
}

// --- assets ---

#[test]
fn assets_compare_by_what_they_denote() {
    let a = OracleAsset::Other(b"AQUA".to_vec());
    assert!(a.same_as(&a.duplicate()));
    assert!(!a.same_as(&OracleAsset::Other(b"AQUB".to_vec())));
    assert!(!a.same_as(&OracleAsset::Other(b"AQU".to_vec())));
    assert!(!a.same_as(&OracleAsset::Stellar(contract(1))));
    let s = OracleAsset::Stellar(contract(1));
    assert!(s.same_as(&OracleAsset::Stellar(Address { kind: AddressKind::Contract, hi: 0, lo: 1 })));
    assert!(!s.same_as(&OracleAsset::Stellar(account(1))));
}

// --- mock feed ---

#[test]
fn mock_feed_returns_last_price_per_asset() {
    let admin = account(1);
    let mut f = MockPriceFeed::new(admin, 8);
    let x = OracleAsset::Stellar(contract(5));
    let y = OracleAsset::Other(b"XLM".to_vec());
    assert_eq!(f.admin(), admin);
    assert_eq!(f.decimals(), 8);
    assert_eq!(f.resolution(), 300);
    assert_eq!(f.lastprice(&x), None);
    f.set_price(x.clone(), 10, 20);
    f.set_price(y.clone(), 30, 40);
    f.set_price(x.clone(), 11, 21);
    assert_eq!(f.lastprice(&x), Some(pd(11, 21)));
    assert_eq!(f.lastprice(&y), Some(pd(30, 40)));
}

// --- factory ---

#[test]
fn factory_registers_folios_in_order() {
    let admin = account(1);
    let mut f = NebulaFactory::new(admin, [7u8; 32]);
    assert_eq!(f.admin(), admin);
    assert_eq!(f.wasm_hash(), [7u8; 32]);
    assert_eq!(f.folios(), vec![]);
    let a = contract(10);
    let b = contract(11);
    assert_eq!(f.create_folio(a), a);
    assert_eq!(f.create_folio(b), b);
    assert_eq!(f.folios(), vec![a, b]);
}

#[test]
fn factory_new_code_leaves_existing_folios() {
    let mut f = NebulaFactory::new(account(1), [7u8; 32]);
    let a = contract(10);
    f.create_folio(a);
    f.set_wasm_hash([9u8; 32]);
    assert_eq!(f.wasm_hash(), [9u8; 32]);
    assert_eq!(f.folios(), vec![a]);
}

#[test]
fn single_configured_feed_is_used_even_when_strict() {
    let mut r = NebulaOracleRouter::new(account(3), 60, 100, false);
    let t = contract(1);
    r.set_feeds(t, vec![spec(14)]).unwrap();
    assert_eq!(r.price(&t, &vec![Some(pd(9, NOW))], NOW), Ok(pd(9, NOW)));
}

#[test]
fn price_rounded_to_zero_by_downscaling_is_refused() {
    let mut r = NebulaOracleRouter::new(account(3), 60, 100, true);
    let t = contract(1);
    r.set_feeds(t, vec![spec(18)]).unwrap();
    assert_eq!(r.price(&t, &vec![Some(pd(9_999, NOW))], NOW), Err(RouterError::InvalidPrice));
    assert_eq!(r.price(&t, &vec![Some(pd(10_000, NOW))], NOW), Ok(pd(1, NOW)));
    // with a second, usable feed the zero one is only an unusable feed
    r.set_feeds(t, vec![spec(18), spec(14)]).unwrap();
    let readings = vec![Some(pd(9_999, NOW)), Some(pd(7, NOW))];
    assert_eq!(r.price(&t, &readings, NOW), Ok(pd(7, NOW)));
    r.set_allow_single(false);
    assert_eq!(r.price(&t, &readings, NOW), Err(RouterError::SingleSource));
}

#[test]
fn unregistered_token_has_no_feeds_after_other_changes() {
    let mut r = NebulaOracleRouter::new(account(3), 60, 100, true);
    let t = contract(1);
    r.set_max_age(10);
    r.set_divergence(1);
    r.set_allow_single(false);
    r.set_feeds(contract(2), vec![spec(14)]).unwrap();
    assert_eq!(r.set_feeds(t, vec![]), Err(RouterError::BadConfig));
    assert_eq!(r.feeds(&t), None);
    assert_eq!(r.price(&t, &vec![Some(pd(9, NOW))], NOW), Err(RouterError::NoFeed));
}

#[test]
fn reconfiguring_one_token_keeps_another_tokens_price() {
    let mut r = NebulaOracleRouter::new(account(3), 60, 100, true);
    let t1 = contract(1);
    let t2 = contract(2);
    r.set_feeds(t1, vec![spec(14)]).unwrap();
    r.set_feeds(t2, vec![spec(12)]).unwrap();
    let readings = vec![Some(pd(9, NOW))];
    let before = r.price(&t1, &readings, NOW);
    r.set_feeds(t2, vec![spec(8), spec(10)]).unwrap();
    assert_eq!(r.price(&t1, &readings, NOW), before);
    assert_eq!(before, Ok(pd(9, NOW)));
}
