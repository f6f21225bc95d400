//! Nebula DTF price plumbing as a verified library.
//!
//! The crate holds the decision logic of three Soroban contracts: the oracle
//! router that turns one or two SEP-40 feed readings into a validated price,
//! the settable mock feed, and the folio factory registry. Each contract is a
//! plain state value here; the host side (ledger storage, authorization,
//! cross-contract calls, deployment) is left to the caller, which hands the
//! library the values it read and stores the state the library returns.

mod types;
mod pricing;
mod assoc;
mod router;
pub mod laws;
mod mock_feed;
mod factory;

pub use types::{
    specs_view, Address, AddressKind, AssetView, FeedSpec, FeedSpecView, OracleAsset,
    PriceData, RouterError, PRICE_DECIMALS,
};
pub use pricing::{
    bps_scale, decide, decide_defined, decide_spec, div_toward_zero, fetch_defined, fetch_one,
    fetch_overflows, fetch_spec, is_stale, lemma_scan_stops, max_i128_exponent, max_int,
    millis_threshold, min_int, normalize, normalize_defined, normalize_spec, pow10, scan,
    seconds_of, two_feed_defined, two_feed_spec,
};
pub use router::{
    apply_op, apply_ops, entries_of, fetch_outcomes, initial_view, price_defined, price_spec, reading_at,
    registry_valid, NebulaOracleRouter, RouterOp, RouterView, MAX_FEEDS,
};
pub use mock_feed::{mock_resolution, MockFeedView, MockPriceFeed, Sep40PriceFeed};
pub use factory::{FactoryView, NebulaFactory};
