//! A settable SEP-40 price feed, for tests and for assets that no live feed
//! quotes on test networks.
use vstd::prelude::*;
use crate::assoc::{assoc_map, has_key, keys_unique, lemma_assoc_absent, lemma_assoc_index, lemma_assoc_push, lemma_assoc_update};
use crate::types::{Address, AssetView, OracleAsset, PriceData};

verus! {

/// The SEP-40 price feed interface, as far as the router uses it.
pub trait Sep40PriceFeed {
    /// Most recent price for `asset`, in the feed's base asset and decimals.
    fn lastprice(&self, asset: &OracleAsset) -> Option<PriceData>;

    /// Number of decimals all quoted prices use.
    fn decimals(&self) -> u32;

    /// Default tick period, in seconds.
    fn resolution(&self) -> u32;
}

/// What a mock feed's state denotes.
pub struct MockFeedView {
    pub admin: Address,
    pub decimals: u32,
    /// The last price set for each asset.
    pub prices: Map<AssetView, PriceData>,
}

/// The tick period the mock feed reports: five minutes, as the reference feed.
pub open spec fn mock_resolution() -> u32 {
    300
}

/// A price feed whose prices its administrator sets.
pub struct MockPriceFeed {
    admin: Address,
    decimals: u32,
    prices: Vec<(OracleAsset, PriceData)>,
}

impl MockPriceFeed {
    /// The stored prices as asset/price pairs.
    pub closed spec fn entries(&self) -> Seq<(AssetView, PriceData)> {
        self.prices@.map_values(|e: (OracleAsset, PriceData)| (e.0@, e.1))
    }

    #[verifier::type_invariant]
    closed spec fn assets_unique(&self) -> bool {
        keys_unique(self.entries())
    }
}

impl View for MockPriceFeed {
    type V = MockFeedView;

    closed spec fn view(&self) -> MockFeedView {
        MockFeedView { admin: self.admin, decimals: self.decimals, prices: assoc_map(self.entries()) }
    }
}

impl MockPriceFeed {
    /// A feed administered by `admin` that quotes with `decimals` decimals and
    /// holds no price yet.
    pub fn new(admin: Address, decimals: u32) -> (r: Self)
        ensures
            r@.admin == admin,
            r@.decimals == decimals,
            r@.prices == Map::<AssetView, PriceData>::empty(),
    {
        let r = MockPriceFeed { admin, decimals, prices: Vec::new() };
        assert(r@.prices =~= Map::<AssetView, PriceData>::empty());
        r
    }

    /// The administrator, who alone may set prices.
    pub fn admin(&self) -> (a: Address)
        ensures
            a == self@.admin,
    {
        self.admin
    }

    /// The index of `asset`'s entry in `prices`.
    fn find_in(prices: &Vec<(OracleAsset, PriceData)>, asset: &OracleAsset) -> (r: Option<usize>)
        ensures
            match r {
                Some(i) => i < prices@.len() && prices@[i as int].0@ == asset@,
                None => forall|j: int| 0 <= j < prices@.len() ==> #[trigger] prices@[j].0@ != asset@,
            },
    {
        let mut i: usize = 0;
        while i < prices.len()
            invariant
                i <= prices@.len(),
                forall|j: int| 0 <= j < i ==> #[trigger] prices@[j].0@ != asset@,
            decreases prices.len() - i,
        {
            if prices[i].0.same_as(asset) {
                return Some(i);
            }
            i = i + 1;
        }
        None
    }

    /// Set the price of `asset`, stamped `timestamp` (Unix seconds), replacing
    /// any earlier one. Prices of other assets are untouched.
    pub fn set_price(&mut self, asset: OracleAsset, price: i128, timestamp: u64)
        ensures
            final(self)@ == (MockFeedView {
                prices: old(self)@.prices.insert(asset@, PriceData { price, timestamp }),
                ..old(self)@
            }),
    {
        proof {
            use_type_invariant(&*self);
        }
        let ghost old_entries = self.entries();
        let ghost av = asset@;
        let pd = PriceData { price, timestamp };
        let mut prices: Vec<(OracleAsset, PriceData)> = Vec::new();
        std::mem::swap(&mut prices, &mut self.prices);
        assert(prices@.map_values(|e: (OracleAsset, PriceData)| (e.0@, e.1)) == old_entries);
        match Self::find_in(&prices, &asset) {
            Some(i) => {
                proof {
                    lemma_assoc_update(old_entries, i as int, pd);
                }
                prices.set(i, (asset, pd));
                assert(prices@.map_values(|e: (OracleAsset, PriceData)| (e.0@, e.1))
                    =~= old_entries.update(i as int, (av, pd)));
            },
            None => {
                proof {
                    assert forall|j: int| 0 <= j < old_entries.len() implies #[trigger] old_entries[j].0 != av by {
                        assert(old_entries[j].0 == prices@[j].0@);
                    }
                    if has_key(old_entries, av) {
                        let j = choose|j: int| 0 <= j < old_entries.len() && #[trigger] old_entries[j].0 == av;
                        assert(old_entries[j].0 != av);
                    }
                    lemma_assoc_push(old_entries, av, pd);
                }
                prices.push((asset, pd));
                assert(prices@.map_values(|e: (OracleAsset, PriceData)| (e.0@, e.1))
                    =~= old_entries.push((av, pd)));
            },
        }
        self.prices = prices;
    }
}

impl Sep40PriceFeed for MockPriceFeed {
    /// The last price set for `asset`, if any.
    fn lastprice(&self, asset: &OracleAsset) -> (r: Option<PriceData>)
        ensures
            r == (if self@.prices.contains_key(asset@) {
                Some(self@.prices[asset@])
            } else {
                None::<PriceData>
            }),
    {
        proof {
            use_type_invariant(self);
        }
        match Self::find_in(&self.prices, asset) {
            Some(i) => {
                proof {
                    assert(self.entries()[i as int] == (self.prices@[i as int].0@, self.prices@[i as int].1));
                    lemma_assoc_index(self.entries(), i as int);
                }
                Some(self.prices[i].1)
            },
            None => {
                proof {
                    let s = self.entries();
                    assert forall|j: int| 0 <= j < s.len() implies #[trigger] s[j].0 != asset@ by {
                        assert(s[j].0 == self.prices@[j].0@);
                    }
                    lemma_assoc_absent(s, asset@);
                }
                None
            },
        }
    }

    /// The decimals the feed was created with.
    fn decimals(&self) -> (d: u32)
        ensures
            d == self@.decimals,
    {
        self.decimals
    }

    /// Five minutes, in seconds.
    fn resolution(&self) -> (r: u32)
        ensures
            r == mock_resolution(),
    {
        300
    }
}

} // verus!
