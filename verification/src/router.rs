//! The oracle router: per-token feed configuration and the validated price.
use vstd::prelude::*;
use crate::assoc::{assoc_map, has_key, keys_unique, lemma_assoc_absent, lemma_assoc_index, lemma_assoc_push, lemma_assoc_update};
use crate::pricing::{
    decide, decide_defined, decide_spec, fetch_defined, fetch_one, fetch_overflows, fetch_spec,
    lemma_scan_stops, scan,
};
use crate::types::{specs_view, duplicate_specs, Address, FeedSpec, FeedSpecView, PriceData, RouterError};

verus! {

/// Most feeds one token can be priced from.
pub const MAX_FEEDS: usize = 2;

/// What a router's configuration denotes.
pub struct RouterView {
    pub admin: Address,
    pub max_age_secs: u64,
    pub max_divergence_bps: u32,
    pub allow_single: bool,
    /// Each registered token to the feeds that price it, primary first.
    pub feeds: Map<Address, Seq<FeedSpecView>>,
}

/// The reading of the `i`-th feed; a feed past the end of `readings` gave none.
pub open spec fn reading_at(readings: Seq<Option<PriceData>>, i: int) -> Option<PriceData> {
    if 0 <= i < readings.len() {
        readings[i]
    } else {
        None
    }
}

/// How each configured feed's reading ends, in feed order.
pub open spec fn fetch_outcomes(
    specs: Seq<FeedSpecView>,
    readings: Seq<Option<PriceData>>,
    now: u64,
    max_age: u64,
) -> Seq<Result<Result<PriceData, RouterError>, RouterError>> {
    Seq::new(specs.len(), |i: int| fetch_spec(specs[i], reading_at(readings, i), now, max_age))
}

/// The validated price of `token` at ledger time `now`, given one reading
/// per configured feed: `NoFeed` for an unregistered token; the error of the
/// first feed whose rescaling fails; else the usable prices, the first feed
/// error and the number of feeds decided by [`decide_spec`].
pub open spec fn price_spec(
    v: RouterView,
    token: Address,
    readings: Seq<Option<PriceData>>,
    now: u64,
) -> Result<PriceData, RouterError> {
    if !v.feeds.contains_key(token) {
        Err(RouterError::NoFeed)
    } else {
        let specs = v.feeds[token];
        match scan(fetch_outcomes(specs, readings, now, v.max_age_secs)) {
            Err(e) => Err(e),
            Ok((valid, first_err)) => decide_spec(
                valid,
                first_err,
                specs.len(),
                v.allow_single,
                v.max_divergence_bps,
            ),
        }
    }
}

/// Pricing `token` involves no arithmetic overflow: no feed reached before
/// the request ends needs an impossible rescaling, and two usable prices can
/// be summed.
pub open spec fn price_defined(
    v: RouterView,
    token: Address,
    readings: Seq<Option<PriceData>>,
    now: u64,
) -> bool {
    v.feeds.contains_key(token) ==> {
        let specs = v.feeds[token];
        let outcomes = fetch_outcomes(specs, readings, now, v.max_age_secs);
        &&& forall|i: int|
            0 <= i < specs.len() && (forall|j: int| 0 <= j < i ==> #[trigger] outcomes[j] is Ok)
                ==> fetch_defined(#[trigger] specs[i], reading_at(readings, i), now, v.max_age_secs)
        &&& scan(outcomes) matches Ok((valid, _)) ==> decide_defined(valid, v.max_divergence_bps)
    }
}

/// The price router: one deployment shared by all folios. It maps a token to
/// one or two feeds (primary first) and turns their readings into a validated
/// price: fresh, non-negative and normalized to `PRICE_DECIMALS`.
pub struct NebulaOracleRouter {
    admin: Address,
    max_age_secs: u64,
    max_divergence_bps: u32,
    allow_single: bool,
    feeds: Vec<(Address, Vec<FeedSpec>)>,
}

/// The registry as token/feed-list pairs.
pub open spec fn entries_of(feeds: Seq<(Address, Vec<FeedSpec>)>) -> Seq<(Address, Seq<FeedSpecView>)> {
    feeds.map_values(|e: (Address, Vec<FeedSpec>)| (e.0, specs_view(e.1@)))
}

/// Each token is registered once, with one or two feeds.
pub open spec fn registry_valid(feeds: Seq<(Address, Vec<FeedSpec>)>) -> bool {
    &&& keys_unique(entries_of(feeds))
    &&& forall|i: int| 0 <= i < feeds.len() ==> 1 <= (#[trigger] feeds[i]).1@.len() <= MAX_FEEDS
}

/// A change to a router's configuration.
pub enum RouterOp {
    SetFeeds(Address, Seq<FeedSpecView>),
    SetMaxAge(u64),
    SetDivergence(u32),
    SetAllowSingle(bool),
}

/// A fresh router's configuration: the given settings, and no token registered.
pub open spec fn initial_view(
    admin: Address,
    max_age_secs: u64,
    max_divergence_bps: u32,
    allow_single: bool,
) -> RouterView {
    RouterView { admin, max_age_secs, max_divergence_bps, allow_single, feeds: Map::empty() }
}

/// The configuration after one change: a feed list of one or two feeds
/// replaces the token's feeds, any other list changes nothing; a setting
/// change replaces that setting.
pub open spec fn apply_op(v: RouterView, op: RouterOp) -> RouterView {
    match op {
        RouterOp::SetFeeds(token, specs) => if 1 <= specs.len() <= MAX_FEEDS {
            RouterView { feeds: v.feeds.insert(token, specs), ..v }
        } else {
            v
        },
        RouterOp::SetMaxAge(max_age_secs) => RouterView { max_age_secs, ..v },
        RouterOp::SetDivergence(max_divergence_bps) => RouterView { max_divergence_bps, ..v },
        RouterOp::SetAllowSingle(allow_single) => RouterView { allow_single, ..v },
    }
}

/// The configuration after a history of changes, oldest first.
pub open spec fn apply_ops(v: RouterView, ops: Seq<RouterOp>) -> RouterView
    decreases ops.len(),
{
    if ops.len() == 0 {
        v
    } else {
        apply_op(apply_ops(v, ops.drop_last()), ops.last())
    }
}

impl NebulaOracleRouter {
    #[verifier::type_invariant]
    closed spec fn wf(&self) -> bool {
        registry_valid(self.feeds@)
    }
}

impl View for NebulaOracleRouter {
    type V = RouterView;

    closed spec fn view(&self) -> RouterView {
        RouterView {
            admin: self.admin,
            max_age_secs: self.max_age_secs,
            max_divergence_bps: self.max_divergence_bps,
            allow_single: self.allow_single,
            feeds: assoc_map(entries_of(self.feeds@)),
        }
    }
}

/// The index of `token`'s entry in a registry.
fn find_in(feeds: &Vec<(Address, Vec<FeedSpec>)>, token: &Address) -> (r: Option<usize>)
    ensures
        match r {
            Some(i) => i < feeds@.len() && feeds@[i as int].0 == *token,
            None => forall|j: int| 0 <= j < feeds@.len() ==> #[trigger] feeds@[j].0 != *token,
        },
{
    let mut i: usize = 0;
    while i < feeds.len()
        invariant
            i <= feeds@.len(),
            forall|j: int| 0 <= j < i ==> #[trigger] feeds@[j].0 != *token,
        decreases feeds.len() - i,
    {
        if feeds[i].0 == *token {
            return Some(i);
        }
        i = i + 1;
    }
    None
}

proof fn lemma_registry_absent(feeds: Seq<(Address, Vec<FeedSpec>)>, token: Address)
    requires
        forall|j: int| 0 <= j < feeds.len() ==> #[trigger] feeds[j].0 != token,
    ensures
        !assoc_map(entries_of(feeds)).contains_key(token),
        !has_key(entries_of(feeds), token),
{
    let s = entries_of(feeds);
    assert forall|j: int| 0 <= j < s.len() implies #[trigger] s[j].0 != token by {
        assert(s[j].0 == feeds[j].0);
    }
    lemma_assoc_absent(s, token);
}

impl NebulaOracleRouter {
    /// A router administered by `admin`. `max_divergence_bps` is the largest
    /// relative gap allowed between two valid feeds (500 = 5%);
    /// `allow_single` accepts one valid feed when the other is unusable.
    pub fn new(admin: Address, max_age_secs: u64, max_divergence_bps: u32, allow_single: bool) -> (r:
        Self)
        ensures
            r@ == initial_view(admin, max_age_secs, max_divergence_bps, allow_single),
    {
        let r = NebulaOracleRouter {
            admin,
            max_age_secs,
            max_divergence_bps,
            allow_single,
            feeds: Vec::new(),
        };
        assert(r@.feeds =~= Map::<Address, Seq<FeedSpecView>>::empty());
        r
    }

    /// The index of `token`'s entry.
    fn find(&self, token: &Address) -> (r: Option<usize>)
        ensures
            match r {
                Some(i) => i < self.feeds@.len() && self.feeds@[i as int].0 == *token
                    && self@.feeds.contains_key(*token)
                    && self@.feeds[*token] == specs_view(self.feeds@[i as int].1@)
                    && 1 <= self.feeds@[i as int].1@.len() <= MAX_FEEDS,
                None => !self@.feeds.contains_key(*token),
            },
    {
        proof {
            use_type_invariant(self);
        }
        let r = find_in(&self.feeds, token);
        proof {
            match r {
                Some(i) => {
                    let s = entries_of(self.feeds@);
                    assert(s[i as int] == (self.feeds@[i as int].0, specs_view(self.feeds@[i as int].1@)));
                    lemma_assoc_index(s, i as int);
                },
                None => {
                    lemma_registry_absent(self.feeds@, *token);
                },
            }
        }
        r
    }

    /// A list of `n` feeds is an acceptable configuration: one or two feeds,
    /// else `BadConfig`.
    pub fn check_feed_count(n: usize) -> (r: Result<(), RouterError>)
        ensures
            r is Ok <==> 1 <= n <= MAX_FEEDS,
            r is Err ==> r == Err::<(), RouterError>(RouterError::BadConfig),
    {
        if n == 0 || n > MAX_FEEDS {
            Err(RouterError::BadConfig)
        } else {
            Ok(())
        }
    }

    /// Register (or replace) the feeds used to price `token`. Order matters:
    /// the first feed is primary, and its error is reported when no feed is
    /// usable. An empty list, or one of more than two feeds, is refused with
    /// `BadConfig` and changes nothing.
    pub fn set_feeds(&mut self, token: Address, specs: Vec<FeedSpec>) -> (r: Result<(), RouterError>)
        ensures
            r is Ok <==> 1 <= specs@.len() <= MAX_FEEDS,
            r is Err ==> r == Err::<(), RouterError>(RouterError::BadConfig),
            final(self)@ == apply_op(old(self)@, RouterOp::SetFeeds(token, specs_view(specs@))),
    {
        proof {
            use_type_invariant(&*self);
        }
        Self::check_feed_count(specs.len())?;
        let ghost old_feeds = self.feeds@;
        let ghost old_entries = entries_of(old_feeds);
        let ghost new_specs = specs_view(specs@);
        let mut feeds: Vec<(Address, Vec<FeedSpec>)> = Vec::new();
        std::mem::swap(&mut feeds, &mut self.feeds);
        match find_in(&feeds, &token) {
            Some(i) => {
                proof {
                    assert(old_entries[i as int].0 == token);
                    lemma_assoc_update(old_entries, i as int, new_specs);
                }
                feeds.set(i, (token, specs));
                assert(entries_of(feeds@) =~= old_entries.update(i as int, (token, new_specs)));
            },
            None => {
                proof {
                    lemma_registry_absent(old_feeds, token);
                    lemma_assoc_push(old_entries, token, new_specs);
                }
                feeds.push((token, specs));
                assert(entries_of(feeds@) =~= old_entries.push((token, new_specs)));
            },
        }
        assert forall|j: int|
            0 <= j < feeds@.len() implies 1 <= (#[trigger] feeds@[j]).1@.len() <= MAX_FEEDS by {
            if j < old_feeds.len() && feeds@[j] != old_feeds[j] {
            }
        }
        self.feeds = feeds;
        Ok(())
    }

    /// Set the largest accepted price age, in seconds.
    pub fn set_max_age(&mut self, max_age_secs: u64)
        ensures
            final(self)@ == apply_op(old(self)@, RouterOp::SetMaxAge(max_age_secs)),
    {
        proof {
            use_type_invariant(&*self);
        }
        self.max_age_secs = max_age_secs;
    }

    /// Set the largest accepted gap between two feeds, in basis points.
    pub fn set_divergence(&mut self, max_divergence_bps: u32)
        ensures
            final(self)@ == apply_op(old(self)@, RouterOp::SetDivergence(max_divergence_bps)),
    {
        proof {
            use_type_invariant(&*self);
        }
        self.max_divergence_bps = max_divergence_bps;
    }

    /// Set whether one valid feed suffices when two are configured.
    pub fn set_allow_single(&mut self, allow_single: bool)
        ensures
            final(self)@ == apply_op(old(self)@, RouterOp::SetAllowSingle(allow_single)),
    {
        proof {
            use_type_invariant(&*self);
        }
        self.allow_single = allow_single;
    }

    /// The administrator.
    pub fn admin(&self) -> (a: Address)
        ensures
            a == self@.admin,
    {
        self.admin
    }

    /// The largest accepted price age, in seconds.
    pub fn max_age(&self) -> (m: u64)
        ensures
            m == self@.max_age_secs,
    {
        self.max_age_secs
    }

    /// The largest accepted gap between two feeds, in basis points.
    pub fn divergence_bps(&self) -> (d: u32)
        ensures
            d == self@.max_divergence_bps,
    {
        self.max_divergence_bps
    }

    /// Whether one valid feed suffices when two are configured.
    pub fn allow_single(&self) -> (b: bool)
        ensures
            b == self@.allow_single,
    {
        self.allow_single
    }

    /// The feeds registered for `token`, primary first.
    pub fn feeds(&self, token: &Address) -> (r: Option<Vec<FeedSpec>>)
        ensures
            r is Some <==> self@.feeds.contains_key(*token),
            r matches Some(v) ==> specs_view(v@) == self@.feeds[*token] && 1 <= v@.len()
                <= MAX_FEEDS,
    {
        match self.find(token) {
            Some(i) => Some(duplicate_specs(&self.feeds[i].1)),
            None => None,
        }
    }

    /// The validated price of `token` at ledger time `now`, given the reading
    /// of each configured feed in order (`None` for a feed that had no price
    /// or could not be queried); `None` when the computation would overflow
    /// (an impossible rescaling, or two prices whose sum leaves `i128`).
    pub fn checked_price(&self, token: &Address, readings: &Vec<Option<PriceData>>, now: u64) -> (r:
        Option<Result<PriceData, RouterError>>)
        ensures
            r is None <==> !price_defined(self@, *token, readings@, now),
            r matches Some(x) ==> x == price_spec(self@, *token, readings@, now),
    {
        let idx = match self.find(token) {
            Some(i) => i,
            None => return Some(Err(RouterError::NoFeed)),
        };
        let specs = &self.feeds[idx].1;
        let ghost sv = specs_view(specs@);
        assert(sv == self@.feeds[*token]);
        let ghost outcomes = fetch_outcomes(sv, readings@, now, self.max_age_secs);
        let mut valid: Vec<PriceData> = Vec::new();
        let mut first_err: Option<RouterError> = None;
        let mut i: usize = 0;
        while i < specs.len()
            invariant
                i <= specs@.len(),
                sv == specs_view(specs@),
                self@.feeds.contains_key(*token),
                sv == self@.feeds[*token],
                outcomes == fetch_outcomes(sv, readings@, now, self.max_age_secs),
                scan(outcomes.take(i as int)) == Ok::<(Seq<PriceData>, Option<RouterError>), RouterError>((valid@, first_err)),
                forall|k: int| 0 <= k < valid@.len() ==> (#[trigger] valid@[k]).price >= 0,
                forall|k: int| 0 <= k < i ==> #[trigger] outcomes[k] is Ok,
                forall|k: int| 0 <= k < i ==> fetch_defined(#[trigger] sv[k], reading_at(readings@, k), now, self.max_age_secs),
            decreases specs.len() - i,
        {
            let reading = if i < readings.len() {
                readings[i]
            } else {
                None
            };
            assert(reading == reading_at(readings@, i as int));
            assert(specs@[i as int]@ == sv[i as int]);
            if fetch_overflows(&specs[i], reading, now, self.max_age_secs) {
                assert(!fetch_defined(sv[i as int], reading_at(readings@, i as int), now, self.max_age_secs));
                return None;
            }
            let res = fetch_one(&specs[i], reading, now, self.max_age_secs);
            assert(outcomes[i as int] == res);
            assert(outcomes.take(i + 1).drop_last() =~= outcomes.take(i as int));
            match res {
                Err(e) => {
                    proof {
                        lemma_scan_stops(outcomes, i + 1);
                        assert forall|m: int|
                            0 <= m < sv.len() && (forall|j: int| 0 <= j < m ==> #[trigger] outcomes[j] is Ok)
                            implies fetch_defined(#[trigger] sv[m], reading_at(readings@, m), now, self.max_age_secs) by {
                            if m > i {
                                assert(outcomes[i as int] is Err);
                            }
                        }
                    }
                    return Some(Err(e));
                },
                Ok(Ok(pd)) => {
                    valid.push(pd);
                },
                Ok(Err(e)) => {
                    if first_err.is_none() {
                        first_err = Some(e);
                    }
                },
            }
            i = i + 1;
        }
        assert(outcomes.take(i as int) =~= outcomes);
        assert forall|m: int|
            0 <= m < sv.len() && (forall|j: int| 0 <= j < m ==> #[trigger] outcomes[j] is Ok)
            implies fetch_defined(#[trigger] sv[m], reading_at(readings@, m), now, self.max_age_secs) by {
        }
        decide(&valid, first_err, specs.len(), self.allow_single, self.max_divergence_bps)
    }

    /// The validated price of `token` at ledger time `now`, given the reading
    /// of each configured feed in order (`None` for a feed that had no price
    /// or could not be queried). With two usable feeds it is their midpoint
    /// stamped with the older timestamp, refused with `Divergence` when they
    /// differ by more than the configured bound.
    pub fn price(&self, token: &Address, readings: &Vec<Option<PriceData>>, now: u64) -> (r: Result<
        PriceData,
        RouterError,
    >)
        requires
            price_defined(self@, *token, readings@, now),
        ensures
            r == price_spec(self@, *token, readings@, now),
    {
        match self.checked_price(token, readings, now) {
            Some(r) => r,
            None => Err(RouterError::NoPrice),
        }
    }
}

} // verus!
