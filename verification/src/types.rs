use vstd::prelude::*;

verus! {

/// All prices returned by the router are normalized to this many decimals.
pub const PRICE_DECIMALS: u32 = 14;

/// Errors the router reports.
#[derive(Copy, Clone, Debug, PartialEq, Eq, Structural)]
pub enum RouterError {
    NoFeed,
    NoPrice,
    StalePrice,
    InvalidPrice,
    Divergence,
    SingleSource,
    BadConfig,
}

impl RouterError {
    /// The numeric contract error code of each variant.
    pub open spec fn spec_code(self) -> u32 {
        match self {
            RouterError::NoFeed => 1,
            RouterError::NoPrice => 2,
            RouterError::StalePrice => 3,
            RouterError::InvalidPrice => 4,
            RouterError::Divergence => 5,
            RouterError::SingleSource => 6,
            RouterError::BadConfig => 7,
        }
    }

    /// The numeric contract error code of this error (1 to 7, in declaration order).
    pub fn code(&self) -> (c: u32)
        ensures
            c == self.spec_code(),
    {
        match self {
            RouterError::NoFeed => 1,
            RouterError::NoPrice => 2,
            RouterError::StalePrice => 3,
            RouterError::InvalidPrice => 4,
            RouterError::Divergence => 5,
            RouterError::SingleSource => 6,
            RouterError::BadConfig => 7,
        }
    }
}

/// Price record returned by SEP-40 oracles and by the router.
#[derive(Copy, Clone, Debug, PartialEq, Eq, Structural)]
pub struct PriceData {
    pub price: i128,
    pub timestamp: u64,
}

} // verus!

verus! {

/// The two kinds of ledger address.
#[derive(Copy, Clone, Debug, PartialEq, Eq, Structural, Hash)]
pub enum AddressKind {
    /// An account, identified by its Ed25519 public key (`G...`).
    Account,
    /// A contract, identified by its contract hash (`C...`).
    Contract,
}

/// A ledger address: its kind and its 32-byte key, held as two big-endian
/// halves.
#[derive(Copy, Clone, Debug, PartialEq, Eq, Structural, Hash)]
pub struct Address {
    pub kind: AddressKind,
    pub hi: u128,
    pub lo: u128,
}

/// What an [`OracleAsset`] denotes.
pub enum AssetView {
    Stellar(Address),
    Other(Seq<u8>),
}

/// Asset identifier as understood by SEP-40 oracles: a Stellar token contract
/// address, or an off-chain ticker symbol given by its characters.
#[derive(Clone, Debug, PartialEq, Eq)]
pub enum OracleAsset {
    Stellar(Address),
    Other(Vec<u8>),
}

impl View for OracleAsset {
    type V = AssetView;

    open spec fn view(&self) -> AssetView {
        match self {
            OracleAsset::Stellar(a) => AssetView::Stellar(*a),
            OracleAsset::Other(s) => AssetView::Other(s@),
        }
    }
}

/// A copy of the bytes of `v`.
fn copy_bytes(v: &Vec<u8>) -> (r: Vec<u8>)
    ensures
        r@ == v@,
{
    let mut r: Vec<u8> = Vec::new();
    let mut i: usize = 0;
    while i < v.len()
        invariant
            i <= v.len(),
            r@ == v@.take(i as int),
        decreases v.len() - i,
    {
        r.push(v[i]);
        i = i + 1;
        assert(r@ =~= v@.take(i as int));
    }
    assert(v@.take(i as int) =~= v@);
    r
}

/// Whether two byte strings are equal.
fn same_bytes(a: &Vec<u8>, b: &Vec<u8>) -> (r: bool)
    ensures
        r == (a@ == b@),
{
    if a.len() != b.len() {
        return false;
    }
    let mut i: usize = 0;
    while i < a.len()
        invariant
            i <= a.len(),
            a.len() == b.len(),
            forall|j: int| 0 <= j < i ==> a@[j] == b@[j],
        decreases a.len() - i,
    {
        if a[i] != b[i] {
            return false;
        }
        i = i + 1;
    }
    assert(a@ =~= b@);
    true
}

impl OracleAsset {
    /// A copy of this asset identifier.
    pub fn duplicate(&self) -> (r: OracleAsset)
        ensures
            r@ == self@,
    {
        match self {
            OracleAsset::Stellar(a) => OracleAsset::Stellar(*a),
            OracleAsset::Other(s) => OracleAsset::Other(copy_bytes(s)),
        }
    }

    /// Whether two asset identifiers denote the same asset.
    pub fn same_as(&self, other: &OracleAsset) -> (r: bool)
        ensures
            r == (self@ == other@),
    {
        match (self, other) {
            (OracleAsset::Stellar(a), OracleAsset::Stellar(b)) => *a == *b,
            (OracleAsset::Other(s), OracleAsset::Other(t)) => same_bytes(s, t),
            _ => false,
        }
    }
}

/// What a [`FeedSpec`] denotes.
pub struct FeedSpecView {
    pub feed: Address,
    pub asset: AssetView,
    pub feed_decimals: u32,
}

/// Where to get one price for one token.
#[derive(Clone, Debug, PartialEq, Eq)]
pub struct FeedSpec {
    /// SEP-40 feed contract.
    pub feed: Address,
    /// Identifier the feed knows the asset by.
    pub asset: OracleAsset,
    /// Feed's price decimals, cached at registration.
    pub feed_decimals: u32,
}

impl View for FeedSpec {
    type V = FeedSpecView;

    open spec fn view(&self) -> FeedSpecView {
        FeedSpecView { feed: self.feed, asset: self.asset@, feed_decimals: self.feed_decimals }
    }
}

impl FeedSpec {
    /// A copy of this feed specification.
    pub fn duplicate(&self) -> (r: FeedSpec)
        ensures
            r@ == self@,
    {
        FeedSpec { feed: self.feed, asset: self.asset.duplicate(), feed_decimals: self.feed_decimals }
    }
}

/// The views of a sequence of feed specifications.
pub open spec fn specs_view(s: Seq<FeedSpec>) -> Seq<FeedSpecView> {
    s.map_values(|f: FeedSpec| f@)
}

/// A copy of a list of feed specifications.
pub(crate) fn duplicate_specs(v: &Vec<FeedSpec>) -> (r: Vec<FeedSpec>)
    ensures
        specs_view(r@) == specs_view(v@),
        r@.len() == v@.len(),
{
    let mut r: Vec<FeedSpec> = Vec::new();
    let mut i: usize = 0;
    while i < v.len()
        invariant
            i <= v.len(),
            r@.len() == i,
            forall|j: int| 0 <= j < i ==> (#[trigger] r@[j])@ == v@[j]@,
        decreases v.len() - i,
    {
        r.push(v[i].duplicate());
        i = i + 1;
    }
    assert(specs_view(r@) =~= specs_view(v@));
    r
}

} // verus!
