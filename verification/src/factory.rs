//! The folio factory's registry: the code version future folios are deployed
//! from, and every folio deployed so far.
use vstd::prelude::*;
use crate::types::Address;

verus! {

/// What a factory's state denotes.
pub struct FactoryView {
    pub admin: Address,
    /// Hash of the folio code that future deployments use.
    pub wasm_hash: Seq<u8>,
    /// Deployed folios, oldest first.
    pub folios: Seq<Address>,
}

/// Deploys folios from a stored code hash and keeps a registry of them.
/// Folios are immutable: a new version is new code that only future folios
/// use, while existing ones stay as they are.
pub struct NebulaFactory {
    admin: Address,
    wasm_hash: [u8; 32],
    folios: Vec<Address>,
}

impl View for NebulaFactory {
    type V = FactoryView;

    closed spec fn view(&self) -> FactoryView {
        FactoryView { admin: self.admin, wasm_hash: self.wasm_hash@, folios: self.folios@ }
    }
}

impl NebulaFactory {
    /// A factory administered by `admin` deploying from `folio_wasm_hash`,
    /// with no folio yet.
    pub fn new(admin: Address, folio_wasm_hash: [u8; 32]) -> (r: Self)
        ensures
            r@.admin == admin,
            r@.wasm_hash == folio_wasm_hash@,
            r@.folios == Seq::<Address>::empty(),
    {
        NebulaFactory { admin, wasm_hash: folio_wasm_hash, folios: Vec::new() }
    }

    /// Record `folio`, just deployed from the current code hash, as the newest
    /// folio, and return it.
    pub fn create_folio(&mut self, folio: Address) -> (r: Address)
        ensures
            r == folio,
            final(self)@ == (FactoryView { folios: old(self)@.folios.push(folio), ..old(self)@ }),
    {
        self.folios.push(folio);
        folio
    }

    /// Point future deployments at new folio code; deployed folios are
    /// untouched.
    pub fn set_wasm_hash(&mut self, folio_wasm_hash: [u8; 32])
        ensures
            final(self)@ == (FactoryView { wasm_hash: folio_wasm_hash@, ..old(self)@ }),
    {
        self.wasm_hash = folio_wasm_hash;
    }

    /// The administrator.
    pub fn admin(&self) -> (a: Address)
        ensures
            a == self@.admin,
    {
        self.admin
    }

    /// The code hash future folios are deployed from.
    pub fn wasm_hash(&self) -> (h: [u8; 32])
        ensures
            h@ == self@.wasm_hash,
    {
        self.wasm_hash
    }

    /// The deployed folios, oldest first.
    pub fn folios(&self) -> (v: Vec<Address>)
        ensures
            v@ == self@.folios,
    {
        let mut v: Vec<Address> = Vec::new();
        let mut i: usize = 0;
        while i < self.folios.len()
            invariant
                i <= self.folios@.len(),
                v@ == self.folios@.take(i as int),
            decreases self.folios.len() - i,
        {
            v.push(self.folios[i]);
            i = i + 1;
            assert(v@ =~= self.folios@.take(i as int));
        }
        assert(self.folios@.take(i as int) =~= self.folios@);
        v
    }
}

} // verus!
