use nebula_dtf::{Address, AddressKind, NebulaFactory};

fn contract(key: u128) -> Address {
    Address { kind: AddressKind::Contract, hi: 0, lo: key }
}

/// The registry side of creating a folio: the factory keeps the code hash it
/// was given and records the folio the deployment produced. (The deployed
/// folio's own behaviour belongs to the folio contract.)
#[test]
fn creates_registered_working_folio() {
    let admin = Address { kind: AddressKind::Account, hi: 0, lo: 1 };
    let wasm_hash = [0x5au8; 32];
    let mut factory = NebulaFactory::new(admin, wasm_hash);
    assert_eq!(factory.wasm_hash(), wasm_hash);

    // the address the host assigned to the deployed folio
    let deployed = contract(0xf0110);
    let folio_addr = factory.create_folio(deployed);

    assert_eq!(factory.folios().len(), 1);
    assert_eq!(factory.folios()[0], folio_addr);
    assert_eq!(folio_addr, deployed);
}
