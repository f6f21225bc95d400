# nebula_dtf

The price plumbing of the Nebula DTF contracts, as a library verified with
Verus.

- `src/` — the verified library:
  - `types.rs`: addresses, asset identifiers, feed specifications, price
    records and the router's errors;
  - `pricing.rs`: rescaling to 14 decimals, validating one feed reading, and
    deciding the router's answer from the usable prices (the two-source
    divergence breaker);
  - `router.rs`: the router's configuration and its `price` request;
  - `mock_feed.rs`: the settable SEP-40 feed;
  - `factory.rs`: the folio registry;
  - `assoc.rs`: association lists read as maps;
  - `laws.rs`: properties that hold of every configuration and reading.
- `app/` — the Soroban contracts: storage, authorization, feed queries and
  deployment around the library.
- `tests/` — tests of the library on concrete values.
