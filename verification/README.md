# marketplace

Fixed-price offerings of NFT collections on a NEAR marketplace, verified with Verus.

An offeror lists an offering, either at a buy-now price only or also accepting
proposals above a minimum price; later accepts the best acceptable proposals
(each sells one NFT to its proposer at its price); and concludes the offering
once it is not running, refunding every proposal still acceptable.

- `src/` is the verified library. It holds the marketplace state as plain
  values and returns, for each call, either a refusal (changing nothing) or the
  new state together with the actions to perform (the collection to create, the
  sales to process, the refunds to send).
  - `listing.rs`: the checks on a new offering's terms.
  - `dates.rs`: RFC 3339 dates, read with chrono (the one trusted item).
  - `offering.rs`: an offering, its proposals, and accepting the best of them.
  - `index.rs`: sets of ids filed under account ids.
  - `marketplace.rs`: the marketplace's operations and their contracts.
  - `laws.rs`: properties proved of the library as a whole.
- `app/` is the contract around it: it reads the NEAR environment and turns the
  library's actions into promises.
- `tests/`: scenarios on concrete values.

Limits (`src/config.rs`): supply 1 to 100, buy-now price at least 1000
yoctoNEAR, prices in steps of 10 yoctoNEAR, duration from one hour to 21 days,
838 bytes of storage per new collection.
