# xlm_ns

A name service for Stellar, written in Verus: names such as `timmy.xlm` are
owned identifiers with a registration lifecycle (active, grace period,
claimable), owner-only updates, subdomains, ownership tokens, second-price
auctions for premium names and deterministic cross-chain payloads.

Layout:

- `src/common`: limits, errors, name types and validation rules.
- `src/registrar`: quotes, reservations, registrations, renewals, treasury.
- `src/registry`: entries, their lifecycle and the per-owner name index.
- `src/subdomain`, `src/nft`, `src/auction`, `src/bridge`: the other contracts.
- `src/sdk`, `src/cli`: client request checks and network selection.
- `app/`: the command-line program around the library.
- `tests/`: executable tests of the library.

Every function in `src/` carries a contract that Verus proves; the laws that
span several operations are public proof functions next to them.
