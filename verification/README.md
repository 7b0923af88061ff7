# linketh

A Linktree-like profile registry for Ethereum accounts, with ENS name
hashing, verified with Verus.

- `src/keccak.rs`: the two Keccak-256 implementations the library calls
  (`alloy_primitives::keccak256`, `sha3::Keccak256`), each behind a trusted
  wrapper whose result is named by an uninterpreted spec function.
- `src/ens.rs`: ENS namehash on the UTF-8 bytes of a name: label splitting,
  the fold from the last label to the first, and the EIP-137 recursion.
- `src/address.rs`, `src/store.rs`, `src/profile.rs`: addresses, a map from
  addresses to values with distinct keys, and the stored records.
- `src/contract.rs`: the registry and its operations, each specified as a
  transition of `LinkethView`.
- `src/laws.rs`: properties across operations (read after write,
  independence of accounts, delete, transfer, pop after push).
- `app/lib.rs`: the Stylus contract: host storage, sender, the ENS registry
  call and event logs around the verified core.
