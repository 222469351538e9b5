# ncn_core

Verified Merkle-proof checking for stake snapshots, with the small pieces of
command-line logic that sit beside it.

- `src/hashing.rs`: 32-byte digests and keys, and the SHA-256 digest of a
  list of byte strings (through `solana_sdk::hash::hashv`).
- `src/merkle.rs`: snapshot leaves and their hashes, leaf and intermediate
  node hashing, the byte order of digests, `verify_helper`, and the laws of
  proof reconstruction (sibling order does not matter; sibling leaves share
  their proof above the parent).
- `src/hex_text.rs`: parsing of 64 hexadecimal digits into 32 bytes
  (through `hex::decode`).
- `src/cli.rs`: cluster names and the summary text of the global settings.
- `src/error.rs`: the error that a refused proof reports.
- `app/`: the clap arguments and the Borsh-encoded snapshot types, converted
  to and from the library's types.
