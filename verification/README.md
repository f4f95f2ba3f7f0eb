# nomos_chain

Verified decision logic of the Nomos chain services (consensus, leader and
network services), written in Verus.

- `src/` is the library. Every function carries a `requires`/`ensures`
  contract that Verus proves; the public `proof fn`s state the properties that
  hold across calls (for example, that a chain never returns from online to
  bootstrapping, or that the blocks sent to a syncing peer come parent before
  child).
  - Chain model: `header`, `branches`, `fork_choice`.
  - Serving blocks and headers to peers: `block_provider`, `sync_path`,
    `headers`, `sync_requests`.
  - Orphan downloads and the initial block download: `orphan_handler`, `ibd`.
  - Block processing: `processor`, `blob`, `da`, `storage`,
    `transaction_manager`, `broadcaster`, `consensus`.
  - The main loops of the services, as state machines: `service_loop`.
  - Leadership: `leadership`, `merkle`, `pol_cache`.
  - Test helpers of the blend service and the Carnot approval rule:
    `blend_test_utils`, `carnot`.
- `app/` holds what stays outside the proofs: serialisable settings, error
  types with their messages, and the thread-shared test verifier.
- `tests/` runs the library on concrete scenarios.

The only outside code the proofs rely on is BLAKE2b-512 (from the `blake2`
crate), behind one trusted function in `src/merkle.rs`.
