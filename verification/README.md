# ach

The voting core of a chained-HotStuff replica with view jumps driven by a
reputation tracker, written in Verus.

## Layout

- `src/types.rs`: identifiers (`PublicKey`, `Digest`, `Signature` are `u64`
  keys), quorum certificates, blocks as the voting logic sees them (digest and
  justifying certificate), messages and network packages.
- `src/voter_set.rs`: the committee, its lookup index and its quorum threshold
  `n - floor(n/3)`.
- `src/leadership.rs`: round-robin leaders (`leader_rotation` views each) and the
  search for the next view with another leader, proved to terminate.
- `src/voter_state.rs`: a replica's voting state (views, certificates, vote and
  new-view tallies, reputation scores) and its mathematical model `VoterModel`;
  every operation is specified as a function on the model.
- `src/protocol.rs`: the decisions of the voter, leader and pacemaker tasks:
  view jumps, the voting rule, the choice of the jump target, the whole handling
  of a proposal (vote, lock, three-chain commit, end of view), vote counting,
  timeouts and back-off.
- `src/buffer.rs`: packages held for views the replica has not reached yet.
- `src/tally.rs`: pruning of per-view maps.
- `src/laws.rs`: properties that span operations (quorum intersection, leader
  periodicity and changes, certificates formed once in any run of votes,
  monotone certificates, pruning, buffer
  delivery).
- `app/`: the tokio tasks, locks and channels that drive the library; the block
  tree, signer and reputation tracker are supplied through traits.
