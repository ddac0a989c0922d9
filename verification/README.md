# knova

Two services behind one gateway, with their logic verified by Verus.

The authorization service owns credentials: it throttles logins, checks
passwords, issues, verifies and revokes bearer tokens, and forwards
authenticated requests. The profile service keeps one versioned profile per
user; a write states the version it means to replace, and is refused if that is
no longer the stored one.

- `src/common/` — text, time, headers, entity tags and the wire types.
- `src/auth/` — throttle, accounts, tokens, login, the gateway hop.
- `src/profile/` — the stores, idempotency keys, and the profile handlers.
  `store/laws.rs` states what holds of every store over any run of operations;
  `store/tables.rs` states what the SQL statements do, and that the operations
  run over them keep the same contract.
- `src/loadgen.rs` — what the load generator reads of a login's answer and of
  its token.
- `tests/` — the library from outside, with the real outside crates.
- `app/` — the program: routers, sockets, locks, the database driver.

Functions whose name ends in `_at` take the reading of the clock as an argument
and have exact contracts. Their counterparts without the suffix read the clock
themselves, and state what holds whatever it read.
