# blawgd

The rules of a small blogging platform on Solana, with the pure parts of its
browser client, verified with Verus.

The program modelled is the one with following lists, comment records and
per-user statuses on posts. Its program-wide state takes 16 bytes and is
given an account of 32.

- `src/state`: the accounts the program keeps (program state, user accounts
  with profiles, posts, per-user status on a post, following lists) and their
  byte layouts, with proofs that what is written reads back.
- `src/instructions`, `src/entrypoint.rs`: the five instructions and the
  entry point, each specified by the effect it has on its accounts and the
  accounts it asks the runtime to create.
- `src/laws.rs`: properties across instructions (a like adds one like,
  following and then unfollowing restores both users' counters, ...).
- `src/client`: the client's storage keys, paging, account and post views,
  the messages it sends,
  HTML of the navigation bar and posts, light-client storage keys, and the
  checking of Merkle proofs of the values it reads.
- `app/`: the Solana entry point that carries out account creations and the
  browser's local storage.
