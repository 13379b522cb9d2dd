# ark_onramp

A payment processor that lets a Cashu mint take on-chain bitcoin and Lightning payments into an Ark
wallet. An on-chain deposit boards into the mint's Ark reserve, by payjoin where the sender can, and
the mint credits what was deposited less the fees.

- `src/` is the library: the stores, the rules for deposits, boards, credits and payments, the
  decisions of a payjoin session, and the proof of reserves. Every function carries a contract that
  Verus proves. `src/adapters.rs` holds the calls into other crates, whose contracts are believed;
  so is one of the standard library, for `String::push` in `src/text.rs`.
- `app/` is the program around it: the wallets, redb, HTTP, the mint's interface, the timers.
- `tests/` runs the library on concrete values.

Properties that span several functions are stated as public proof functions whose names begin with
`law_`, next to the functions that they speak of.
