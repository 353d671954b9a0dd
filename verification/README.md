# Equium Miner Pro

A multi-threaded $EQM miner for Solana whose logic is verified with Verus.

## Layout

- `src/` is the library. It holds what the miner computes and decides, and every function of it
  carries a contract that Verus proves.
  - `account` reads the on-chain configuration of a round.
  - `address` derives and shows addresses; `instruction` and `transaction` build and sign the
    mining transaction and broadcast it.
  - `config` and `nonce` share the nonces of a round out to the solver threads.
  - `session` is the mining loop: what to do and what to show after each event.
  - `receipt` follows submitted transactions until their fate is known.
  - `rpc` lists the endpoints and classifies their errors; `telegram` makes the requests that
    notify.
  - `logger`, `style`, `reward`, `clock`, `codec`, `text` and `bytes` hold the texts, numbers and
    byte layouts that the others are made of.
- `app/` is the program around it: settings, RPC connections, solver threads, printing and posting.
- `tests/` runs the library on concrete values, with the crates that it calls.

## What is proved

Beside the contract of each function, the library states laws as public proof functions, among
them:

- a stored configuration is read back, and only its fields are looked at
  (`account::stored_config_is_read_back`, `account::only_the_fields_are_read`);
- the same signed transaction goes to every endpoint exactly once (`transaction::Broadcast`), and
  one acceptance is enough (`transaction::first_acceptance_wins`);
- the solver threads together never try more nonces than a round allows
  (`nonce::round_stays_within_its_nonces`);
- a session stops exactly with the last block that it was asked for
  (`session::session_mines_what_was_asked_for`) and announces a round once
  (`session::round_is_announced_once`);
- every tracked transaction stays pending or gets one notice
  (`receipt::every_transaction_is_accounted_for`);
- the primary endpoint comes first and none is listed twice (`rpc::primary_url_comes_first`,
  `rpc::no_url_is_listed_twice`);
- the texts of amounts and running times lose nothing (`reward::reward_text_is_exact`,
  `clock::uptime_text_is_exact`).

What the library takes from other crates (base58, SHA-256, hexadecimal, JSON, address derivation,
signing, randomness and the clock) stands behind small functions whose contracts are trusted; the
comment above each says what it claims.

## Settings

All settings come from a `.env` file or from the command line:

```env
RPC_URL=https://rpc.ankr.com/sol/YOUR_API_KEY
RPC_URLS=https://rpc.ankr.com/sol/YOUR_API_KEY,https://mainnet.helius-rpc.com/?api-key=YOUR_KEY
KEYPAIR_PATH=~/.config/solana/id.json
THREADS=0  # 0 = auto-detect all cores
TELEGRAM_ENABLED=true
TELEGRAM_BOT_TOKEN=your_bot_token
TELEGRAM_CHAT_ID=your_chat_id
```

## License

Apache-2.0
