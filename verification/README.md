# Binance survival bot

A small spot-trading bot for BTC/USDT that puts survival first: it trades long only,
caps every position that it opens, protects it with a stop at the exchange, and stops
for good once a fifth of its equity is lost. It runs in practice mode unless two switches
are set.

The decisions of the bot are a verified library; the network, the disk and the clock are
a thin program around it.

- `src/` is the library, proved with Verus. Each module states what its functions
  compute. Functions whose names begin with `law_` are theorems about several of them.
- `app/` is the program: arguments, environment, HTTP, files, mail and the dashboard. It
  also holds the few measures that need floating point (volatility, z-score, Sharpe
  ratio, correlation).
- `tests/` runs the library on concrete values.

## How a run goes

`app/runner.rs` reads the wallet, the price, the candles and the books, in the order that
`start` asks for. Then `tick::Tick` decides: each step asks for one outside action (a
query, an order, a cancellation) and takes its outcome, until the run is over. Nothing in
the library performs an action.

## Numbers

Amounts are `i128` in steps of `10^-12`, at most `10^12` in magnitude. Position sizes go
through `rust_decimal`. A number that is missing or no number is `None`.

## What is taken on trust

The contracts of the outside functions that the library calls: decimal arithmetic
(`money`), HMAC-SHA256 and hexadecimal (`binance_auth`), SHA-256 (`control`), the JSON of
candles and of single fields (`candles`, `json`), the clock and the calendar (`clock`),
and `String::push` (`text`). Each is a small function or declaration with a comment on what is claimed of it.
