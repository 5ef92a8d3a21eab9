# axelar_arbs

A cross-chain arbitrage bot between EVM chains (Polygon, BSC), with its decision logic
verified in Verus.

- `src/` is the library: token amounts as arbitrary-precision integers (`amount`), addresses
  (`address`), the decimal and JSON reading the router answers need (`decimal`, `json`,
  `text`), the Squid Router and Paraswap simulations (`routers`), the table of quotes the chains
  share (`chains`), and an arbitrage attempt (`arb`).
  The simulations and the attempt are step functions: each takes what just happened (a start,
  the body of an HTTP answer, the plan carried out) and says what to do next (the request to
  make, the plan to carry out, the result). The attempt also takes the flag that keeps two
  attempts from running at once.
- What the library takes from outside crates stands behind a few trusted items, each with a
  contract: reading one level of a JSON text (`serde_json`), reading and subtracting big
  integers (`num-bigint`), reading an address (`ethers-core`) and decoding hex call data
  (`hex`). Everything built on them, including the walk through nested JSON answers, is
  verified.
- `app/` runs the bot: it reads `./files/chains.json`, listens for blocks on every chain, makes
  the HTTP requests the steps ask for, signs and sends the transactions.
- `tests/` runs the library on concrete values.

Environment: `MY_WALLET_ADDRESS` and `MY_PRIVATE_KEY` (a `.env` file is read).
