# txio_cli

The verified core of `flow`, a terminal for several blockchains (Sui,
Ethereum, Solana, Aptos, Soroban/Stellar).

- `src/` is the library, proved with Verus: chain selection and typo
  suggestions (`chains`), network resolution (`network`), reading balances
  and gas prices out of RPC answers and how they are shown (`results`,
  `amounts`), the retry policy and JSON-RPC answers (`rpc`), what is kept in
  `~/.txio` (`settings`), command decisions (`commands`), the JSON model
  (`json`) and character-level text handling (`text`).
- `app/` is the program around it: argument parsing, HTTP, files,
  environment files and printing.
- `tests/` runs the library on concrete values.
