# find-xrp-addr

A vanity address finder for the XRP Ledger: it draws random family seeds, derives
their classic `r...` addresses, and reports those that begin with, end with or
contain the wanted text.

- `src/` is the library, verified with Verus: the checks on the patterns
  (`validate`), the address tests (`matcher`, `search`), seed and address
  derivation through `ripple-keypairs` (`keys`), the decimal and thousands-grouped
  numbers (`numbers`), the lines the program prints (`report`), and the `op`
  command and reply handling for 1Password (`onepassword`).
- `app/main.rs` is the program: command-line parsing, worker threads, random
  entropy, the terminal, Ctrl-C and running `op`.
- `tests/` runs the library on concrete values.
