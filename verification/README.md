# tn5250r

A verified library for an IBM 5250/3270 terminal emulator, checked with Verus.

- `src/` is the library: EBCDIC tables, the 5250 and 3270 data streams
  (codes, parsers, displays, fields, sessions, telnet option negotiation),
  the terminal screen, the host connection's decisions (protocol detection,
  telnet filtering, TLS and session bookkeeping, CA bundles, the option
  negotiation and receive decisions), and the monitors (integration,
  security, quality, alerting, system health). Contracts are stated in
  `requires`/`ensures` over spec models; where a result is a clock reading,
  they state what holds of every reading.
- `tests/` runs the library on concrete values.
- `app/` is the program around it: command-line options, file and
  environment access, the process-wide monitoring thread, and the runtime
  and performance checks, whose thresholds and rates are floating point.
