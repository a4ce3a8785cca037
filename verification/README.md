# drift-margin

The margin of a Drift user, verified with Verus.

- `src/` is the library: market data, the choice between oracle and Pyth prices, the one-off
  and the incremental margin calculation, and the answers of the C interface. Every function
  states what it returns, and `src/laws/` states what holds of the calculations as a whole.
- `app/` is the C interface. It asks the Drift program for the figures that only the program
  can compute, hands them to the library and converts between the program's accounts and the
  library's types.
- `tests/` runs the library on concrete values.

Where the library has no answer (an unknown market, a number that does not fit its type) the
`checked_` functions say so; the functions without that prefix ask their callers to rule it out.
