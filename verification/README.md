# corp_finance_core

Corporate-finance analytics on exact decimals, verified with Verus.

- `src/` is the library. Every analysis is a function with a contract that states its
  result over spec functions of the library: forensic accounting (Benford's Law, DuPont,
  peer benchmarking, red-flag scoring, Z-scores), fixed income (bond pricing, duration,
  credit spreads, yields and curve fitting, SSCMFI bond math), planning and analysis
  (variance, break-even, working capital, rolling forecasts), fund-of-funds analytics
  (commitment pacing, J-curve, manager selection, portfolio construction, secondaries) and
  FX and commodity pricing.
- `src/dec.rs` holds `Dec`, an exact decimal whose arithmetic, comparison, rounding and
  text are those of `rust_decimal`, called through a few trusted wrappers.
- `tests/` runs the library on concrete inputs.
- `app/` gives every input and output a serializable twin (serde), with conversions and
  entry points that take and return the twins.
