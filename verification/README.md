# scip_exact

Exact mixed-integer linear problems for the SCIP solver, with the problem
logic verified by Verus.

- `src/rational.rs`: `Rational`, an exact fraction kept in lowest terms with a
  positive denominator (reduction by `num`'s `Ratio::new`), and the proof that
  such a representation is unique.
- `src/problem.rs`: the problem model, with names, and what it means for an
  assignment to satisfy it. Creating and building variables and adding
  linear constraints are recorded in it; variables carry the mark of the
  problem that made them, and each constraint yields
  the exact values the solver is handed, in the solver's array layout
  (coefficients, then left-hand side, then right-hand side).
- `src/codes.rs`: SCIP's status, result and boolean codes, the decoding of a
  status and the encoding of a constraint handler's answers.
- `app/lib.rs`: the SCIP session itself (`scip-sys` calls, callbacks,
  parameters, export), which performs what the library computes.
