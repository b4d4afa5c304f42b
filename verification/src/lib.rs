//! A verified front end for building exact mixed-integer linear problems
//! for the SCIP solver: exact rational coefficients, the problem model that
//! variables and constraints are recorded in, and the decoding of the
//! solver's status and result codes.

pub mod rational;
pub mod codes;
pub mod problem;
