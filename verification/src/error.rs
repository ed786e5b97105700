//! Error type shared by every analytic of the library.
use vstd::prelude::*;

use crate::dec::Dec;

verus! {

/// Why an analysis could not produce a result.
#[derive(Debug, Clone)]
pub enum FinError {
    /// A field of the input is outside the range the analysis accepts.
    InvalidInput { field: String, reason: String },
    /// A ratio would have a zero denominator.
    DivisionByZero { context: String },
    /// The input does not hold enough observations.
    InsufficientData(String),
    /// An iterative solver stopped without meeting its tolerance.
    ConvergenceFailure { function: String, iterations: u32, last_delta: Dec },
    /// The inputs describe an economically impossible situation.
    FinancialImpossibility(String),
    /// An intermediate decimal result left the representable range.
    ArithmeticOverflow,
}

/// Result of every fallible analysis of the library.
pub type FinResult<T> = Result<T, FinError>;

/// An error as a variant code, its texts and, for a convergence failure, the iterations
/// run and the last delta.
pub type ErrView = (nat, Seq<char>, Seq<char>, Option<(u32, Dec)>);

pub open spec fn err_view(e: FinError) -> ErrView {
    match e {
        FinError::InvalidInput { field, reason } => (0, field@, reason@, None),
        FinError::DivisionByZero { context } => (1, context@, Seq::empty(), None),
        FinError::InsufficientData(m) => (2, m@, Seq::empty(), None),
        FinError::ConvergenceFailure { function, iterations, last_delta } => (
            3,
            function@,
            Seq::empty(),
            Some((iterations, last_delta)),
        ),
        FinError::FinancialImpossibility(m) => (4, m@, Seq::empty(), None),
        FinError::ArithmeticOverflow => (5, Seq::empty(), Seq::empty(), None),
    }
}

pub open spec fn invalid_input(field: Seq<char>, reason: Seq<char>) -> ErrView {
    (0, field, reason, None)
}

pub open spec fn division_by_zero(context: Seq<char>) -> ErrView {
    (1, context, Seq::empty(), None)
}

pub open spec fn insufficient_data(msg: Seq<char>) -> ErrView {
    (2, msg, Seq::empty(), None)
}

pub open spec fn convergence_failure(function: Seq<char>, iterations: u32, last_delta: Dec) -> ErrView {
    (3, function, Seq::empty(), Some((iterations, last_delta)))
}

pub open spec fn financial_impossibility(msg: Seq<char>) -> ErrView {
    (4, msg, Seq::empty(), None)
}

pub open spec fn overflow() -> ErrView {
    (5, Seq::empty(), Seq::empty(), None)
}

/// A library result as the value or the view of its error.
pub open spec fn res_view<T>(r: Result<T, FinError>) -> Result<T, ErrView> {
    match r {
        Ok(v) => Ok(v),
        Err(e) => Err(err_view(e)),
    }
}

/// An arithmetic result as an outcome: no value means an overflow.
pub open spec fn ov<T>(o: Option<T>) -> Result<T, ErrView> {
    match o {
        Some(v) => Ok(v),
        None => Err(overflow()),
    }
}

} // verus!
