//! Errors of the hydraulic calculations.

use crate::outside::string_of;
use crate::text::push_all;
use crate::text::chars_of;
use vstd::prelude::*;

verus! {

/// A calculation that cannot be carried out, with the reason.
#[derive(Debug)]
pub struct CalculationError {
    pub message: String,
}

impl CalculationError {
    pub fn new(message: &str) -> (r: CalculationError)
        ensures
            r.message@ == message@,
    {
        CalculationError { message: String::from_str(message) }
    }

    /// The error as a sentence: `Calculation Error: ` and the reason.
    pub fn describe(&self) -> (r: String)
        ensures
            r@ == "Calculation Error: "@ + self.message@,
    {
        let mut t = chars_of("Calculation Error: ");
        push_all(&mut t, &chars_of(self.message.as_str()));
        string_of(&t)
    }
}

/// Why the throat radius of an egg-shaped profile cannot be solved for: the
/// dimensions admit no solution, or the iteration does not settle.
#[derive(Debug, PartialEq, Eq, Structural)]
pub enum R3CalculatorError {
    MathDomainError,
    ConvergenceError,
}

} // verus!
