use vstd::prelude::*;
use crate::ast::Expr;
use crate::interpreter::{self, step, Reduction};

verus! {

/// The result of one evaluation step.
pub enum Outcome {
    Step(Expr),
    Value,
}

/// One evaluation step of a term that is a value or can reduce, as every
/// well-typed term without a failing integer operation can.
pub fn try_step(expr: &Expr) -> (r: Outcome)
    requires
        step(expr@) is Value || step(expr@) is Step,
    ensures
        match r {
            Outcome::Value => step(expr@) is Value,
            Outcome::Step(e2) => step(expr@) == Reduction::Step(e2@),
        },
{
    match interpreter::try_step(expr) {
        Ok(interpreter::Outcome::Step(e2)) => Outcome::Step(e2),
        Ok(interpreter::Outcome::Value) => Outcome::Value,
        Err(_) => {
            proof {
                assert(false);
            }
            Outcome::Value
        },
    }
}

} // verus!
