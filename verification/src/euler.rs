//! Euler's method for ordinary differential equations of the form
//! y^(n) = f(t, y, y', ..., y^(n-1)): the solver holds `f`, and the values it
//! steps are arrays ordered from the highest derivative down to the time.
use vstd::prelude::*;
use std::marker::PhantomData;

verus! {

/// The arrays a solver steps: two to five values.
pub trait FunctionArguments: Clone {}

impl<T: Clone> FunctionArguments for [T; 2] {}

impl<T: Clone> FunctionArguments for [T; 3] {}

impl<T: Clone> FunctionArguments for [T; 4] {}

impl<T: Clone> FunctionArguments for [T; 5] {}

/// An Euler solver for values of type `A` and the derivative function `F`.
pub struct EulerSolver<A, F> {
    derivative_function: F,
    phantom: PhantomData<A>,
}

impl<A: FunctionArguments, F> EulerSolver<A, F> {
    /// The derivative function.
    pub closed spec fn derivative_function_spec(&self) -> F {
        self.derivative_function
    }

    /// A solver for the given derivative function.
    pub fn new(derivative_function: F) -> (res: EulerSolver<A, F>)
        ensures
            res.derivative_function_spec() == derivative_function,
    {
        EulerSolver { derivative_function, phantom: PhantomData }
    }

    /// The derivative function.
    pub fn derivative_function(&self) -> (res: &F)
        ensures
            *res == self.derivative_function_spec(),
    {
        &self.derivative_function
    }
}

} // verus!
