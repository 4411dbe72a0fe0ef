//! Provides a `Worker` for simple stateless functions that have no arguments.
//!
//! The stateless [`ThunkWorker<T>`] executes on inputs of [`Thunk<T>`], effectively
//! argumentless functions that are `Sized + Send`. Thunks are created by wrapping functions
//! which return `T` with [`Thunk::of`].

use crate::worker::Worker;
use std::marker::PhantomData;
use vstd::prelude::*;

verus! {

/// A function without arguments that can be called through a `Box`.
pub trait FnBox<T>: Send {
    /// Whether the function may be called.
    spec fn callable(&self) -> bool;

    /// Whether the function may return `out`.
    spec fn may_return(&self, out: T) -> bool;

    fn call_box(self: Box<Self>) -> (out: T)
        requires
            self.callable(),
        ensures
            self.may_return(out),
    ;
}

impl<T, F: FnOnce() -> T + Send> FnBox<T> for F {
    open spec fn callable(&self) -> bool {
        call_requires(*self, ())
    }

    open spec fn may_return(&self, out: T) -> bool {
        call_ensures(*self, (), out)
    }

    fn call_box(self: Box<F>) -> (out: T) {
        (*self)()
    }
}

/// This type represents an argumentless function with return type `T` that is also `Sized +
/// Send`.
///
/// You can create it by wrapping such a function with [`Thunk::of`].
#[verifier::reject_recursive_types(T)]
pub struct Thunk<'a, T>(Box<dyn FnBox<T> + 'a>);

impl<'a, T> Thunk<'a, T> {
    /// The wrapped function may be called.
    #[verifier::type_invariant]
    closed spec fn inv(self) -> bool {
        self.0.callable()
    }

    /// Whether running the thunk may give `out`.
    pub closed spec fn may_return(self, out: T) -> bool {
        self.0.may_return(out)
    }

    /// Wraps `f`: running the thunk gives what calling `f` gives.
    pub fn of<F>(f: F) -> (r: Self) where F: FnOnce() -> T + Send + 'static
        requires
            call_requires(f, ()),
        ensures
            forall|out: T| #[trigger] r.may_return(out) <==> call_ensures(f, (), out),
    {
        Thunk(Box::new(f))
    }

    /// Runs the wrapped function.
    pub fn run(self) -> (out: T)
        ensures
            self.may_return(out),
    {
        proof {
            use_type_invariant(&self);
        }
        self.0.call_box()
    }
}

/// [`ThunkWorker<T>`] implements [`Worker`] that executes on [`Thunk<T>`].
pub struct ThunkWorker<T>(PhantomData<T>);

impl<T> Default for ThunkWorker<T> {
    fn default() -> (r: Self)
        ensures
            r == ThunkWorker::<T>::spec_default(),
    {
        ThunkWorker(PhantomData)
    }
}

impl<T> ThunkWorker<T> {
    /// The one value of the type.
    pub closed spec fn spec_default() -> Self {
        ThunkWorker(PhantomData)
    }
}

impl<T: Send + 'static> Worker for ThunkWorker<T> {
    type Input = Thunk<'static, T>;

    type Output = T;

    /// The output is one that the thunk may give; the worker keeps no state.
    open spec fn executed(pre: Self, inp: Self::Input, post: Self, out: Self::Output) -> bool {
        inp.may_return(out) && post == pre
    }

    fn execute(&mut self, f: Self::Input) -> (out: Self::Output) {
        f.run()
    }
}

} // verus!
