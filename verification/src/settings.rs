//! How many threads a pool uses, and what each of them is started with.

use vstd::prelude::*;

verus! {

/// The characters of an optional name.
pub open spec fn name_view(name: Option<String>) -> Option<Seq<char>> {
    match name {
        Some(s) => Some(s@),
        None => None,
    }
}

/// A copy of an optional name.
pub fn clone_name(name: &Option<String>) -> (r: Option<String>)
    ensures
        name_view(r) == name_view(*name),
{
    match name {
        Some(s) => Some(s.clone()),
        None => None,
    }
}

/// A number of threads to use, which is at least one.
#[derive(Clone, Copy)]
pub struct ThreadCount {
    count: usize,
}

impl View for ThreadCount {
    type V = usize;

    closed spec fn view(&self) -> usize {
        self.count
    }
}

impl ThreadCount {
    /// It is at least one.
    #[verifier::type_invariant]
    closed spec fn inv(self) -> bool {
        self.count >= 1
    }

    /// The count `count`.
    pub fn new(count: usize) -> (r: ThreadCount)
        requires
            count >= 1,
        ensures
            r@ == count,
    {
        ThreadCount { count }
    }

    /// The count as an integer.
    pub fn get(&self) -> (count: usize)
        ensures
            count == self@,
            count >= 1,
    {
        proof {
            use_type_invariant(self);
        }
        self.count
    }
}

/// The name and the stack size of each thread of a pool. A thread without a name is unnamed,
/// and one without a stack size gets that of `std::thread`.
pub struct ThreadSettings {
    pub name: Option<String>,
    pub stack_size: Option<usize>,
}

/// The mathematical value of a [`ThreadSettings`].
pub struct ThreadSettingsView {
    pub name: Option<Seq<char>>,
    pub stack_size: Option<usize>,
}

impl View for ThreadSettings {
    type V = ThreadSettingsView;

    open spec fn view(&self) -> ThreadSettingsView {
        ThreadSettingsView { name: name_view(self.name), stack_size: self.stack_size }
    }
}

impl Clone for ThreadSettings {
    fn clone(&self) -> (r: Self)
        ensures
            r@ == self@,
    {
        ThreadSettings { name: clone_name(&self.name), stack_size: self.stack_size }
    }
}

} // verus!
