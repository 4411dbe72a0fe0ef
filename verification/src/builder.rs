//! The configuration of a pool.

use crate::history::History;
use crate::history::PoolView;
use crate::pool::Pool;
use crate::settings::clone_name;
use crate::settings::ThreadCount;
use crate::settings::ThreadSettings;
use crate::settings::ThreadSettingsView;
use crate::worker::Worker;
use vstd::prelude::*;

verus! {

/// `num_cpus::get` returns the number of CPUs that are available to the process, which is
/// always at least one. Which number it is depends on the machine.
pub assume_specification[ num_cpus::get ]() -> (n: usize)
    ensures
        n >= 1,
;

/// Whether `num_cpus::get` may have returned `n`.
pub open spec fn is_cpu_count(n: usize) -> bool {
    call_ensures(num_cpus::get, (), n)
}

/// The mathematical value of a [`Builder`].
pub struct BuilderView {
    pub num_threads: Option<usize>,
    pub thread_name: Option<Seq<char>>,
    pub thread_stack_size: Option<usize>,
}

impl BuilderView {
    /// Nothing configured.
    pub open spec fn empty() -> Self {
        BuilderView { num_threads: None, thread_name: None, thread_stack_size: None }
    }

    /// With that number of threads.
    pub open spec fn with_num_threads(self, num_threads: usize) -> Self {
        BuilderView { num_threads: Some(num_threads), ..self }
    }

    /// With that thread name.
    pub open spec fn with_thread_name(self, name: Seq<char>) -> Self {
        BuilderView { thread_name: Some(name), ..self }
    }

    /// With that stack size.
    pub open spec fn with_thread_stack_size(self, size: usize) -> Self {
        BuilderView { thread_stack_size: Some(size), ..self }
    }

    /// What each thread of the pool will be started with.
    pub open spec fn settings(self) -> ThreadSettingsView {
        ThreadSettingsView { name: self.thread_name, stack_size: self.thread_stack_size }
    }
}

/// [`Pool`] factory, which can be used in order to configure the properties of the
/// [`Pool`].
///
/// The three configuration options available:
///
/// * `num_threads`: maximum number of threads that will be alive at any given moment by the
///   built [`Pool`]
/// * `thread_name`: thread name for each of the threads spawned by the built [`Pool`]
/// * `thread_stack_size`: stack size (in bytes) for each of the threads spawned by the built
///   [`Pool`]
pub struct Builder {
    num_threads: Option<ThreadCount>,
    thread_name: Option<String>,
    thread_stack_size: Option<usize>,
}

impl View for Builder {
    type V = BuilderView;

    closed spec fn view(&self) -> BuilderView {
        BuilderView {
            num_threads: match self.num_threads {
                Some(count) => Some(count@),
                None => None,
            },
            thread_name: crate::settings::name_view(self.thread_name),
            thread_stack_size: self.thread_stack_size,
        }
    }
}

impl Builder {
    /// Initiate a new [`Builder`].
    pub fn new() -> (r: Builder)
        ensures
            r@ == BuilderView::empty(),
    {
        Builder { num_threads: None, thread_name: None, thread_stack_size: None }
    }

    /// Set the maximum number of worker-threads that will be alive at any given moment by the
    /// built [`Pool`]. If not specified, defaults the number of threads to the number of
    /// CPUs.
    pub fn num_threads(self, num_threads: usize) -> (r: Builder)
        requires
            num_threads > 0,
        ensures
            r@ == self@.with_num_threads(num_threads),
    {
        Builder {
            num_threads: Some(ThreadCount::new(num_threads)),
            thread_name: self.thread_name,
            thread_stack_size: self.thread_stack_size,
        }
    }

    /// Set the thread name for each of the threads spawned by the built [`Pool`]. If not
    /// specified, threads spawned by the thread pool will be unnamed.
    pub fn thread_name(self, name: String) -> (r: Builder)
        ensures
            r@ == self@.with_thread_name(name@),
    {
        Builder {
            num_threads: self.num_threads,
            thread_name: Some(name),
            thread_stack_size: self.thread_stack_size,
        }
    }

    /// Set the stack size (in bytes) for each of the threads spawned by the built [`Pool`].
    /// If not specified, threads spawned by the pool will have a stack size as specified in
    /// the `std::thread` documentation.
    pub fn thread_stack_size(self, size: usize) -> (r: Builder)
        ensures
            r@ == self@.with_thread_stack_size(size),
    {
        Builder {
            num_threads: self.num_threads,
            thread_name: self.thread_name,
            thread_stack_size: Some(size),
        }
    }

    /// Finalize the [`Builder`] and build the [`Pool`].
    pub fn build<T>(self) -> (r: Pool<T>) where T: Worker
        ensures
            r.wf(),
            r.history() == History::<T::Input, T::Output>::new(self@.settings(), r@.max),
            r@ == PoolView::<T::Input, T::Output>::fresh(self@.settings(), r@.max),
            r@.max >= 1,
            self@.num_threads matches Some(n) ==> r@.max == n,
            self@.num_threads is None ==> is_cpu_count(r@.max),
    {
        let num_threads: usize = match &self.num_threads {
            Some(count) => count.get(),
            None => num_cpus::get(),
        };
        self.build_with(num_threads)
    }

    /// Build a [`Pool`] of `num_threads` threads with what else is configured.
    pub fn build_with<T>(self, num_threads: usize) -> (r: Pool<T>) where T: Worker
        requires
            num_threads >= 1,
        ensures
            r.wf(),
            r.history() == History::<T::Input, T::Output>::new(self@.settings(), num_threads),
            r@ == PoolView::<T::Input, T::Output>::fresh(self@.settings(), num_threads),
    {
        Pool::with_settings(
            ThreadSettings { name: self.thread_name, stack_size: self.thread_stack_size },
            num_threads,
        )
    }
}

impl Default for Builder {
    fn default() -> (r: Self)
        ensures
            r@ == BuilderView::empty(),
    {
        Builder::new()
    }
}

impl Clone for Builder {
    fn clone(&self) -> (r: Self)
        ensures
            r@ == self@,
    {
        Builder {
            num_threads: self.num_threads,
            thread_name: clone_name(&self.thread_name),
            thread_stack_size: self.thread_stack_size,
        }
    }
}

} // verus!
