//! The worker pool on which analyses run side by side: one pool, built when it
//! is first needed, with fire-and-forget tasks and fork-join scopes.

use vstd::prelude::*;
use vstd::string::{StringExecFns, to_string_from_display_ensures};
use rayon::{Scope, ThreadPool, ThreadPoolBuildError, ThreadPoolBuilder};

verus! {

/// rayon's pool of worker threads. Nothing inside it is visible here.
#[verifier::external_type_specification]
#[verifier::external_body]
pub struct ExThreadPool(rayon::ThreadPool);

/// rayon's error for a pool that could not be built.
#[verifier::external_type_specification]
#[verifier::external_body]
pub struct ExThreadPoolBuildError(rayon::ThreadPoolBuildError);

/// rayon's handle for spawning the tasks of one fork-join scope.
#[verifier::external_type_specification]
#[verifier::external_body]
pub struct ExScope<'scope>(rayon::Scope<'scope>);

/// Why the scheduler did not take a task.
#[derive(Clone, Copy, Debug, PartialEq, Eq, Structural)]
pub enum SchedulerError {
    /// The worker pool could not be built: no thread was to be had.
    PoolBuildFailed,
    /// The scheduler was shared before its pool was built.
    PoolNotBuilt,
}

/// The owner of the worker pool. The pool is built by the first call that
/// needs it and kept from then on.
pub struct Scheduler {
    pool: Option<ThreadPool>,
}

impl Scheduler {
    /// Whether the pool has been built.
    pub closed spec fn is_built(&self) -> bool {
        self.pool is Some
    }

    /// A scheduler whose pool is yet to be built.
    pub fn new() -> (result: Self)
        ensures
            !result.is_built(),
    {
        Scheduler { pool: None }
    }

    /// Builds the pool unless it is there already, and says whether there is
    /// one now. A pool that is there is never replaced.
    pub fn ensure_pool(&mut self) -> (built: bool)
        ensures
            built == final(self).is_built(),
            old(self).is_built() ==> built && *final(self) == *old(self),
    {
        if self.pool.is_none() {
            match build_rayon_thread_pool() {
                Ok(pool) => {
                    self.pool = Some(pool);
                    true
                },
                Err(_) => false,
            }
        } else {
            true
        }
    }

    /// Whether the pool has been built.
    pub fn has_pool(&self) -> (result: bool)
        ensures
            result == self.is_built(),
    {
        self.pool.is_some()
    }

    /// Hands `func` to some worker of the pool and returns without waiting for
    /// it. For a scheduler that is shared: it builds nothing, and takes the
    /// task exactly when the pool is there.
    pub fn spawn<F>(&self, func: F) -> (result: Result<(), SchedulerError>)
        where
            F: FnOnce() + Send + 'static,
        requires
            func.requires(()),
        ensures
            self.is_built() ==> result is Ok,
            !self.is_built() ==> result == Err::<(), SchedulerError>(SchedulerError::PoolNotBuilt),
    {
        match &self.pool {
            Some(pool) => {
                pool_spawn(pool, func);
                Ok(())
            },
            None => Err(SchedulerError::PoolNotBuilt),
        }
    }

    /// Runs `op` on the pool and returns what it returned, once every task
    /// that it spawned on its scope handle has ended. For a scheduler that is
    /// shared: it builds nothing, and runs `op` exactly when the pool is there.
    pub fn scope<'scope, OP, R>(&self, op: OP) -> (result: Result<R, SchedulerError>)
        where
            OP: FnOnce(&Scope<'scope>) -> R + Send,
            R: Send,
        requires
            forall|handle: &Scope<'scope>| op.requires((handle,)),
        ensures
            self.is_built() ==> result is Ok,
            result matches Ok(value) ==> self.is_built() && returns_in_scope(op, value),
            result matches Err(error) ==> error == SchedulerError::PoolNotBuilt,
    {
        match &self.pool {
            Some(pool) => {
                let value = pool_scope(pool, op);
                Ok(value)
            },
            None => Err(SchedulerError::PoolNotBuilt),
        }
    }
}

/// The name of the worker with the given index: `rayon thread `, then the
/// index as std prints it.
pub fn worker_name(index: usize) -> (name: String)
    ensures
        exists|digits: String| #[trigger]
            to_string_from_display_ensures::<usize>(&index, digits) && name@ == "rayon thread "@
                + digits@,
{
    let digits = index.to_string();
    let mut name = "rayon thread ".to_owned();
    name.append(digits.as_str());
    name
}

/// Builds a pool with the default number of workers, each named by its index.
///
/// Trusted: calls rayon's `ThreadPoolBuilder::new`, `thread_name` and `build`.
/// Whether a pool comes back depends on the machine, so nothing is stated of
/// the result.
#[verifier::external_body]
fn build_rayon_thread_pool() -> Result<ThreadPool, ThreadPoolBuildError> {
    ThreadPoolBuilder::new().thread_name(|index| worker_name(index)).build()
}

/// `op`, called with some scope handle, may return `value`.
pub open spec fn returns_in_scope<'scope, OP, R>(op: OP, value: R) -> bool
    where
        OP: FnOnce(&Scope<'scope>) -> R,
{
    exists|handle: &Scope<'scope>| #[trigger] op.ensures((handle,), value)
}

/// Hands a task to the pool.
///
/// Trusted: calls rayon's `ThreadPool::spawn`, which queues the task and
/// returns at once. The task must be one that may be called.
#[verifier::external_body]
fn pool_spawn<F>(pool: &ThreadPool, func: F)
    where
        F: FnOnce() + Send + 'static,
    requires
        func.requires(()),
{
    pool.spawn(func)
}

/// Runs a fork-join scope on the pool.
///
/// Trusted: calls rayon's `ThreadPool::scope`, which calls `op` once with a
/// scope handle, waits for every task spawned on that handle, and returns what
/// `op` returned.
#[verifier::external_body]
fn pool_scope<'scope, OP, R>(pool: &ThreadPool, op: OP) -> (result: R)
    where
        OP: FnOnce(&Scope<'scope>) -> R + Send,
        R: Send,
    requires
        forall|handle: &Scope<'scope>| op.requires((handle,)),
    ensures
        returns_in_scope(op, result),
{
    pool.scope(op)
}

/// Hands `func` to some worker of the pool and returns without waiting for it.
/// The pool is built first where this is the first use of the scheduler; the
/// task is taken exactly when there is a pool.
pub fn spawn<F>(scheduler: &mut Scheduler, func: F) -> (result: Result<(), SchedulerError>)
    where
        F: FnOnce() + Send + 'static,
    requires
        func.requires(()),
    ensures
        result is Ok == final(scheduler).is_built(),
        old(scheduler).is_built() ==> result is Ok && *final(scheduler) == *old(scheduler),
        result matches Err(error) ==> error == SchedulerError::PoolBuildFailed,
{
    if scheduler.ensure_pool() {
        scheduler.spawn(func)
    } else {
        Err(SchedulerError::PoolBuildFailed)
    }
}

/// Runs `op` on the pool and returns what it returned, once every task that it
/// spawned on its scope handle has ended. The pool is built first where this is
/// the first use of the scheduler; `op` runs exactly when there is a pool.
pub fn scope<'scope, OP, R>(scheduler: &mut Scheduler, op: OP) -> (result: Result<R, SchedulerError>)
    where
        OP: FnOnce(&Scope<'scope>) -> R + Send,
        R: Send,
    requires
        forall|handle: &Scope<'scope>| op.requires((handle,)),
    ensures
        result is Ok == final(scheduler).is_built(),
        old(scheduler).is_built() ==> result is Ok && *final(scheduler) == *old(scheduler),
        result matches Ok(value) ==> returns_in_scope(op, value),
        result matches Err(error) ==> error == SchedulerError::PoolBuildFailed,
{
    if scheduler.ensure_pool() {
        scheduler.scope(op)
    } else {
        Err(SchedulerError::PoolBuildFailed)
    }
}

} // verus!
