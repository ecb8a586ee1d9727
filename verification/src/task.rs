//! Tasks, and how a worker runs them.

use vstd::prelude::*;

verus! {

/// A closure on its way to a worker.
pub struct ClosureContext<C> {
    pub callback: Option<C>,
}

/// A closure on its way to a worker, with the place of its result.
pub struct ReturnContext<R> {
    /// The event to set once the result is there.
    pub event: usize,
    pub result: u64,
    pub callback: Option<R>,
}

/// What can be submitted: a raw task that the caller runs itself, a closure, or
/// a closure that returns a result.
pub enum Task<T, C, R> {
    Raw(T),
    Closure(ClosureContext<C>),
    Return(ReturnContext<R>),
}

/// What is left to do of a task after `run_task`.
#[derive(Debug)]
pub enum Completion<T> {
    /// Call this raw task.
    CallRaw(T),
    /// Nothing.
    Done,
    /// Set `event`, with `result` as the task's result.
    SetEvent { event: usize, result: u64 },
}

/// Calls the closure, if it is still there.
pub fn closure_trampoline<C: FnOnce()>(ctx: ClosureContext<C>)
    requires
        ctx.callback matches Some(f) ==> call_requires(f, ()),
    ensures
        ctx.callback matches Some(f) ==> call_ensures(f, (), ()),
{
    if let Some(f) = ctx.callback {
        f();
    }
}

/// Takes the closure out and calls it, if it is still there, and keeps what it
/// returns. The event to set afterwards is returned.
pub fn return_trampoline<R: FnOnce() -> u64>(ctx: &mut ReturnContext<R>) -> (event: usize)
    requires
        old(ctx).callback matches Some(f) ==> call_requires(f, ()),
    ensures
        match old(ctx).callback {
            Some(f) => call_ensures(f, (), final(ctx).result),
            None => final(ctx).result == old(ctx).result,
        },
        final(ctx).callback is None,
        final(ctx).event == old(ctx).event,
        event == old(ctx).event,
{
    if let Some(f) = ctx.callback.take() {
        ctx.result = f();
    }
    ctx.event
}

/// Whether the closure inside a task may be called.
pub open spec fn callable<T, C: FnOnce(), R: FnOnce() -> u64>(task: Task<T, C, R>) -> bool {
    match task {
        Task::Raw(_) => true,
        Task::Closure(ctx) => ctx.callback matches Some(f) ==> call_requires(f, ()),
        Task::Return(ctx) => ctx.callback matches Some(f) ==> call_requires(f, ()),
    }
}

/// Runs a task as far as the pool can: a closure is called, and a raw task is
/// handed to the caller.
pub fn run_task<T, C: FnOnce(), R: FnOnce() -> u64>(task: Task<T, C, R>) -> (done: Completion<T>)
    requires
        callable(task),
    ensures
        match task {
            Task::Raw(raw) => done == Completion::CallRaw(raw),
            Task::Closure(ctx) => {
                &&& done == Completion::<T>::Done
                &&& ctx.callback matches Some(f) ==> call_ensures(f, (), ())
            },
            Task::Return(ctx) => {
                &&& done matches Completion::SetEvent { event, result }
                &&& event == ctx.event
                &&& match ctx.callback {
                    Some(f) => call_ensures(f, (), result),
                    None => result == ctx.result,
                }
            },
        },
{
    match task {
        Task::Raw(raw) => Completion::CallRaw(raw),
        Task::Closure(ctx) => {
            closure_trampoline(ctx);
            Completion::Done
        },
        Task::Return(ctx) => {
            let mut ctx = ctx;
            let event: usize = return_trampoline(&mut ctx);
            Completion::SetEvent { event, result: ctx.result }
        },
    }
}

} // verus!
