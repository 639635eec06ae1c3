use vstd::prelude::*;

use crate::concat::ConcatTuple;
use crate::map::{called_text, calls_to_one_text, Call};
use crate::noop::{no_op, NoOp};
use crate::render::{Pure, Render};
use crate::sink::{Sink, WriteError};

verus! {

/// Renders one of two values: the `Ok` one or the `Err` one.
pub struct CondOr<T, U> {
    pub value: Result<T, U>,
}

/// Renders a value or nothing.
pub type Cond<T> = CondOr<T, NoOp>;

/// Writes `value` when `write` holds, and nothing otherwise.
pub fn cond<T: Render>(write: bool, value: T) -> (r: Cond<T>)
    ensures
        r.value == (if write { Ok(value) } else { Err(ConcatTuple(())) }),
        r.text() == (if write { value.text() } else { Seq::<char>::empty() }),
{
    cond_option(if write { Some(value) } else { None })
}

/// Writes `value` when `write` holds, and `fallback` otherwise.
pub fn cond_or<T: Render, U: Render>(write: bool, value: T, fallback: U) -> (r: CondOr<T, U>)
    ensures
        r.value == (if write { Ok(value) } else { Err::<T, U>(fallback) }),
        r.text() == (if write { value.text() } else { fallback.text() }),
{
    cond_result(if write { Ok(value) } else { Err(fallback) })
}

/// Writes the value of `option`, or nothing for `None`.
pub fn cond_option<T: Render>(option: Option<T>) -> (r: Cond<T>)
    ensures
        r.value == (match option {
            Some(v) => Ok(v),
            None => Err(ConcatTuple(())),
        }),
        r.text() == (match option {
            Some(v) => v.text(),
            None => Seq::<char>::empty(),
        }),
{
    cond_option_or(option, no_op())
}

/// Writes the value of `option`, or `fallback` for `None`.
pub fn cond_option_or<T: Render, U: Render>(option: Option<T>, fallback: U) -> (r: CondOr<T, U>)
    ensures
        r.value == (match option {
            Some(v) => Ok(v),
            None => Err::<T, U>(fallback),
        }),
        r.text() == (match option {
            Some(v) => v.text(),
            None => fallback.text(),
        }),
{
    match option {
        Some(v) => cond_result(Ok(v)),
        None => cond_result(Err(fallback)),
    }
}

/// Writes whichever value `result` holds.
pub fn cond_result<T: Render, U: Render>(result: Result<T, U>) -> (r: CondOr<T, U>)
    ensures
        r.value == result,
        r.text() == (match result {
            Ok(v) => v.text(),
            Err(v) => v.text(),
        }),
{
    CondOr { value: result }
}

impl<T: Render, U: Render> Render for CondOr<T, U> {
    open spec fn text(&self) -> Seq<char> {
        match self.value {
            Ok(v) => v.text(),
            Err(v) => v.text(),
        }
    }

    open spec fn step(&self, next: &Self) -> bool {
        match (self.value, next.value) {
            (Ok(a), Ok(b)) => a.step(&b),
            (Err(a), Err(b)) => a.step(&b),
            _ => false,
        }
    }

    fn render<S: Sink>(&mut self, sink: S) -> (r: (S, Result<(), WriteError>)) {
        match &mut self.value {
            Ok(v) => v.render(sink),
            Err(v) => v.render(sink),
        }
    }
}

impl<T: Pure, U: Pure> Pure for CondOr<T, U> {
    proof fn lemma_step_keeps_text(&self, next: &Self) {
        match (self.value, next.value) {
            (Ok(a), Ok(b)) => a.lemma_step_keeps_text(&b),
            (Err(a), Err(b)) => a.lemma_step_keeps_text(&b),
            _ => {},
        }
    }
}

/// Renders what a function returns, or nothing.
pub struct CondWith<C> {
    pub make_value: C,
}

/// Writes what `f` returns when `write` holds, and nothing otherwise; `f` is
/// only called when it is rendered.
pub fn cond_with<R: Render, F: Fn() -> R>(write: bool, f: F) -> (r: CondWith<Option<Call<R, F>>>)
    requires
        write ==> calls_to_one_text(f),
    ensures
        r.make_value is Some <==> write,
        r.make_value matches Some(c) ==> c.function() == f,
        r.text() == (if write { called_text(f) } else { Seq::<char>::empty() }),
{
    CondWith { make_value: if write { Some(Call::new(f)) } else { None } }
}

/// Writes the value `f` returns, or nothing when it returns `None`; `f` is
/// called on every render.
pub fn cond_with_option<R: Render, F: Fn() -> Option<R>>(f: F) -> (r: CondWith<Call<Option<R>, F>>)
    requires
        calls_to_one_text(f),
    ensures
        r.make_value.function() == f,
        r.text() == called_text(f),
{
    CondWith { make_value: Call::new(f) }
}

impl<C: Render> Render for CondWith<C> {
    open spec fn text(&self) -> Seq<char> {
        self.make_value.text()
    }

    open spec fn step(&self, next: &Self) -> bool {
        self.make_value.step(&next.make_value)
    }

    fn render<S: Sink>(&mut self, sink: S) -> (r: (S, Result<(), WriteError>)) {
        self.make_value.render(sink)
    }
}

impl<C: Pure> Pure for CondWith<C> {
    proof fn lemma_step_keeps_text(&self, next: &Self) {
        self.make_value.lemma_step_keeps_text(&next.make_value);
    }
}

} // verus!
