use vstd::prelude::*;

use crate::map::{called_text, calls_to_one_text, Call};
use crate::render::{lemma_sink_chain, Pure, Render};
use crate::sink::{Sink, WriteError};

verus! {

/// `t` written `n` times over.
pub open spec fn repeat_text(t: Seq<char>, n: nat) -> Seq<char>
    decreases n,
{
    if n == 0 {
        Seq::empty()
    } else {
        repeat_text(t, (n - 1) as nat) + t
    }
}

/// Renders a value `n` times.
#[derive(Clone, Copy)]
pub struct Repeat<T> {
    pub value: T,
    pub n: usize,
}

/// Repeats `value` `n` times.
pub fn repeat<T: Pure>(value: T, n: usize) -> (r: Repeat<T>)
    ensures
        r.value == value,
        r.n == n,
        r.text() == repeat_text(value.text(), n as nat),
{
    Repeat { value, n }
}

/// Renders what a function returns, `n` times; the function is called anew
/// each time.
pub type RepeatWith<R, F> = Repeat<Call<R, F>>;

/// Repeats `n` results of `f`. Every result `f` may return must write the same
/// text.
pub fn repeat_with<R: Render, F: Fn() -> R>(n: usize, f: F) -> (r: RepeatWith<R, F>)
    requires
        calls_to_one_text(f),
    ensures
        r.value.function() == f,
        r.n == n,
        r.text() == repeat_text(called_text(f), n as nat),
{
    Repeat { value: Call::new(f), n }
}

impl<T: Pure> Render for Repeat<T> {
    open spec fn text(&self) -> Seq<char> {
        repeat_text(self.value.text(), self.n as nat)
    }

    open spec fn step(&self, next: &Self) -> bool {
        next.n == self.n && next.value.text() == self.value.text()
    }

    fn render<S: Sink>(&mut self, sink: S) -> (r: (S, Result<(), WriteError>)) {
        let ghost t = self.value.text();
        let mut out = sink;
        let mut i: usize = 0;
        proof {
            out.lemma_evolves_refl();
            assert(out.written() =~= sink.written() + repeat_text(t, 0));
        }
        while i < self.n
            invariant
                i <= self.n,
                self.n == old(self).n,
                self.value.text() == t,
                out.wf(),
                sink.evolves(&out),
                sink.reliable() ==> out.reliable(),
                out.written() == sink.written() + repeat_text(t, i as nat),
            decreases self.n - i,
        {
            let ghost before = out;
            let ghost value_before = self.value;
            let (next, r) = self.value.render(out);
            out = next;
            proof {
                lemma_sink_chain(&sink, &before, &out);
            }
            if r.is_err() {
                return (out, r);
            }
            proof {
                value_before.lemma_step_keeps_text(&self.value);
                assert(out.written() =~= sink.written() + repeat_text(t, (i + 1) as nat));
            }
            i = i + 1;
        }
        (out, Ok(()))
    }
}

impl<T: Pure> Pure for Repeat<T> {
    proof fn lemma_step_keeps_text(&self, next: &Self) {
    }
}

} // verus!
