use vstd::prelude::*;

use crate::sink::{Sink, WriteError};

verus! {

/// A value that writes its text into a sink when asked.
pub trait Render {
    /// The text the next render writes.
    spec fn text(&self) -> Seq<char>;

    /// `next` is what this value may have become after one successful render.
    spec fn step(&self, next: &Self) -> bool;

    /// Writes the text into `sink` and hands the sink back. A failure of the
    /// sink ends the render at once and is passed on; on a sink that accepts
    /// every write the render succeeds.
    fn render<S: Sink>(&mut self, sink: S) -> (r: (S, Result<(), WriteError>))
        requires
            sink.wf(),
        ensures
            r.0.wf(),
            sink.evolves(&r.0),
            sink.reliable() ==> r.1 is Ok,
            r.1 is Ok ==> r.0.written() == sink.written() + old(self).text(),
            r.1 is Ok ==> old(self).step(&*final(self)),
    ;
}

/// A renderable whose output never changes: every render writes the same text.
pub trait Pure: Render {
    proof fn lemma_step_keeps_text(&self, next: &Self)
        requires
            self.step(next),
        ensures
            next.text() == self.text(),
    ;
}

impl<'a> Render for &'a str {
    open spec fn text(&self) -> Seq<char> {
        self@
    }

    open spec fn step(&self, next: &Self) -> bool {
        *next == *self
    }

    fn render<S: Sink>(&mut self, sink: S) -> (r: (S, Result<(), WriteError>)) {
        let mut sink = sink;
        let r = sink.write_str(*self);
        (sink, r)
    }
}

impl<'a> Pure for &'a str {
    proof fn lemma_step_keeps_text(&self, next: &Self) {
    }
}

impl Render for String {
    open spec fn text(&self) -> Seq<char> {
        self@
    }

    open spec fn step(&self, next: &Self) -> bool {
        *next == *self
    }

    fn render<S: Sink>(&mut self, sink: S) -> (r: (S, Result<(), WriteError>)) {
        let mut sink = sink;
        let r = sink.write_str(self.as_str());
        (sink, r)
    }
}

impl Pure for String {
    proof fn lemma_step_keeps_text(&self, next: &Self) {
    }
}

impl Render for char {
    open spec fn text(&self) -> Seq<char> {
        seq![*self]
    }

    open spec fn step(&self, next: &Self) -> bool {
        *next == *self
    }

    fn render<S: Sink>(&mut self, sink: S) -> (r: (S, Result<(), WriteError>)) {
        let mut sink = sink;
        let r = sink.write_char(*self);
        assert(seq![*self] =~= Seq::<char>::empty().push(*self));
        (sink, r)
    }
}

impl Pure for char {
    proof fn lemma_step_keeps_text(&self, next: &Self) {
    }
}

/// `Some` renders its value and `None` renders nothing.
impl<T: Render> Render for Option<T> {
    open spec fn text(&self) -> Seq<char> {
        match self {
            Some(v) => v.text(),
            None => Seq::empty(),
        }
    }

    open spec fn step(&self, next: &Self) -> bool {
        match (self, next) {
            (Some(a), Some(b)) => a.step(b),
            (None, None) => true,
            _ => false,
        }
    }

    fn render<S: Sink>(&mut self, sink: S) -> (r: (S, Result<(), WriteError>)) {
        match self {
            Some(v) => v.render(sink),
            None => {
                proof {
                    sink.lemma_evolves_refl();
                    assert(sink.written() + Seq::<char>::empty() =~= sink.written());
                }
                (sink, Ok(()))
            },
        }
    }
}

impl<T: Pure> Pure for Option<T> {
    proof fn lemma_step_keeps_text(&self, next: &Self) {
        match (self, next) {
            (Some(a), Some(b)) => a.lemma_step_keeps_text(b),
            _ => {},
        }
    }
}

/// The decimal digit for `d`, which is below ten.
pub open spec fn digit_char(d: nat) -> char {
    ('0' as u32 + d) as char
}

/// The decimal digits of `n`, most significant first, without leading zeros.
pub open spec fn decimal(n: nat) -> Seq<char>
    decreases n,
{
    if n < 10 {
        seq![digit_char(n)]
    } else {
        decimal(n / 10).push(digit_char(n % 10))
    }
}

/// The decimal form of `n`: a minus sign before the digits of a negative number.
pub open spec fn signed_decimal(n: int) -> Seq<char> {
    if n < 0 {
        seq!['-'] + decimal((-n) as nat)
    } else {
        decimal(n as nat)
    }
}

fn write_digit<S: Sink>(sink: &mut S, d: u64) -> (r: Result<(), WriteError>)
    requires
        old(sink).wf(),
        d < 10,
    ensures
        final(sink).wf(),
        old(sink).evolves(&*final(sink)),
        old(sink).reliable() ==> r is Ok,
        r is Ok ==> final(sink).written() == old(sink).written().push(digit_char(d as nat)),
{
    let c: char = if d == 0 {
        '0'
    } else if d == 1 {
        '1'
    } else if d == 2 {
        '2'
    } else if d == 3 {
        '3'
    } else if d == 4 {
        '4'
    } else if d == 5 {
        '5'
    } else if d == 6 {
        '6'
    } else if d == 7 {
        '7'
    } else if d == 8 {
        '8'
    } else {
        '9'
    };
    sink.write_char(c)
}

/// Writes the decimal digits of `n`.
fn write_decimal<S: Sink>(sink: &mut S, n: u64) -> (r: Result<(), WriteError>)
    requires
        old(sink).wf(),
    ensures
        final(sink).wf(),
        old(sink).evolves(&*final(sink)),
        old(sink).reliable() ==> r is Ok,
        r is Ok ==> final(sink).written() == old(sink).written() + decimal(n as nat),
    decreases n,
{
    if n >= 10 {
        let ghost s0 = *sink;
        let r = write_decimal(sink, n / 10);
        if r.is_err() {
            return r;
        }
        let ghost s1 = *sink;
        let r = write_digit(sink, n % 10);
        proof {
            s0.lemma_evolves_trans(&s1, &*sink);
            if s0.reliable() {
                s0.lemma_evolves_reliable(&s1);
            }
            assert(s0.written() + decimal(n as nat) =~= s0.written() + decimal(
                (n / 10) as nat,
            ).push(digit_char((n % 10) as nat)));
        }
        r
    } else {
        let r = write_digit(sink, n);
        assert(Seq::<char>::empty().push(digit_char(n as nat)) =~= seq![digit_char(n as nat)]);
        proof {
            if r is Ok {
                assert(sink.written() =~= old(sink).written() + decimal(n as nat));
            }
        }
        r
    }
}

/// Writes `n` in decimal, with a leading minus sign when negative.
fn write_signed<S: Sink>(sink: &mut S, n: i64) -> (r: Result<(), WriteError>)
    requires
        old(sink).wf(),
    ensures
        final(sink).wf(),
        old(sink).evolves(&*final(sink)),
        old(sink).reliable() ==> r is Ok,
        r is Ok ==> final(sink).written() == old(sink).written() + signed_decimal(n as int),
{
    if n < 0 {
        let ghost s0 = *sink;
        let r = sink.write_char('-');
        if r.is_err() {
            return r;
        }
        let ghost s1 = *sink;
        let magnitude: u64 = ((-(n + 1)) as u64) + 1;
        let r = write_decimal(sink, magnitude);
        proof {
            s0.lemma_evolves_trans(&s1, &*sink);
            if s0.reliable() {
                s0.lemma_evolves_reliable(&s1);
            }
            assert(s0.written().push('-') + decimal(magnitude as nat) =~= s0.written() + (seq!['-']
                + decimal(magnitude as nat)));
        }
        r
    } else {
        write_decimal(sink, n as u64)
    }
}

impl Render for u64 {
    open spec fn text(&self) -> Seq<char> {
        decimal(*self as nat)
    }

    open spec fn step(&self, next: &Self) -> bool {
        *next == *self
    }

    fn render<S: Sink>(&mut self, sink: S) -> (r: (S, Result<(), WriteError>)) {
        let mut sink = sink;
        let r = write_decimal(&mut sink, *self);
        (sink, r)
    }
}

impl Pure for u64 {
    proof fn lemma_step_keeps_text(&self, next: &Self) {
    }
}

impl Render for u32 {
    open spec fn text(&self) -> Seq<char> {
        decimal(*self as nat)
    }

    open spec fn step(&self, next: &Self) -> bool {
        *next == *self
    }

    fn render<S: Sink>(&mut self, sink: S) -> (r: (S, Result<(), WriteError>)) {
        let mut sink = sink;
        let r = write_decimal(&mut sink, *self as u64);
        (sink, r)
    }
}

impl Pure for u32 {
    proof fn lemma_step_keeps_text(&self, next: &Self) {
    }
}

impl Render for usize {
    open spec fn text(&self) -> Seq<char> {
        decimal(*self as nat)
    }

    open spec fn step(&self, next: &Self) -> bool {
        *next == *self
    }

    fn render<S: Sink>(&mut self, sink: S) -> (r: (S, Result<(), WriteError>)) {
        let mut sink = sink;
        let r = write_decimal(&mut sink, *self as u64);
        (sink, r)
    }
}

impl Pure for usize {
    proof fn lemma_step_keeps_text(&self, next: &Self) {
    }
}

impl Render for i64 {
    open spec fn text(&self) -> Seq<char> {
        signed_decimal(*self as int)
    }

    open spec fn step(&self, next: &Self) -> bool {
        *next == *self
    }

    fn render<S: Sink>(&mut self, sink: S) -> (r: (S, Result<(), WriteError>)) {
        let mut sink = sink;
        let r = write_signed(&mut sink, *self);
        (sink, r)
    }
}

impl Pure for i64 {
    proof fn lemma_step_keeps_text(&self, next: &Self) {
    }
}

impl Render for i32 {
    open spec fn text(&self) -> Seq<char> {
        signed_decimal(*self as int)
    }

    open spec fn step(&self, next: &Self) -> bool {
        *next == *self
    }

    fn render<S: Sink>(&mut self, sink: S) -> (r: (S, Result<(), WriteError>)) {
        let mut sink = sink;
        let r = write_signed(&mut sink, *self as i64);
        (sink, r)
    }
}

impl Pure for i32 {
    proof fn lemma_step_keeps_text(&self, next: &Self) {
    }
}

/// Two stretches of writes on one sink make one.
pub proof fn lemma_sink_chain<S: Sink>(a: &S, b: &S, c: &S)
    requires
        a.evolves(b),
        b.evolves(c),
    ensures
        a.evolves(c),
        a.reliable() ==> c.reliable(),
{
    a.lemma_evolves_trans(b, c);
    if a.reliable() {
        a.lemma_evolves_reliable(b);
        b.lemma_evolves_reliable(c);
    }
}

/// A pure value renders the same text again: whatever one successful render
/// left behind writes what the first render wrote.
pub proof fn lemma_render_twice<T: Pure>(first: &T, second: &T)
    requires
        first.step(second),
    ensures
        second.text() == first.text(),
{
    first.lemma_step_keeps_text(second);
}

/// Renders `value` into a new `String`.
pub fn render_to_string<T: Render>(value: &mut T) -> (s: String)
    ensures
        s@ == old(value).text(),
        old(value).step(&*final(value)),
{
    let (out, r) = value.render(String::new());
    assert(r is Ok);
    out
}

} // verus!
