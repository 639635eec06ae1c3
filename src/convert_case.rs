use vstd::prelude::*;

use crate::render::{Pure, Render};
use crate::sink::{Sink, WriteError};

verus! {

/// What `char::to_uppercase` yields for `c`.
pub uninterp spec fn upper_of(c: char) -> Seq<char>;

/// What `char::to_lowercase` yields for `c`.
pub uninterp spec fn lower_of(c: char) -> Seq<char>;

/// Relies on char::to_uppercase: the uppercase mapping of one character,
/// which may be several characters long.
#[verifier::external_body]
fn char_upper(c: char) -> (r: String)
    ensures
        r@ == upper_of(c),
{
    c.to_uppercase().collect()
}

/// Relies on char::to_lowercase: the lowercase mapping of one character,
/// which may be several characters long.
#[verifier::external_body]
fn char_lower(c: char) -> (r: String)
    ensures
        r@ == lower_of(c),
{
    c.to_lowercase().collect()
}

/// `c` with `a` to `z` mapped to `A` to `Z`.
pub open spec fn ascii_upper(c: char) -> char {
    if 'a' <= c && c <= 'z' {
        ((c as u32 - 32) as u8) as char
    } else {
        c
    }
}

/// `c` with `A` to `Z` mapped to `a` to `z`.
pub open spec fn ascii_lower(c: char) -> char {
    if 'A' <= c && c <= 'Z' {
        ((c as u32 + 32) as u8) as char
    } else {
        c
    }
}

fn to_ascii_upper_char(c: char) -> (r: char)
    ensures
        r == ascii_upper(c),
{
    if 'a' <= c && c <= 'z' {
        ((c as u32 - 32) as u8) as char
    } else {
        c
    }
}

fn to_ascii_lower_char(c: char) -> (r: char)
    ensures
        r == ascii_lower(c),
{
    if 'A' <= c && c <= 'Z' {
        ((c as u32 + 32) as u8) as char
    } else {
        c
    }
}

/// Which case mapping a conversion applies.
#[derive(Clone, Copy, PartialEq, Eq, Structural)]
pub enum Case {
    Upper,
    Lower,
    AsciiUpper,
    AsciiLower,
}

/// What one character becomes under `case`.
pub open spec fn case_of(case: Case, c: char) -> Seq<char> {
    match case {
        Case::Upper => upper_of(c),
        Case::Lower => lower_of(c),
        Case::AsciiUpper => seq![ascii_upper(c)],
        Case::AsciiLower => seq![ascii_lower(c)],
    }
}

/// `t` with every character mapped under `case`, in order.
pub open spec fn convert(case: Case, t: Seq<char>) -> Seq<char>
    decreases t.len(),
{
    if t.len() == 0 {
        Seq::empty()
    } else {
        convert(case, t.drop_last()) + case_of(case, t.last())
    }
}

/// The sink placed between a value and the real sink: it maps every character
/// before passing it on.
struct CaseSink<S> {
    inner: S,
    case: Case,
    /// The real sink has failed: nothing more is passed on.
    failed: bool,
    /// What the real sink held before this render.
    base: Ghost<Seq<char>>,
    /// Everything the converted value has written so far.
    seen: Ghost<Seq<char>>,
}

impl<S: Sink> Sink for CaseSink<S> {
    closed spec fn written(&self) -> Seq<char> {
        self.seen@
    }

    closed spec fn wf(&self) -> bool {
        &&& self.inner.wf()
        &&& !self.failed ==> self.inner.written() == self.base@ + convert(self.case, self.seen@)
    }

    closed spec fn evolves(&self, later: &Self) -> bool {
        &&& later.case == self.case
        &&& later.base == self.base
        &&& self.inner.evolves(&later.inner)
        &&& self.reliable() ==> !later.failed
    }

    closed spec fn reliable(&self) -> bool {
        self.inner.reliable() && !self.failed
    }

    proof fn lemma_evolves_refl(&self) {
        self.inner.lemma_evolves_refl();
    }

    proof fn lemma_evolves_trans(&self, b: &Self, c: &Self) {
        self.inner.lemma_evolves_trans(&b.inner, &c.inner);
        if self.reliable() {
            self.inner.lemma_evolves_reliable(&b.inner);
        }
    }

    proof fn lemma_evolves_reliable(&self, later: &Self) {
        self.inner.lemma_evolves_reliable(&later.inner);
    }

    fn write_char(&mut self, c: char) -> (r: Result<(), WriteError>) {
        proof {
            self.inner.lemma_evolves_refl();
        }
        if self.failed {
            return Err(WriteError);
        }
        let r = match self.case {
            Case::Upper => {
                let mapped = char_upper(c);
                self.inner.write_str(mapped.as_str())
            },
            Case::Lower => {
                let mapped = char_lower(c);
                self.inner.write_str(mapped.as_str())
            },
            Case::AsciiUpper => {
                let r = self.inner.write_char(to_ascii_upper_char(c));
                assert(Seq::<char>::empty().push(ascii_upper(c)) =~= seq![ascii_upper(c)]);
                r
            },
            Case::AsciiLower => {
                let r = self.inner.write_char(to_ascii_lower_char(c));
                assert(Seq::<char>::empty().push(ascii_lower(c)) =~= seq![ascii_lower(c)]);
                r
            },
        };
        match r {
            Ok(()) => {
                self.seen = Ghost(self.seen@.push(c));
                proof {
                    assert(self.seen@.drop_last() =~= old(self).seen@);
                    let prev = old(self).inner.written();
                    assert(self.inner.written() =~= self.base@ + convert(self.case, self.seen@)) by {
                        if self.case is AsciiUpper {
                            assert(self.inner.written() =~= prev + seq![ascii_upper(c)]);
                        } else if self.case is AsciiLower {
                            assert(self.inner.written() =~= prev + seq![ascii_lower(c)]);
                        }
                    }
                }
                Ok(())
            },
            Err(e) => {
                self.failed = true;
                Err(e)
            },
        }
    }

    fn write_str(&mut self, s: &str) -> (r: Result<(), WriteError>) {
        proof {
            self.lemma_evolves_refl();
        }
        let n = s.unicode_len();
        let mut i: usize = 0;
        while i < n
            invariant
                n == s@.len(),
                i <= n,
                self.wf(),
                old(self).evolves(self),
                old(self).reliable() ==> self.reliable(),
                self.written() == old(self).written() + s@.subrange(0, i as int),
            decreases n - i,
        {
            let c = s.get_char(i);
            let ghost before = *self;
            let r = self.write_char(c);
            proof {
                old(self).lemma_evolves_trans(&before, self);
                if old(self).reliable() {
                    before.lemma_evolves_reliable(self);
                }
            }
            if r.is_err() {
                return r;
            }
            assert(self.written() =~= old(self).written() + s@.subrange(0, i + 1));
            i = i + 1;
        }
        assert(s@.subrange(0, n as int) =~= s@);
        Ok(())
    }
}

/// Renders `value` into `sink` with every character mapped under `case`.
fn render_case<T: Render, S: Sink>(value: &mut T, sink: S, case: Case) -> (r: (
    S,
    Result<(), WriteError>,
))
    requires
        sink.wf(),
    ensures
        r.0.wf(),
        sink.evolves(&r.0),
        sink.reliable() ==> r.1 is Ok,
        r.1 is Ok ==> r.0.written() == sink.written() + convert(case, old(value).text()),
        r.1 is Ok ==> old(value).step(&*final(value)),
{
    let ghost base = sink.written();
    let filter = CaseSink {
        inner: sink,
        case,
        failed: false,
        base: Ghost(base),
        seen: Ghost(Seq::empty()),
    };
    assert(base + convert(case, Seq::<char>::empty()) =~= base);
    let ghost start = filter;
    let ghost t = value.text();
    let (filter, r) = value.render(filter);
    proof {
        if start.reliable() {
            start.lemma_evolves_reliable(&filter);
        }
    }
    let CaseSink { inner, failed, .. } = filter;
    if r.is_err() {
        return (inner, r);
    }
    if failed {
        return (inner, Err(WriteError));
    }
    assert(filter.seen@ =~= Seq::<char>::empty() + t);
    (inner, Ok(()))
}

/// Renders a value in uppercase.
#[derive(Clone, Copy)]
pub struct ToUppercase<T> {
    pub value: T,
}

/// Renders a value in lowercase.
#[derive(Clone, Copy)]
pub struct ToLowercase<T> {
    pub value: T,
}

/// Renders a value with ASCII letters in uppercase.
#[derive(Clone, Copy)]
pub struct ToAsciiUppercase<T> {
    pub value: T,
}

/// Renders a value with ASCII letters in lowercase.
#[derive(Clone, Copy)]
pub struct ToAsciiLowercase<T> {
    pub value: T,
}

/// Converts to uppercase, one character at a time.
pub fn to_uppercase<T: Render>(value: T) -> (r: ToUppercase<T>)
    ensures
        r.value == value,
        r.text() == convert(Case::Upper, value.text()),
{
    ToUppercase { value }
}

/// Converts to lowercase, one character at a time.
pub fn to_lowercase<T: Render>(value: T) -> (r: ToLowercase<T>)
    ensures
        r.value == value,
        r.text() == convert(Case::Lower, value.text()),
{
    ToLowercase { value }
}

/// Converts ASCII letters to uppercase and leaves every other character alone.
pub fn to_ascii_uppercase<T: Render>(value: T) -> (r: ToAsciiUppercase<T>)
    ensures
        r.value == value,
        r.text() == convert(Case::AsciiUpper, value.text()),
{
    ToAsciiUppercase { value }
}

/// Converts ASCII letters to lowercase and leaves every other character alone.
pub fn to_ascii_lowercase<T: Render>(value: T) -> (r: ToAsciiLowercase<T>)
    ensures
        r.value == value,
        r.text() == convert(Case::AsciiLower, value.text()),
{
    ToAsciiLowercase { value }
}

impl<T: Render> Render for ToUppercase<T> {
    open spec fn text(&self) -> Seq<char> {
        convert(Case::Upper, self.value.text())
    }

    open spec fn step(&self, next: &Self) -> bool {
        self.value.step(&next.value)
    }

    fn render<S: Sink>(&mut self, sink: S) -> (r: (S, Result<(), WriteError>)) {
        render_case(&mut self.value, sink, Case::Upper)
    }
}

impl<T: Pure> Pure for ToUppercase<T> {
    proof fn lemma_step_keeps_text(&self, next: &Self) {
        self.value.lemma_step_keeps_text(&next.value);
    }
}

impl<T: Render> Render for ToLowercase<T> {
    open spec fn text(&self) -> Seq<char> {
        convert(Case::Lower, self.value.text())
    }

    open spec fn step(&self, next: &Self) -> bool {
        self.value.step(&next.value)
    }

    fn render<S: Sink>(&mut self, sink: S) -> (r: (S, Result<(), WriteError>)) {
        render_case(&mut self.value, sink, Case::Lower)
    }
}

impl<T: Pure> Pure for ToLowercase<T> {
    proof fn lemma_step_keeps_text(&self, next: &Self) {
        self.value.lemma_step_keeps_text(&next.value);
    }
}

impl<T: Render> Render for ToAsciiUppercase<T> {
    open spec fn text(&self) -> Seq<char> {
        convert(Case::AsciiUpper, self.value.text())
    }

    open spec fn step(&self, next: &Self) -> bool {
        self.value.step(&next.value)
    }

    fn render<S: Sink>(&mut self, sink: S) -> (r: (S, Result<(), WriteError>)) {
        render_case(&mut self.value, sink, Case::AsciiUpper)
    }
}

impl<T: Pure> Pure for ToAsciiUppercase<T> {
    proof fn lemma_step_keeps_text(&self, next: &Self) {
        self.value.lemma_step_keeps_text(&next.value);
    }
}

impl<T: Render> Render for ToAsciiLowercase<T> {
    open spec fn text(&self) -> Seq<char> {
        convert(Case::AsciiLower, self.value.text())
    }

    open spec fn step(&self, next: &Self) -> bool {
        self.value.step(&next.value)
    }

    fn render<S: Sink>(&mut self, sink: S) -> (r: (S, Result<(), WriteError>)) {
        render_case(&mut self.value, sink, Case::AsciiLower)
    }
}

impl<T: Pure> Pure for ToAsciiLowercase<T> {
    proof fn lemma_step_keeps_text(&self, next: &Self) {
        self.value.lemma_step_keeps_text(&next.value);
    }
}

} // verus!
