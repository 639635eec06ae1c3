use vstd::prelude::*;

use crate::render::{Pure, Render};
use crate::sink::{Sink, WriteError};

verus! {

/// The first `n` characters of `t`, or all of `t` when it is shorter.
pub open spec fn take_chars(t: Seq<char>, n: nat) -> Seq<char> {
    if n < t.len() {
        t.subrange(0, n as int)
    } else {
        t
    }
}

/// Renders `value` cut to its first `len` characters.
#[derive(Clone, Copy)]
pub struct TruncateChars<T> {
    pub value: T,
    pub len: usize,
}

/// Shortens to `len` characters. Characters are counted as Unicode scalar
/// values, not bytes.
pub fn truncate_chars<T: Render>(value: T, len: usize) -> (r: TruncateChars<T>)
    ensures
        r.value == value,
        r.len == len,
        r.text() == take_chars(value.text(), len as nat),
{
    TruncateChars { value, len }
}

/// The sink placed between the truncated value and the real sink: it passes on
/// characters while the budget lasts and drops the rest without failing.
struct Truncator<S> {
    inner: S,
    /// Characters that may still pass.
    rem: usize,
    /// The real sink has failed: nothing more is passed on.
    failed: bool,
    budget: Ghost<nat>,
    /// What the real sink held before this render.
    base: Ghost<Seq<char>>,
    /// Everything the truncated value has written so far.
    seen: Ghost<Seq<char>>,
}

impl<S: Sink> Truncator<S> {
    spec fn committed(&self) -> int {
        self.budget@ - self.rem
    }
}

impl<S: Sink> Sink for Truncator<S> {
    closed spec fn written(&self) -> Seq<char> {
        self.seen@
    }

    closed spec fn wf(&self) -> bool {
        &&& self.inner.wf()
        &&& self.rem <= self.budget@
        &&& !self.failed ==> {
            &&& self.committed() <= self.seen@.len()
            &&& self.rem > 0 ==> self.committed() == self.seen@.len()
            &&& self.inner.written() == self.base@ + self.seen@.subrange(0, self.committed())
        }
    }

    closed spec fn evolves(&self, later: &Self) -> bool {
        &&& later.budget == self.budget
        &&& later.base == self.base
        &&& self.inner.evolves(&later.inner)
        &&& self.reliable() ==> !later.failed
    }

    closed spec fn reliable(&self) -> bool {
        self.inner.reliable() && !self.failed
    }

    proof fn lemma_evolves_refl(&self) {
        self.inner.lemma_evolves_refl();
    }

    proof fn lemma_evolves_trans(&self, b: &Self, c: &Self) {
        self.inner.lemma_evolves_trans(&b.inner, &c.inner);
        if self.reliable() {
            self.inner.lemma_evolves_reliable(&b.inner);
        }
    }

    proof fn lemma_evolves_reliable(&self, later: &Self) {
        self.inner.lemma_evolves_reliable(&later.inner);
    }

    fn write_str(&mut self, s: &str) -> (r: Result<(), WriteError>) {
        proof {
            self.inner.lemma_evolves_refl();
        }
        if self.failed {
            return Err(WriteError);
        }
        if self.rem == 0 {
            self.seen = Ghost(self.seen@ + s@);
            assert(self.seen@.subrange(0, self.committed()) =~= old(self).seen@.subrange(
                0,
                old(self).committed(),
            ));
            return Ok(());
        }
        assert(old(self).seen@.subrange(0, old(self).committed()) =~= old(self).seen@);
        let n = s.unicode_len();
        if n <= self.rem {
            let r = self.inner.write_str(s);
            match r {
                Ok(()) => {
                    self.rem = self.rem - n;
                    self.seen = Ghost(self.seen@ + s@);
                    assert(self.seen@.subrange(0, self.committed()) =~= old(self).seen@ + s@);
                    // The whole fragment passed.
                    assert(!self.failed);
                    assert(self.committed() <= self.seen@.len());
                    assert(self.rem > 0 ==> self.committed() == self.seen@.len());
                    assert(self.inner.written() == self.base@ + self.seen@.subrange(
                        0,
                        self.committed(),
                    ));
                    Ok(())
                },
                Err(e) => {
                    self.failed = true;
                    Err(e)
                },
            }
        } else {
            let head = s.substring_char(0, self.rem);
            let r = self.inner.write_str(head);
            match r {
                Ok(()) => {
                    let ghost k = self.rem as int;
                    self.rem = 0;
                    self.seen = Ghost(self.seen@ + s@);
                    assert(self.seen@.subrange(0, self.committed()) =~= old(self).seen@
                        + s@.subrange(0, k));
                    // Only the first `k` characters passed; the budget is spent.
                    assert(head@ == s@.subrange(0, k));
                    assert(self.committed() <= self.seen@.len());
                    assert(self.inner.written() == self.base@ + self.seen@.subrange(
                        0,
                        self.committed(),
                    ));
                    Ok(())
                },
                Err(e) => {
                    self.failed = true;
                    Err(e)
                },
            }
        }
    }

    fn write_char(&mut self, c: char) -> (r: Result<(), WriteError>) {
        proof {
            self.inner.lemma_evolves_refl();
        }
        if self.failed {
            return Err(WriteError);
        }
        if self.rem == 0 {
            self.seen = Ghost(self.seen@.push(c));
            assert(self.seen@.subrange(0, self.committed()) =~= old(self).seen@.subrange(
                0,
                old(self).committed(),
            ));
            return Ok(());
        }
        assert(old(self).seen@.subrange(0, old(self).committed()) =~= old(self).seen@);
        let r = self.inner.write_char(c);
        match r {
            Ok(()) => {
                self.rem = self.rem - 1;
                self.seen = Ghost(self.seen@.push(c));
                assert(self.seen@.subrange(0, self.committed()) =~= old(self).seen@.push(c));
                Ok(())
            },
            Err(e) => {
                self.failed = true;
                Err(e)
            },
        }
    }
}

impl<T: Render> Render for TruncateChars<T> {
    open spec fn text(&self) -> Seq<char> {
        take_chars(self.value.text(), self.len as nat)
    }

    open spec fn step(&self, next: &Self) -> bool {
        next.len == self.len && self.value.step(&next.value)
    }

    fn render<S: Sink>(&mut self, sink: S) -> (r: (S, Result<(), WriteError>)) {
        let ghost base = sink.written();
        let filter = Truncator {
            inner: sink,
            rem: self.len,
            failed: false,
            budget: Ghost(self.len as nat),
            base: Ghost(base),
            seen: Ghost(Seq::empty()),
        };
        assert(base + Seq::<char>::empty().subrange(0, 0) =~= base);
        let ghost t = self.value.text();
        let (filter, r) = self.value.render(filter);
        let Truncator { inner, failed, .. } = filter;
        if r.is_err() {
            return (inner, r);
        }
        if failed {
            return (inner, Err(WriteError));
        }
        proof {
            assert(filter.seen@ =~= Seq::<char>::empty() + t);
            assert(filter.seen@.subrange(0, filter.committed()) =~= take_chars(
                t,
                self.len as nat,
            ));
        }
        (inner, Ok(()))
    }
}

impl<T: Pure> Pure for TruncateChars<T> {
    proof fn lemma_step_keeps_text(&self, next: &Self) {
        self.value.lemma_step_keeps_text(&next.value);
    }
}

/// A truncated value writes exactly the first `len` characters of what the
/// value itself writes, or all of them when there are fewer; multi-byte
/// characters count as one.
pub proof fn lemma_truncate_prefix<T: Render>(v: &TruncateChars<T>)
    ensures
        v.text().len() == (if (v.len as nat) < v.value.text().len() {
            v.len as nat
        } else {
            v.value.text().len()
        }),
        forall|i: int| 0 <= i < v.text().len() ==> #[trigger] v.text()[i] == v.value.text()[i],
{
}

} // verus!
