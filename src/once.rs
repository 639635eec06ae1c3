use vstd::prelude::*;

use crate::render::Render;
use crate::sink::{Sink, WriteError};

verus! {

/// A value rendered at most once.
///
/// The first render takes the payload out of its slot and only then drives it
/// into the sink, so the slot is already empty while the payload writes; every
/// later render writes nothing and succeeds. Rendering needs `&mut self`, and
/// Rust lends that to one caller at a time, so a render of the same wrapper can
/// never start while another is running, on this thread or any other. A caller
/// that shares the wrapper through a `RefCell` meets a failed borrow instead of
/// a second render. The wrapper is deliberately not `Clone`.
pub struct Once<T> {
    slot: Option<T>,
}

impl<T> Once<T> {
    /// The payload still waiting in the slot, if any.
    pub closed spec fn payload(&self) -> Option<T> {
        self.slot
    }

    pub fn new(value: T) -> (r: Once<T>)
        ensures
            r.payload() == Some(value),
    {
        Once { slot: Some(value) }
    }

    /// Takes the payload out, leaving the slot empty for good.
    pub fn take(&mut self) -> (r: Option<T>)
        ensures
            r == old(self).payload(),
            final(self).payload() is None,
    {
        self.slot.take()
    }

    /// Whether the payload has been taken.
    pub fn is_spent(&self) -> (r: bool)
        ensures
            r == (self.payload() is None),
    {
        self.slot.is_none()
    }
}

impl<T: Render> Render for Once<T> {
    open spec fn text(&self) -> Seq<char> {
        match self.payload() {
            Some(v) => v.text(),
            None => Seq::empty(),
        }
    }

    open spec fn step(&self, next: &Self) -> bool {
        next.payload() is None
    }

    fn render<S: Sink>(&mut self, sink: S) -> (r: (S, Result<(), WriteError>))
        ensures
            final(self).payload() is None,
    {
        match self.take() {
            Some(payload) => {
                let mut payload = payload;
                payload.render(sink)
            },
            None => {
                proof {
                    sink.lemma_evolves_refl();
                    assert(sink.written() + Seq::<char>::empty() =~= sink.written());
                }
                (sink, Ok(()))
            },
        }
    }
}

/// After a successful render the wrapper is spent, and a spent wrapper writes
/// nothing, however often it is rendered again.
pub proof fn lemma_once_spent<T: Render>(w: &Once<T>, later: &Once<T>)
    ensures
        w.payload() is None ==> w.text() == Seq::<char>::empty(),
        w.step(later) ==> later.payload() is None && later.text() == Seq::<char>::empty(),
        w.step(later) ==> forall|again: Once<T>| #[trigger] later.step(&again) ==> again.text()
            == Seq::<char>::empty(),
{
}

/// A fresh wrapper renders exactly what its payload would render on its own.
pub proof fn lemma_once_first<T: Render>(w: &Once<T>, value: T)
    requires
        w.payload() == Some(value),
    ensures
        w.text() == value.text(),
{
}

} // verus!
