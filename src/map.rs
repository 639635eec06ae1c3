use vstd::prelude::*;

use core::marker::PhantomData;

use crate::render::{Pure, Render};
use crate::sink::{Sink, WriteError};

verus! {

/// `map` can be applied to each of `items`, and for any one item every result
/// it may return writes the same text.
pub open spec fn maps_all<T, R: Render, F: Fn(&T) -> R>(items: Seq<T>, map: F) -> bool {
    &&& forall|i: int| 0 <= i < items.len() ==> #[trigger] map.requires((&items[i],))
    &&& forall|x: T, a: R, b: R| #[trigger] map.ensures((&x,), a) && #[trigger] map.ensures((&x,), b)
        ==> a.text() == b.text()
}

/// The text of what `map` returns for `x`.
pub open spec fn mapped_text<T, R: Render, F: Fn(&T) -> R>(map: F, x: T) -> Seq<char> {
    (choose|r: R| map.ensures((&x,), r)).text()
}

/// Items paired with the function that turns each into something to render.
#[verifier::reject_recursive_types(T)]
#[verifier::reject_recursive_types(R)]
pub struct MapItems<T, R: Render, F: Fn(&T) -> R> {
    items: Vec<T>,
    map: F,
    out: PhantomData<R>,
}

impl<T, R: Render, F: Fn(&T) -> R> MapItems<T, R, F> {
    #[verifier::type_invariant]
    closed spec fn inv(self) -> bool {
        maps_all(self.items@, self.map)
    }

    pub closed spec fn items(&self) -> Seq<T> {
        self.items@
    }

    pub closed spec fn map(&self) -> F {
        self.map
    }

    pub fn new(items: Vec<T>, map: F) -> (r: Self)
        requires
            maps_all(items@, map),
        ensures
            r.items() == items@,
            r.map() == map,
    {
        MapItems { items, map, out: PhantomData }
    }

    pub fn len(&self) -> (r: usize)
        ensures
            r == self.items().len(),
    {
        self.items.len()
    }

    /// Applies the map to the item at `i`.
    pub fn apply(&self, i: usize) -> (r: R)
        requires
            i < self.items().len(),
        ensures
            r.text() == mapped_text(self.map(), self.items()[i as int]),
    {
        proof {
            use_type_invariant(self);
        }
        let r = (self.map)(&self.items[i]);
        r
    }
}

/// `f` can be called, and every result it may return writes the same text.
pub open spec fn calls_to_one_text<R: Render, F: Fn() -> R>(f: F) -> bool {
    &&& f.requires(())
    &&& forall|a: R, b: R| #[trigger] f.ensures((), a) && #[trigger] f.ensures((), b) ==> a.text()
        == b.text()
}

/// The text of what `f` returns.
pub open spec fn called_text<R: Render, F: Fn() -> R>(f: F) -> Seq<char> {
    (choose|r: R| f.ensures((), r)).text()
}

/// A function without arguments whose result is rendered; it is called anew on
/// every render.
#[verifier::reject_recursive_types(R)]
pub struct Call<R: Render, F: Fn() -> R> {
    f: F,
    out: PhantomData<R>,
}

impl<R: Render, F: Fn() -> R> Call<R, F> {
    #[verifier::type_invariant]
    closed spec fn inv(self) -> bool {
        calls_to_one_text(self.f)
    }

    pub closed spec fn function(&self) -> F {
        self.f
    }

    pub fn new(f: F) -> (r: Self)
        requires
            calls_to_one_text(f),
        ensures
            r.function() == f,
    {
        Call { f, out: PhantomData }
    }
}

impl<R: Render, F: Fn() -> R> Render for Call<R, F> {
    open spec fn text(&self) -> Seq<char> {
        called_text(self.function())
    }

    open spec fn step(&self, next: &Self) -> bool {
        next.function() == self.function()
    }

    fn render<S: Sink>(&mut self, sink: S) -> (r: (S, Result<(), WriteError>)) {
        proof {
            use_type_invariant(&*self);
        }
        let mut value = (self.f)();
        value.render(sink)
    }
}

impl<R: Render, F: Fn() -> R> Pure for Call<R, F> {
    proof fn lemma_step_keeps_text(&self, next: &Self) {
    }
}

} // verus!
