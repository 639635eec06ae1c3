use vstd::prelude::*;

use crate::map::{mapped_text, maps_all, MapItems};
use crate::once::Once;
use crate::render::{lemma_sink_chain, Pure, Render};
use crate::sink::{Sink, WriteError};

verus! {

/// Renders each item in turn, with nothing between them.
pub struct Concat<T> {
    pub items: Vec<T>,
}

/// Renders the values of a tuple in turn; the values may have different types.
#[derive(Clone, Copy)]
pub struct ConcatTuple<T>(pub T);

/// The texts of `items`, one after another.
pub open spec fn concat_text<T: Render>(items: Seq<T>) -> Seq<char>
    decreases items.len(),
{
    if items.len() == 0 {
        Seq::empty()
    } else {
        items[0].text() + concat_text(items.drop_first())
    }
}

/// Concatenates the items.
pub fn concat<T: Render>(items: Vec<T>) -> (r: Concat<T>)
    ensures
        r.items@ == items@,
        r.text() == concat_text(items@),
{
    Concat { items }
}

/// Concatenates the items, at most once: the first render writes them all and
/// every later render writes nothing.
pub fn concat_once<T: Render>(items: Vec<T>) -> (r: Once<Concat<T>>)
    ensures
        r.payload() matches Some(c) && c.items@ == items@,
        r.text() == concat_text(items@),
{
    Once::new(Concat { items })
}

/// Concatenates the values of a tuple.
pub fn concat_tuple<T>(tuple: T) -> (r: ConcatTuple<T>)
    ensures
        r.0 == tuple,
{
    ConcatTuple(tuple)
}

proof fn lemma_concat_text_split<T: Render>(items: Seq<T>, i: int)
    requires
        0 <= i < items.len(),
    ensures
        concat_text(items.subrange(i, items.len() as int)) == items[i].text() + concat_text(
            items.subrange(i + 1, items.len() as int),
        ),
{
    assert(items.subrange(i, items.len() as int).drop_first() =~= items.subrange(
        i + 1,
        items.len() as int,
    ));
}

proof fn lemma_concat_text_pure<T: Pure>(a: Seq<T>, b: Seq<T>)
    requires
        a.len() == b.len(),
        forall|i: int| 0 <= i < a.len() ==> #[trigger] a[i].step(&b[i]),
    ensures
        concat_text(b) == concat_text(a),
    decreases a.len(),
{
    if a.len() > 0 {
        a[0].lemma_step_keeps_text(&b[0]);
        assert forall|i: int| 0 <= i < a.drop_first().len() implies #[trigger] a.drop_first()[i].step(
            &b.drop_first()[i],
        ) by {
            assert(a[i + 1].step(&b[i + 1]));
        }
        lemma_concat_text_pure(a.drop_first(), b.drop_first());
    }
}

impl<T: Render> Render for Concat<T> {
    open spec fn text(&self) -> Seq<char> {
        concat_text(self.items@)
    }

    open spec fn step(&self, next: &Self) -> bool {
        &&& next.items@.len() == self.items@.len()
        &&& forall|i: int| 0 <= i < self.items@.len() ==> #[trigger] self.items@[i].step(&next.items@[i])
    }

    fn render<S: Sink>(&mut self, sink: S) -> (r: (S, Result<(), WriteError>)) {
        let ghost items0 = self.items@;
        let n = self.items.len();
        let mut out = sink;
        let mut i: usize = 0;
        proof {
            out.lemma_evolves_refl();
            assert(items0.subrange(0, n as int) =~= items0);
        }
        while i < n
            invariant
                n == self.items@.len(),
                n == items0.len(),
                i <= n,
                out.wf(),
                sink.evolves(&out),
                sink.reliable() ==> out.reliable(),
                out.written() + concat_text(items0.subrange(i as int, n as int)) == sink.written()
                    + concat_text(items0),
                forall|j: int| 0 <= j < i ==> #[trigger] items0[j].step(&self.items@[j]),
                forall|j: int| i <= j < n ==> #[trigger] self.items@[j] == items0[j],
            decreases n - i,
        {
            proof {
                lemma_concat_text_split(items0, i as int);
            }
            let ghost before = out;
            let (next, r) = self.items[i].render(out);
            out = next;
            proof {
                lemma_sink_chain(&sink, &before, &out);
            }
            if r.is_err() {
                return (out, r);
            }
            proof {
                assert(out.written() + concat_text(items0.subrange(i + 1, n as int)) =~= before.written()
                    + concat_text(items0.subrange(i as int, n as int)));
            }
            i = i + 1;
        }
        proof {
            assert(items0.subrange(n as int, n as int) =~= Seq::<T>::empty());
            assert(out.written() =~= out.written() + concat_text(items0.subrange(n as int, n as int)));
        }
        (out, Ok(()))
    }
}

impl<T: Pure> Pure for Concat<T> {
    proof fn lemma_step_keeps_text(&self, next: &Self) {
        lemma_concat_text_pure(self.items@, next.items@);
    }
}

/// Concatenating nothing renders nothing, and concatenating one item renders
/// exactly that item.
pub proof fn lemma_concat_identity<T: Render>(c: &Concat<T>)
    ensures
        c.items@.len() == 0 ==> c.text() == Seq::<char>::empty(),
        c.items@.len() == 1 ==> c.text() == c.items@[0].text(),
{
    if c.items@.len() == 1 {
        assert(c.items@.drop_first().len() == 0);
        assert(concat_text(c.items@.drop_first()) == Seq::<char>::empty());
        assert(c.items@[0].text() + Seq::<char>::empty() =~= c.items@[0].text());
    }
}

/// Renders the result of a map on each item in turn.
#[verifier::reject_recursive_types(T)]
#[verifier::reject_recursive_types(R)]
pub struct ConcatMap<T, R: Render, F: Fn(&T) -> R> {
    pub mapped: MapItems<T, R, F>,
}

/// The texts of what `map` returns for each of `items`, one after another.
pub open spec fn concat_mapped<T, R: Render, F: Fn(&T) -> R>(items: Seq<T>, map: F) -> Seq<char>
    decreases items.len(),
{
    if items.len() == 0 {
        Seq::empty()
    } else {
        mapped_text(map, items[0]) + concat_mapped(items.drop_first(), map)
    }
}

/// Concatenates what `map` returns for each item. The map runs on every
/// render; for any one item, all it may return must write the same text.
pub fn concat_map<T, R: Render, F: Fn(&T) -> R>(items: Vec<T>, map: F) -> (r: ConcatMap<T, R, F>)
    requires
        maps_all(items@, map),
    ensures
        r.mapped.items() == items@,
        r.mapped.map() == map,
        r.text() == concat_mapped(items@, map),
{
    ConcatMap { mapped: MapItems::new(items, map) }
}

/// Concatenates what `map` returns for each item, at most once.
pub fn concat_map_once<T, R: Render, F: Fn(&T) -> R>(items: Vec<T>, map: F) -> (r: Once<
    ConcatMap<T, R, F>,
>)
    requires
        maps_all(items@, map),
    ensures
        r.payload() matches Some(c) && c.mapped.items() == items@ && c.mapped.map() == map,
        r.text() == concat_mapped(items@, map),
{
    Once::new(concat_map(items, map))
}

proof fn lemma_concat_mapped_split<T, R: Render, F: Fn(&T) -> R>(items: Seq<T>, map: F, i: int)
    requires
        0 <= i < items.len(),
    ensures
        concat_mapped(items.subrange(i, items.len() as int), map) == mapped_text(map, items[i])
            + concat_mapped(items.subrange(i + 1, items.len() as int), map),
{
    assert(items.subrange(i, items.len() as int).drop_first() =~= items.subrange(
        i + 1,
        items.len() as int,
    ));
}

impl<T, R: Render, F: Fn(&T) -> R> Render for ConcatMap<T, R, F> {
    open spec fn text(&self) -> Seq<char> {
        concat_mapped(self.mapped.items(), self.mapped.map())
    }

    open spec fn step(&self, next: &Self) -> bool {
        next.mapped.items() == self.mapped.items() && next.mapped.map() == self.mapped.map()
    }

    fn render<S: Sink>(&mut self, sink: S) -> (r: (S, Result<(), WriteError>)) {
        let ghost items = self.mapped.items();
        let ghost map = self.mapped.map();
        let n = self.mapped.len();
        let mut out = sink;
        let mut i: usize = 0;
        proof {
            out.lemma_evolves_refl();
            assert(items.subrange(0, n as int) =~= items);
        }
        while i < n
            invariant
                n == items.len(),
                items == self.mapped.items(),
                map == self.mapped.map(),
                i <= n,
                out.wf(),
                sink.evolves(&out),
                sink.reliable() ==> out.reliable(),
                out.written() + concat_mapped(items.subrange(i as int, n as int), map) == sink.written()
                    + concat_mapped(items, map),
            decreases n - i,
        {
            proof {
                lemma_concat_mapped_split(items, map, i as int);
            }
            let mut value = self.mapped.apply(i);
            let ghost before = out;
            let (next, r) = value.render(out);
            out = next;
            proof {
                lemma_sink_chain(&sink, &before, &out);
            }
            if r.is_err() {
                return (out, r);
            }
            proof {
                assert(out.written() + concat_mapped(items.subrange(i + 1, n as int), map) =~= before.written()
                    + concat_mapped(items.subrange(i as int, n as int), map));
            }
            i = i + 1;
        }
        proof {
            assert(items.subrange(n as int, n as int) =~= Seq::<T>::empty());
            assert(out.written() =~= out.written() + concat_mapped(items.subrange(n as int, n as int), map));
        }
        (out, Ok(()))
    }
}

impl<T, R: Render, F: Fn(&T) -> R> Pure for ConcatMap<T, R, F> {
    proof fn lemma_step_keeps_text(&self, next: &Self) {
    }
}

impl Render for ConcatTuple<()> {
    open spec fn text(&self) -> Seq<char> {
        Seq::empty()
    }

    open spec fn step(&self, next: &Self) -> bool {
        true
    }

    fn render<S: Sink>(&mut self, sink: S) -> (r: (S, Result<(), WriteError>)) {
        proof {
            sink.lemma_evolves_refl();
            assert(sink.written() + Seq::<char>::empty() =~= sink.written());
        }
        (sink, Ok(()))
    }
}

impl Pure for ConcatTuple<()> {
    proof fn lemma_step_keeps_text(&self, next: &Self) {
    }
}

impl<T0: Render> Render for ConcatTuple<(T0,)> {
    open spec fn text(&self) -> Seq<char> {
        self.0.0.text()
    }

    open spec fn step(&self, next: &Self) -> bool {
        self.0.0.step(&next.0.0)
    }

    fn render<S: Sink>(&mut self, sink: S) -> (r: (S, Result<(), WriteError>)) {
        let ghost s0 = sink;
        proof {
            sink.lemma_evolves_refl();
        }
        let ghost before = sink;
        let (sink, r) = self.0.0.render(sink);
        proof {
            lemma_sink_chain(&s0, &before, &sink);
        }
        if r.is_err() {
            return (sink, r);
        }
        proof {
            assert(sink.written() =~= s0.written() + (old(self).0.0.text()));
        }
        (sink, Ok(()))
    }
}

impl<T0: Pure> Pure for ConcatTuple<(T0,)> {
    proof fn lemma_step_keeps_text(&self, next: &Self) {
        self.0.0.lemma_step_keeps_text(&next.0.0);
    }
}

impl<T0: Render, T1: Render> Render for ConcatTuple<(T0, T1)> {
    open spec fn text(&self) -> Seq<char> {
        self.0.0.text() + self.0.1.text()
    }

    open spec fn step(&self, next: &Self) -> bool {
        self.0.0.step(&next.0.0)
        && self.0.1.step(&next.0.1)
    }

    fn render<S: Sink>(&mut self, sink: S) -> (r: (S, Result<(), WriteError>)) {
        let ghost s0 = sink;
        proof {
            sink.lemma_evolves_refl();
        }
        let ghost before = sink;
        let (sink, r) = self.0.0.render(sink);
        proof {
            lemma_sink_chain(&s0, &before, &sink);
        }
        if r.is_err() {
            return (sink, r);
        }
        let ghost before = sink;
        let (sink, r) = self.0.1.render(sink);
        proof {
            lemma_sink_chain(&s0, &before, &sink);
        }
        if r.is_err() {
            return (sink, r);
        }
        proof {
            assert(sink.written() =~= s0.written() + (old(self).0.0.text() + old(self).0.1.text()));
        }
        (sink, Ok(()))
    }
}

impl<T0: Pure, T1: Pure> Pure for ConcatTuple<(T0, T1)> {
    proof fn lemma_step_keeps_text(&self, next: &Self) {
        self.0.0.lemma_step_keeps_text(&next.0.0);
        self.0.1.lemma_step_keeps_text(&next.0.1);
    }
}

impl<T0: Render, T1: Render, T2: Render> Render for ConcatTuple<(T0, T1, T2)> {
    open spec fn text(&self) -> Seq<char> {
        self.0.0.text() + self.0.1.text() + self.0.2.text()
    }

    open spec fn step(&self, next: &Self) -> bool {
        self.0.0.step(&next.0.0)
        && self.0.1.step(&next.0.1)
        && self.0.2.step(&next.0.2)
    }

    fn render<S: Sink>(&mut self, sink: S) -> (r: (S, Result<(), WriteError>)) {
        let ghost s0 = sink;
        proof {
            sink.lemma_evolves_refl();
        }
        let ghost before = sink;
        let (sink, r) = self.0.0.render(sink);
        proof {
            lemma_sink_chain(&s0, &before, &sink);
        }
        if r.is_err() {
            return (sink, r);
        }
        let ghost before = sink;
        let (sink, r) = self.0.1.render(sink);
        proof {
            lemma_sink_chain(&s0, &before, &sink);
        }
        if r.is_err() {
            return (sink, r);
        }
        let ghost before = sink;
        let (sink, r) = self.0.2.render(sink);
        proof {
            lemma_sink_chain(&s0, &before, &sink);
        }
        if r.is_err() {
            return (sink, r);
        }
        proof {
            assert(sink.written() =~= s0.written() + (old(self).0.0.text() + old(self).0.1.text() + old(self).0.2.text()));
        }
        (sink, Ok(()))
    }
}

impl<T0: Pure, T1: Pure, T2: Pure> Pure for ConcatTuple<(T0, T1, T2)> {
    proof fn lemma_step_keeps_text(&self, next: &Self) {
        self.0.0.lemma_step_keeps_text(&next.0.0);
        self.0.1.lemma_step_keeps_text(&next.0.1);
        self.0.2.lemma_step_keeps_text(&next.0.2);
    }
}

impl<T0: Render, T1: Render, T2: Render, T3: Render> Render for ConcatTuple<(T0, T1, T2, T3)> {
    open spec fn text(&self) -> Seq<char> {
        self.0.0.text() + self.0.1.text() + self.0.2.text() + self.0.3.text()
    }

    open spec fn step(&self, next: &Self) -> bool {
        self.0.0.step(&next.0.0)
        && self.0.1.step(&next.0.1)
        && self.0.2.step(&next.0.2)
        && self.0.3.step(&next.0.3)
    }

    fn render<S: Sink>(&mut self, sink: S) -> (r: (S, Result<(), WriteError>)) {
        let ghost s0 = sink;
        proof {
            sink.lemma_evolves_refl();
        }
        let ghost before = sink;
        let (sink, r) = self.0.0.render(sink);
        proof {
            lemma_sink_chain(&s0, &before, &sink);
        }
        if r.is_err() {
            return (sink, r);
        }
        let ghost before = sink;
        let (sink, r) = self.0.1.render(sink);
        proof {
            lemma_sink_chain(&s0, &before, &sink);
        }
        if r.is_err() {
            return (sink, r);
        }
        let ghost before = sink;
        let (sink, r) = self.0.2.render(sink);
        proof {
            lemma_sink_chain(&s0, &before, &sink);
        }
        if r.is_err() {
            return (sink, r);
        }
        let ghost before = sink;
        let (sink, r) = self.0.3.render(sink);
        proof {
            lemma_sink_chain(&s0, &before, &sink);
        }
        if r.is_err() {
            return (sink, r);
        }
        proof {
            assert(sink.written() =~= s0.written() + (old(self).0.0.text() + old(self).0.1.text() + old(self).0.2.text() + old(self).0.3.text()));
        }
        (sink, Ok(()))
    }
}

impl<T0: Pure, T1: Pure, T2: Pure, T3: Pure> Pure for ConcatTuple<(T0, T1, T2, T3)> {
    proof fn lemma_step_keeps_text(&self, next: &Self) {
        self.0.0.lemma_step_keeps_text(&next.0.0);
        self.0.1.lemma_step_keeps_text(&next.0.1);
        self.0.2.lemma_step_keeps_text(&next.0.2);
        self.0.3.lemma_step_keeps_text(&next.0.3);
    }
}

impl<T0: Render, T1: Render, T2: Render, T3: Render, T4: Render> Render for ConcatTuple<(T0, T1, T2, T3, T4)> {
    open spec fn text(&self) -> Seq<char> {
        self.0.0.text() + self.0.1.text() + self.0.2.text() + self.0.3.text() + self.0.4.text()
    }

    open spec fn step(&self, next: &Self) -> bool {
        self.0.0.step(&next.0.0)
        && self.0.1.step(&next.0.1)
        && self.0.2.step(&next.0.2)
        && self.0.3.step(&next.0.3)
        && self.0.4.step(&next.0.4)
    }

    fn render<S: Sink>(&mut self, sink: S) -> (r: (S, Result<(), WriteError>)) {
        let ghost s0 = sink;
        proof {
            sink.lemma_evolves_refl();
        }
        let ghost before = sink;
        let (sink, r) = self.0.0.render(sink);
        proof {
            lemma_sink_chain(&s0, &before, &sink);
        }
        if r.is_err() {
            return (sink, r);
        }
        let ghost before = sink;
        let (sink, r) = self.0.1.render(sink);
        proof {
            lemma_sink_chain(&s0, &before, &sink);
        }
        if r.is_err() {
            return (sink, r);
        }
        let ghost before = sink;
        let (sink, r) = self.0.2.render(sink);
        proof {
            lemma_sink_chain(&s0, &before, &sink);
        }
        if r.is_err() {
            return (sink, r);
        }
        let ghost before = sink;
        let (sink, r) = self.0.3.render(sink);
        proof {
            lemma_sink_chain(&s0, &before, &sink);
        }
        if r.is_err() {
            return (sink, r);
        }
        let ghost before = sink;
        let (sink, r) = self.0.4.render(sink);
        proof {
            lemma_sink_chain(&s0, &before, &sink);
        }
        if r.is_err() {
            return (sink, r);
        }
        proof {
            assert(sink.written() =~= s0.written() + (old(self).0.0.text() + old(self).0.1.text() + old(self).0.2.text() + old(self).0.3.text() + old(self).0.4.text()));
        }
        (sink, Ok(()))
    }
}

impl<T0: Pure, T1: Pure, T2: Pure, T3: Pure, T4: Pure> Pure for ConcatTuple<(T0, T1, T2, T3, T4)> {
    proof fn lemma_step_keeps_text(&self, next: &Self) {
        self.0.0.lemma_step_keeps_text(&next.0.0);
        self.0.1.lemma_step_keeps_text(&next.0.1);
        self.0.2.lemma_step_keeps_text(&next.0.2);
        self.0.3.lemma_step_keeps_text(&next.0.3);
        self.0.4.lemma_step_keeps_text(&next.0.4);
    }
}

impl<T0: Render, T1: Render, T2: Render, T3: Render, T4: Render, T5: Render> Render for ConcatTuple<(T0, T1, T2, T3, T4, T5)> {
    open spec fn text(&self) -> Seq<char> {
        self.0.0.text() + self.0.1.text() + self.0.2.text() + self.0.3.text() + self.0.4.text() + self.0.5.text()
    }

    open spec fn step(&self, next: &Self) -> bool {
        self.0.0.step(&next.0.0)
        && self.0.1.step(&next.0.1)
        && self.0.2.step(&next.0.2)
        && self.0.3.step(&next.0.3)
        && self.0.4.step(&next.0.4)
        && self.0.5.step(&next.0.5)
    }

    fn render<S: Sink>(&mut self, sink: S) -> (r: (S, Result<(), WriteError>)) {
        let ghost s0 = sink;
        proof {
            sink.lemma_evolves_refl();
        }
        let ghost before = sink;
        let (sink, r) = self.0.0.render(sink);
        proof {
            lemma_sink_chain(&s0, &before, &sink);
        }
        if r.is_err() {
            return (sink, r);
        }
        let ghost before = sink;
        let (sink, r) = self.0.1.render(sink);
        proof {
            lemma_sink_chain(&s0, &before, &sink);
        }
        if r.is_err() {
            return (sink, r);
        }
        let ghost before = sink;
        let (sink, r) = self.0.2.render(sink);
        proof {
            lemma_sink_chain(&s0, &before, &sink);
        }
        if r.is_err() {
            return (sink, r);
        }
        let ghost before = sink;
        let (sink, r) = self.0.3.render(sink);
        proof {
            lemma_sink_chain(&s0, &before, &sink);
        }
        if r.is_err() {
            return (sink, r);
        }
        let ghost before = sink;
        let (sink, r) = self.0.4.render(sink);
        proof {
            lemma_sink_chain(&s0, &before, &sink);
        }
        if r.is_err() {
            return (sink, r);
        }
        let ghost before = sink;
        let (sink, r) = self.0.5.render(sink);
        proof {
            lemma_sink_chain(&s0, &before, &sink);
        }
        if r.is_err() {
            return (sink, r);
        }
        proof {
            assert(sink.written() =~= s0.written() + (old(self).0.0.text() + old(self).0.1.text() + old(self).0.2.text() + old(self).0.3.text() + old(self).0.4.text() + old(self).0.5.text()));
        }
        (sink, Ok(()))
    }
}

impl<T0: Pure, T1: Pure, T2: Pure, T3: Pure, T4: Pure, T5: Pure> Pure for ConcatTuple<(T0, T1, T2, T3, T4, T5)> {
    proof fn lemma_step_keeps_text(&self, next: &Self) {
        self.0.0.lemma_step_keeps_text(&next.0.0);
        self.0.1.lemma_step_keeps_text(&next.0.1);
        self.0.2.lemma_step_keeps_text(&next.0.2);
        self.0.3.lemma_step_keeps_text(&next.0.3);
        self.0.4.lemma_step_keeps_text(&next.0.4);
        self.0.5.lemma_step_keeps_text(&next.0.5);
    }
}

impl<T0: Render, T1: Render, T2: Render, T3: Render, T4: Render, T5: Render, T6: Render> Render for ConcatTuple<(T0, T1, T2, T3, T4, T5, T6)> {
    open spec fn text(&self) -> Seq<char> {
        self.0.0.text() + self.0.1.text() + self.0.2.text() + self.0.3.text() + self.0.4.text() + self.0.5.text() + self.0.6.text()
    }

    open spec fn step(&self, next: &Self) -> bool {
        self.0.0.step(&next.0.0)
        && self.0.1.step(&next.0.1)
        && self.0.2.step(&next.0.2)
        && self.0.3.step(&next.0.3)
        && self.0.4.step(&next.0.4)
        && self.0.5.step(&next.0.5)
        && self.0.6.step(&next.0.6)
    }

    fn render<S: Sink>(&mut self, sink: S) -> (r: (S, Result<(), WriteError>)) {
        let ghost s0 = sink;
        proof {
            sink.lemma_evolves_refl();
        }
        let ghost before = sink;
        let (sink, r) = self.0.0.render(sink);
        proof {
            lemma_sink_chain(&s0, &before, &sink);
        }
        if r.is_err() {
            return (sink, r);
        }
        let ghost before = sink;
        let (sink, r) = self.0.1.render(sink);
        proof {
            lemma_sink_chain(&s0, &before, &sink);
        }
        if r.is_err() {
            return (sink, r);
        }
        let ghost before = sink;
        let (sink, r) = self.0.2.render(sink);
        proof {
            lemma_sink_chain(&s0, &before, &sink);
        }
        if r.is_err() {
            return (sink, r);
        }
        let ghost before = sink;
        let (sink, r) = self.0.3.render(sink);
        proof {
            lemma_sink_chain(&s0, &before, &sink);
        }
        if r.is_err() {
            return (sink, r);
        }
        let ghost before = sink;
        let (sink, r) = self.0.4.render(sink);
        proof {
            lemma_sink_chain(&s0, &before, &sink);
        }
        if r.is_err() {
            return (sink, r);
        }
        let ghost before = sink;
        let (sink, r) = self.0.5.render(sink);
        proof {
            lemma_sink_chain(&s0, &before, &sink);
        }
        if r.is_err() {
            return (sink, r);
        }
        let ghost before = sink;
        let (sink, r) = self.0.6.render(sink);
        proof {
            lemma_sink_chain(&s0, &before, &sink);
        }
        if r.is_err() {
            return (sink, r);
        }
        proof {
            assert(sink.written() =~= s0.written() + (old(self).0.0.text() + old(self).0.1.text() + old(self).0.2.text() + old(self).0.3.text() + old(self).0.4.text() + old(self).0.5.text() + old(self).0.6.text()));
        }
        (sink, Ok(()))
    }
}

impl<T0: Pure, T1: Pure, T2: Pure, T3: Pure, T4: Pure, T5: Pure, T6: Pure> Pure for ConcatTuple<(T0, T1, T2, T3, T4, T5, T6)> {
    proof fn lemma_step_keeps_text(&self, next: &Self) {
        self.0.0.lemma_step_keeps_text(&next.0.0);
        self.0.1.lemma_step_keeps_text(&next.0.1);
        self.0.2.lemma_step_keeps_text(&next.0.2);
        self.0.3.lemma_step_keeps_text(&next.0.3);
        self.0.4.lemma_step_keeps_text(&next.0.4);
        self.0.5.lemma_step_keeps_text(&next.0.5);
        self.0.6.lemma_step_keeps_text(&next.0.6);
    }
}

impl<T0: Render, T1: Render, T2: Render, T3: Render, T4: Render, T5: Render, T6: Render, T7: Render> Render for ConcatTuple<(T0, T1, T2, T3, T4, T5, T6, T7)> {
    open spec fn text(&self) -> Seq<char> {
        self.0.0.text() + self.0.1.text() + self.0.2.text() + self.0.3.text() + self.0.4.text() + self.0.5.text() + self.0.6.text() + self.0.7.text()
    }

    open spec fn step(&self, next: &Self) -> bool {
        self.0.0.step(&next.0.0)
        && self.0.1.step(&next.0.1)
        && self.0.2.step(&next.0.2)
        && self.0.3.step(&next.0.3)
        && self.0.4.step(&next.0.4)
        && self.0.5.step(&next.0.5)
        && self.0.6.step(&next.0.6)
        && self.0.7.step(&next.0.7)
    }

    fn render<S: Sink>(&mut self, sink: S) -> (r: (S, Result<(), WriteError>)) {
        let ghost s0 = sink;
        proof {
            sink.lemma_evolves_refl();
        }
        let ghost before = sink;
        let (sink, r) = self.0.0.render(sink);
        proof {
            lemma_sink_chain(&s0, &before, &sink);
        }
        if r.is_err() {
            return (sink, r);
        }
        let ghost before = sink;
        let (sink, r) = self.0.1.render(sink);
        proof {
            lemma_sink_chain(&s0, &before, &sink);
        }
        if r.is_err() {
            return (sink, r);
        }
        let ghost before = sink;
        let (sink, r) = self.0.2.render(sink);
        proof {
            lemma_sink_chain(&s0, &before, &sink);
        }
        if r.is_err() {
            return (sink, r);
        }
        let ghost before = sink;
        let (sink, r) = self.0.3.render(sink);
        proof {
            lemma_sink_chain(&s0, &before, &sink);
        }
        if r.is_err() {
            return (sink, r);
        }
        let ghost before = sink;
        let (sink, r) = self.0.4.render(sink);
        proof {
            lemma_sink_chain(&s0, &before, &sink);
        }
        if r.is_err() {
            return (sink, r);
        }
        let ghost before = sink;
        let (sink, r) = self.0.5.render(sink);
        proof {
            lemma_sink_chain(&s0, &before, &sink);
        }
        if r.is_err() {
            return (sink, r);
        }
        let ghost before = sink;
        let (sink, r) = self.0.6.render(sink);
        proof {
            lemma_sink_chain(&s0, &before, &sink);
        }
        if r.is_err() {
            return (sink, r);
        }
        let ghost before = sink;
        let (sink, r) = self.0.7.render(sink);
        proof {
            lemma_sink_chain(&s0, &before, &sink);
        }
        if r.is_err() {
            return (sink, r);
        }
        proof {
            assert(sink.written() =~= s0.written() + (old(self).0.0.text() + old(self).0.1.text() + old(self).0.2.text() + old(self).0.3.text() + old(self).0.4.text() + old(self).0.5.text() + old(self).0.6.text() + old(self).0.7.text()));
        }
        (sink, Ok(()))
    }
}

impl<T0: Pure, T1: Pure, T2: Pure, T3: Pure, T4: Pure, T5: Pure, T6: Pure, T7: Pure> Pure for ConcatTuple<(T0, T1, T2, T3, T4, T5, T6, T7)> {
    proof fn lemma_step_keeps_text(&self, next: &Self) {
        self.0.0.lemma_step_keeps_text(&next.0.0);
        self.0.1.lemma_step_keeps_text(&next.0.1);
        self.0.2.lemma_step_keeps_text(&next.0.2);
        self.0.3.lemma_step_keeps_text(&next.0.3);
        self.0.4.lemma_step_keeps_text(&next.0.4);
        self.0.5.lemma_step_keeps_text(&next.0.5);
        self.0.6.lemma_step_keeps_text(&next.0.6);
        self.0.7.lemma_step_keeps_text(&next.0.7);
    }
}

impl<T0: Render, T1: Render, T2: Render, T3: Render, T4: Render, T5: Render, T6: Render, T7: Render, T8: Render> Render for ConcatTuple<(T0, T1, T2, T3, T4, T5, T6, T7, T8)> {
    open spec fn text(&self) -> Seq<char> {
        self.0.0.text() + self.0.1.text() + self.0.2.text() + self.0.3.text() + self.0.4.text() + self.0.5.text() + self.0.6.text() + self.0.7.text() + self.0.8.text()
    }

    open spec fn step(&self, next: &Self) -> bool {
        self.0.0.step(&next.0.0)
        && self.0.1.step(&next.0.1)
        && self.0.2.step(&next.0.2)
        && self.0.3.step(&next.0.3)
        && self.0.4.step(&next.0.4)
        && self.0.5.step(&next.0.5)
        && self.0.6.step(&next.0.6)
        && self.0.7.step(&next.0.7)
        && self.0.8.step(&next.0.8)
    }

    fn render<S: Sink>(&mut self, sink: S) -> (r: (S, Result<(), WriteError>)) {
        let ghost s0 = sink;
        proof {
            sink.lemma_evolves_refl();
        }
        let ghost before = sink;
        let (sink, r) = self.0.0.render(sink);
        proof {
            lemma_sink_chain(&s0, &before, &sink);
        }
        if r.is_err() {
            return (sink, r);
        }
        let ghost before = sink;
        let (sink, r) = self.0.1.render(sink);
        proof {
            lemma_sink_chain(&s0, &before, &sink);
        }
        if r.is_err() {
            return (sink, r);
        }
        let ghost before = sink;
        let (sink, r) = self.0.2.render(sink);
        proof {
            lemma_sink_chain(&s0, &before, &sink);
        }
        if r.is_err() {
            return (sink, r);
        }
        let ghost before = sink;
        let (sink, r) = self.0.3.render(sink);
        proof {
            lemma_sink_chain(&s0, &before, &sink);
        }
        if r.is_err() {
            return (sink, r);
        }
        let ghost before = sink;
        let (sink, r) = self.0.4.render(sink);
        proof {
            lemma_sink_chain(&s0, &before, &sink);
        }
        if r.is_err() {
            return (sink, r);
        }
        let ghost before = sink;
        let (sink, r) = self.0.5.render(sink);
        proof {
            lemma_sink_chain(&s0, &before, &sink);
        }
        if r.is_err() {
            return (sink, r);
        }
        let ghost before = sink;
        let (sink, r) = self.0.6.render(sink);
        proof {
            lemma_sink_chain(&s0, &before, &sink);
        }
        if r.is_err() {
            return (sink, r);
        }
        let ghost before = sink;
        let (sink, r) = self.0.7.render(sink);
        proof {
            lemma_sink_chain(&s0, &before, &sink);
        }
        if r.is_err() {
            return (sink, r);
        }
        let ghost before = sink;
        let (sink, r) = self.0.8.render(sink);
        proof {
            lemma_sink_chain(&s0, &before, &sink);
        }
        if r.is_err() {
            return (sink, r);
        }
        proof {
            assert(sink.written() =~= s0.written() + (old(self).0.0.text() + old(self).0.1.text() + old(self).0.2.text() + old(self).0.3.text() + old(self).0.4.text() + old(self).0.5.text() + old(self).0.6.text() + old(self).0.7.text() + old(self).0.8.text()));
        }
        (sink, Ok(()))
    }
}

impl<T0: Pure, T1: Pure, T2: Pure, T3: Pure, T4: Pure, T5: Pure, T6: Pure, T7: Pure, T8: Pure> Pure for ConcatTuple<(T0, T1, T2, T3, T4, T5, T6, T7, T8)> {
    proof fn lemma_step_keeps_text(&self, next: &Self) {
        self.0.0.lemma_step_keeps_text(&next.0.0);
        self.0.1.lemma_step_keeps_text(&next.0.1);
        self.0.2.lemma_step_keeps_text(&next.0.2);
        self.0.3.lemma_step_keeps_text(&next.0.3);
        self.0.4.lemma_step_keeps_text(&next.0.4);
        self.0.5.lemma_step_keeps_text(&next.0.5);
        self.0.6.lemma_step_keeps_text(&next.0.6);
        self.0.7.lemma_step_keeps_text(&next.0.7);
        self.0.8.lemma_step_keeps_text(&next.0.8);
    }
}

impl<T0: Render, T1: Render, T2: Render, T3: Render, T4: Render, T5: Render, T6: Render, T7: Render, T8: Render, T9: Render> Render for ConcatTuple<(T0, T1, T2, T3, T4, T5, T6, T7, T8, T9)> {
    open spec fn text(&self) -> Seq<char> {
        self.0.0.text() + self.0.1.text() + self.0.2.text() + self.0.3.text() + self.0.4.text() + self.0.5.text() + self.0.6.text() + self.0.7.text() + self.0.8.text() + self.0.9.text()
    }

    open spec fn step(&self, next: &Self) -> bool {
        self.0.0.step(&next.0.0)
        && self.0.1.step(&next.0.1)
        && self.0.2.step(&next.0.2)
        && self.0.3.step(&next.0.3)
        && self.0.4.step(&next.0.4)
        && self.0.5.step(&next.0.5)
        && self.0.6.step(&next.0.6)
        && self.0.7.step(&next.0.7)
        && self.0.8.step(&next.0.8)
        && self.0.9.step(&next.0.9)
    }

    fn render<S: Sink>(&mut self, sink: S) -> (r: (S, Result<(), WriteError>)) {
        let ghost s0 = sink;
        proof {
            sink.lemma_evolves_refl();
        }
        let ghost before = sink;
        let (sink, r) = self.0.0.render(sink);
        proof {
            lemma_sink_chain(&s0, &before, &sink);
        }
        if r.is_err() {
            return (sink, r);
        }
        let ghost before = sink;
        let (sink, r) = self.0.1.render(sink);
        proof {
            lemma_sink_chain(&s0, &before, &sink);
        }
        if r.is_err() {
            return (sink, r);
        }
        let ghost before = sink;
        let (sink, r) = self.0.2.render(sink);
        proof {
            lemma_sink_chain(&s0, &before, &sink);
        }
        if r.is_err() {
            return (sink, r);
        }
        let ghost before = sink;
        let (sink, r) = self.0.3.render(sink);
        proof {
            lemma_sink_chain(&s0, &before, &sink);
        }
        if r.is_err() {
            return (sink, r);
        }
        let ghost before = sink;
        let (sink, r) = self.0.4.render(sink);
        proof {
            lemma_sink_chain(&s0, &before, &sink);
        }
        if r.is_err() {
            return (sink, r);
        }
        let ghost before = sink;
        let (sink, r) = self.0.5.render(sink);
        proof {
            lemma_sink_chain(&s0, &before, &sink);
        }
        if r.is_err() {
            return (sink, r);
        }
        let ghost before = sink;
        let (sink, r) = self.0.6.render(sink);
        proof {
            lemma_sink_chain(&s0, &before, &sink);
        }
        if r.is_err() {
            return (sink, r);
        }
        let ghost before = sink;
        let (sink, r) = self.0.7.render(sink);
        proof {
            lemma_sink_chain(&s0, &before, &sink);
        }
        if r.is_err() {
            return (sink, r);
        }
        let ghost before = sink;
        let (sink, r) = self.0.8.render(sink);
        proof {
            lemma_sink_chain(&s0, &before, &sink);
        }
        if r.is_err() {
            return (sink, r);
        }
        let ghost before = sink;
        let (sink, r) = self.0.9.render(sink);
        proof {
            lemma_sink_chain(&s0, &before, &sink);
        }
        if r.is_err() {
            return (sink, r);
        }
        proof {
            assert(sink.written() =~= s0.written() + (old(self).0.0.text() + old(self).0.1.text() + old(self).0.2.text() + old(self).0.3.text() + old(self).0.4.text() + old(self).0.5.text() + old(self).0.6.text() + old(self).0.7.text() + old(self).0.8.text() + old(self).0.9.text()));
        }
        (sink, Ok(()))
    }
}

impl<T0: Pure, T1: Pure, T2: Pure, T3: Pure, T4: Pure, T5: Pure, T6: Pure, T7: Pure, T8: Pure, T9: Pure> Pure for ConcatTuple<(T0, T1, T2, T3, T4, T5, T6, T7, T8, T9)> {
    proof fn lemma_step_keeps_text(&self, next: &Self) {
        self.0.0.lemma_step_keeps_text(&next.0.0);
        self.0.1.lemma_step_keeps_text(&next.0.1);
        self.0.2.lemma_step_keeps_text(&next.0.2);
        self.0.3.lemma_step_keeps_text(&next.0.3);
        self.0.4.lemma_step_keeps_text(&next.0.4);
        self.0.5.lemma_step_keeps_text(&next.0.5);
        self.0.6.lemma_step_keeps_text(&next.0.6);
        self.0.7.lemma_step_keeps_text(&next.0.7);
        self.0.8.lemma_step_keeps_text(&next.0.8);
        self.0.9.lemma_step_keeps_text(&next.0.9);
    }
}

impl<T0: Render, T1: Render, T2: Render, T3: Render, T4: Render, T5: Render, T6: Render, T7: Render, T8: Render, T9: Render, T10: Render> Render for ConcatTuple<(T0, T1, T2, T3, T4, T5, T6, T7, T8, T9, T10)> {
    open spec fn text(&self) -> Seq<char> {
        self.0.0.text() + self.0.1.text() + self.0.2.text() + self.0.3.text() + self.0.4.text() + self.0.5.text() + self.0.6.text() + self.0.7.text() + self.0.8.text() + self.0.9.text() + self.0.10.text()
    }

    open spec fn step(&self, next: &Self) -> bool {
        self.0.0.step(&next.0.0)
        && self.0.1.step(&next.0.1)
        && self.0.2.step(&next.0.2)
        && self.0.3.step(&next.0.3)
        && self.0.4.step(&next.0.4)
        && self.0.5.step(&next.0.5)
        && self.0.6.step(&next.0.6)
        && self.0.7.step(&next.0.7)
        && self.0.8.step(&next.0.8)
        && self.0.9.step(&next.0.9)
        && self.0.10.step(&next.0.10)
    }

    fn render<S: Sink>(&mut self, sink: S) -> (r: (S, Result<(), WriteError>)) {
        let ghost s0 = sink;
        proof {
            sink.lemma_evolves_refl();
        }
        let ghost before = sink;
        let (sink, r) = self.0.0.render(sink);
        proof {
            lemma_sink_chain(&s0, &before, &sink);
        }
        if r.is_err() {
            return (sink, r);
        }
        let ghost before = sink;
        let (sink, r) = self.0.1.render(sink);
        proof {
            lemma_sink_chain(&s0, &before, &sink);
        }
        if r.is_err() {
            return (sink, r);
        }
        let ghost before = sink;
        let (sink, r) = self.0.2.render(sink);
        proof {
            lemma_sink_chain(&s0, &before, &sink);
        }
        if r.is_err() {
            return (sink, r);
        }
        let ghost before = sink;
        let (sink, r) = self.0.3.render(sink);
        proof {
            lemma_sink_chain(&s0, &before, &sink);
        }
        if r.is_err() {
            return (sink, r);
        }
        let ghost before = sink;
        let (sink, r) = self.0.4.render(sink);
        proof {
            lemma_sink_chain(&s0, &before, &sink);
        }
        if r.is_err() {
            return (sink, r);
        }
        let ghost before = sink;
        let (sink, r) = self.0.5.render(sink);
        proof {
            lemma_sink_chain(&s0, &before, &sink);
        }
        if r.is_err() {
            return (sink, r);
        }
        let ghost before = sink;
        let (sink, r) = self.0.6.render(sink);
        proof {
            lemma_sink_chain(&s0, &before, &sink);
        }
        if r.is_err() {
            return (sink, r);
        }
        let ghost before = sink;
        let (sink, r) = self.0.7.render(sink);
        proof {
            lemma_sink_chain(&s0, &before, &sink);
        }
        if r.is_err() {
            return (sink, r);
        }
        let ghost before = sink;
        let (sink, r) = self.0.8.render(sink);
        proof {
            lemma_sink_chain(&s0, &before, &sink);
        }
        if r.is_err() {
            return (sink, r);
        }
        let ghost before = sink;
        let (sink, r) = self.0.9.render(sink);
        proof {
            lemma_sink_chain(&s0, &before, &sink);
        }
        if r.is_err() {
            return (sink, r);
        }
        let ghost before = sink;
        let (sink, r) = self.0.10.render(sink);
        proof {
            lemma_sink_chain(&s0, &before, &sink);
        }
        if r.is_err() {
            return (sink, r);
        }
        proof {
            assert(sink.written() =~= s0.written() + (old(self).0.0.text() + old(self).0.1.text() + old(self).0.2.text() + old(self).0.3.text() + old(self).0.4.text() + old(self).0.5.text() + old(self).0.6.text() + old(self).0.7.text() + old(self).0.8.text() + old(self).0.9.text() + old(self).0.10.text()));
        }
        (sink, Ok(()))
    }
}

impl<T0: Pure, T1: Pure, T2: Pure, T3: Pure, T4: Pure, T5: Pure, T6: Pure, T7: Pure, T8: Pure, T9: Pure, T10: Pure> Pure for ConcatTuple<(T0, T1, T2, T3, T4, T5, T6, T7, T8, T9, T10)> {
    proof fn lemma_step_keeps_text(&self, next: &Self) {
        self.0.0.lemma_step_keeps_text(&next.0.0);
        self.0.1.lemma_step_keeps_text(&next.0.1);
        self.0.2.lemma_step_keeps_text(&next.0.2);
        self.0.3.lemma_step_keeps_text(&next.0.3);
        self.0.4.lemma_step_keeps_text(&next.0.4);
        self.0.5.lemma_step_keeps_text(&next.0.5);
        self.0.6.lemma_step_keeps_text(&next.0.6);
        self.0.7.lemma_step_keeps_text(&next.0.7);
        self.0.8.lemma_step_keeps_text(&next.0.8);
        self.0.9.lemma_step_keeps_text(&next.0.9);
        self.0.10.lemma_step_keeps_text(&next.0.10);
    }
}

impl<T0: Render, T1: Render, T2: Render, T3: Render, T4: Render, T5: Render, T6: Render, T7: Render, T8: Render, T9: Render, T10: Render, T11: Render> Render for ConcatTuple<(T0, T1, T2, T3, T4, T5, T6, T7, T8, T9, T10, T11)> {
    open spec fn text(&self) -> Seq<char> {
        self.0.0.text() + self.0.1.text() + self.0.2.text() + self.0.3.text() + self.0.4.text() + self.0.5.text() + self.0.6.text() + self.0.7.text() + self.0.8.text() + self.0.9.text() + self.0.10.text() + self.0.11.text()
    }

    open spec fn step(&self, next: &Self) -> bool {
        self.0.0.step(&next.0.0)
        && self.0.1.step(&next.0.1)
        && self.0.2.step(&next.0.2)
        && self.0.3.step(&next.0.3)
        && self.0.4.step(&next.0.4)
        && self.0.5.step(&next.0.5)
        && self.0.6.step(&next.0.6)
        && self.0.7.step(&next.0.7)
        && self.0.8.step(&next.0.8)
        && self.0.9.step(&next.0.9)
        && self.0.10.step(&next.0.10)
        && self.0.11.step(&next.0.11)
    }

    fn render<S: Sink>(&mut self, sink: S) -> (r: (S, Result<(), WriteError>)) {
        let ghost s0 = sink;
        proof {
            sink.lemma_evolves_refl();
        }
        let ghost before = sink;
        let (sink, r) = self.0.0.render(sink);
        proof {
            lemma_sink_chain(&s0, &before, &sink);
        }
        if r.is_err() {
            return (sink, r);
        }
        let ghost before = sink;
        let (sink, r) = self.0.1.render(sink);
        proof {
            lemma_sink_chain(&s0, &before, &sink);
        }
        if r.is_err() {
            return (sink, r);
        }
        let ghost before = sink;
        let (sink, r) = self.0.2.render(sink);
        proof {
            lemma_sink_chain(&s0, &before, &sink);
        }
        if r.is_err() {
            return (sink, r);
        }
        let ghost before = sink;
        let (sink, r) = self.0.3.render(sink);
        proof {
            lemma_sink_chain(&s0, &before, &sink);
        }
        if r.is_err() {
            return (sink, r);
        }
        let ghost before = sink;
        let (sink, r) = self.0.4.render(sink);
        proof {
            lemma_sink_chain(&s0, &before, &sink);
        }
        if r.is_err() {
            return (sink, r);
        }
        let ghost before = sink;
        let (sink, r) = self.0.5.render(sink);
        proof {
            lemma_sink_chain(&s0, &before, &sink);
        }
        if r.is_err() {
            return (sink, r);
        }
        let ghost before = sink;
        let (sink, r) = self.0.6.render(sink);
        proof {
            lemma_sink_chain(&s0, &before, &sink);
        }
        if r.is_err() {
            return (sink, r);
        }
        let ghost before = sink;
        let (sink, r) = self.0.7.render(sink);
        proof {
            lemma_sink_chain(&s0, &before, &sink);
        }
        if r.is_err() {
            return (sink, r);
        }
        let ghost before = sink;
        let (sink, r) = self.0.8.render(sink);
        proof {
            lemma_sink_chain(&s0, &before, &sink);
        }
        if r.is_err() {
            return (sink, r);
        }
        let ghost before = sink;
        let (sink, r) = self.0.9.render(sink);
        proof {
            lemma_sink_chain(&s0, &before, &sink);
        }
        if r.is_err() {
            return (sink, r);
        }
        let ghost before = sink;
        let (sink, r) = self.0.10.render(sink);
        proof {
            lemma_sink_chain(&s0, &before, &sink);
        }
        if r.is_err() {
            return (sink, r);
        }
        let ghost before = sink;
        let (sink, r) = self.0.11.render(sink);
        proof {
            lemma_sink_chain(&s0, &before, &sink);
        }
        if r.is_err() {
            return (sink, r);
        }
        proof {
            assert(sink.written() =~= s0.written() + (old(self).0.0.text() + old(self).0.1.text() + old(self).0.2.text() + old(self).0.3.text() + old(self).0.4.text() + old(self).0.5.text() + old(self).0.6.text() + old(self).0.7.text() + old(self).0.8.text() + old(self).0.9.text() + old(self).0.10.text() + old(self).0.11.text()));
        }
        (sink, Ok(()))
    }
}

impl<T0: Pure, T1: Pure, T2: Pure, T3: Pure, T4: Pure, T5: Pure, T6: Pure, T7: Pure, T8: Pure, T9: Pure, T10: Pure, T11: Pure> Pure for ConcatTuple<(T0, T1, T2, T3, T4, T5, T6, T7, T8, T9, T10, T11)> {
    proof fn lemma_step_keeps_text(&self, next: &Self) {
        self.0.0.lemma_step_keeps_text(&next.0.0);
        self.0.1.lemma_step_keeps_text(&next.0.1);
        self.0.2.lemma_step_keeps_text(&next.0.2);
        self.0.3.lemma_step_keeps_text(&next.0.3);
        self.0.4.lemma_step_keeps_text(&next.0.4);
        self.0.5.lemma_step_keeps_text(&next.0.5);
        self.0.6.lemma_step_keeps_text(&next.0.6);
        self.0.7.lemma_step_keeps_text(&next.0.7);
        self.0.8.lemma_step_keeps_text(&next.0.8);
        self.0.9.lemma_step_keeps_text(&next.0.9);
        self.0.10.lemma_step_keeps_text(&next.0.10);
        self.0.11.lemma_step_keeps_text(&next.0.11);
    }
}

} // verus!
