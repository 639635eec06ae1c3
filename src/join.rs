use vstd::prelude::*;

use crate::map::{mapped_text, maps_all, MapItems};
use crate::once::Once;
use crate::render::{lemma_sink_chain, Pure, Render};
use crate::sink::{Sink, WriteError};

verus! {

/// Renders the items with the separator between each two of them.
pub struct Join<T, P> {
    pub items: Vec<T>,
    pub sep: P,
}

/// Renders the values of a tuple with the separator between each two of them.
#[derive(Clone, Copy)]
pub struct JoinTuple<T, P> {
    pub tuple: T,
    pub sep: P,
}

/// The separator, then an item, for each of `items`.
pub open spec fn join_rest<T: Render>(items: Seq<T>, sep: Seq<char>) -> Seq<char>
    decreases items.len(),
{
    if items.len() == 0 {
        Seq::empty()
    } else {
        sep + items[0].text() + join_rest(items.drop_first(), sep)
    }
}

/// The texts of `items` with `sep` between each two of them.
pub open spec fn join_text<T: Render>(items: Seq<T>, sep: Seq<char>) -> Seq<char> {
    if items.len() == 0 {
        Seq::empty()
    } else {
        items[0].text() + join_rest(items.drop_first(), sep)
    }
}

/// Joins the items with `sep` between each two of them.
pub fn join<T: Render, P: Pure>(items: Vec<T>, sep: P) -> (r: Join<T, P>)
    ensures
        r.items@ == items@,
        r.sep == sep,
        r.text() == join_text(items@, sep.text()),
{
    Join { items, sep }
}

/// Joins the items with `sep` between each two of them, at most once: the
/// first render writes them all and every later render writes nothing.
pub fn join_once<T: Render, P: Pure>(items: Vec<T>, sep: P) -> (r: Once<Join<T, P>>)
    ensures
        r.payload() matches Some(j) && j.items@ == items@ && j.sep == sep,
        r.text() == join_text(items@, sep.text()),
{
    Once::new(Join { items, sep })
}

/// Joins the values of a tuple with `sep` between each two of them.
pub fn join_tuple<T, P: Pure>(tuple: T, sep: P) -> (r: JoinTuple<T, P>)
    ensures
        r.tuple == tuple,
        r.sep == sep,
{
    JoinTuple { tuple, sep }
}

/// Joins the items with `", "` between each two of them.
pub fn csv<T: Render>(items: Vec<T>) -> (r: Join<T, &'static str>)
    ensures
        r.items@ == items@,
        r.sep@ == seq![',', ' '],
        r.text() == join_text(items@, seq![',', ' ']),
{
    let r = join(items, ", ");
    proof {
        reveal_strlit(", ");
        assert(r.sep@ =~= seq![',', ' ']);
    }
    r
}

/// Joins the items with `", "` between each two of them, at most once.
pub fn csv_once<T: Render>(items: Vec<T>) -> (r: Once<Join<T, &'static str>>)
    ensures
        r.payload() matches Some(j) && j.items@ == items@ && j.sep@ == seq![',', ' '],
        r.text() == join_text(items@, seq![',', ' ']),
{
    let r = join_once(items, ", ");
    proof {
        reveal_strlit(", ");
        assert(", "@ =~= seq![',', ' ']);
    }
    r
}

/// Joins the values of a tuple with `", "` between each two of them.
pub fn csv_tuple<T>(tuple: T) -> (r: JoinTuple<T, &'static str>)
    ensures
        r.tuple == tuple,
        r.sep@ == seq![',', ' '],
{
    let r = join_tuple(tuple, ", ");
    proof {
        reveal_strlit(", ");
        assert(r.sep@ =~= seq![',', ' ']);
    }
    r
}

proof fn lemma_join_rest_split<T: Render>(items: Seq<T>, i: int, sep: Seq<char>)
    requires
        0 <= i < items.len(),
    ensures
        join_rest(items.subrange(i, items.len() as int), sep) == sep + items[i].text() + join_rest(
            items.subrange(i + 1, items.len() as int),
            sep,
        ),
{
    assert(items.subrange(i, items.len() as int).drop_first() =~= items.subrange(
        i + 1,
        items.len() as int,
    ));
}

proof fn lemma_join_rest_pure<T: Pure>(a: Seq<T>, b: Seq<T>, sep: Seq<char>)
    requires
        a.len() == b.len(),
        forall|i: int| 0 <= i < a.len() ==> #[trigger] a[i].step(&b[i]),
    ensures
        join_rest(b, sep) == join_rest(a, sep),
    decreases a.len(),
{
    if a.len() > 0 {
        a[0].lemma_step_keeps_text(&b[0]);
        assert forall|i: int| 0 <= i < a.drop_first().len() implies #[trigger] a.drop_first()[i].step(
            &b.drop_first()[i],
        ) by {
            assert(a[i + 1].step(&b[i + 1]));
        }
        lemma_join_rest_pure(a.drop_first(), b.drop_first(), sep);
    }
}

impl<T: Render, P: Pure> Render for Join<T, P> {
    open spec fn text(&self) -> Seq<char> {
        join_text(self.items@, self.sep.text())
    }

    open spec fn step(&self, next: &Self) -> bool {
        &&& next.items@.len() == self.items@.len()
        &&& forall|i: int| 0 <= i < self.items@.len() ==> #[trigger] self.items@[i].step(&next.items@[i])
        &&& next.sep.text() == self.sep.text()
    }

    fn render<S: Sink>(&mut self, sink: S) -> (r: (S, Result<(), WriteError>)) {
        let ghost items0 = self.items@;
        let ghost sep_text = self.sep.text();
        let n = self.items.len();
        let mut out = sink;
        proof {
            out.lemma_evolves_refl();
        }
        if n == 0 {
            assert(out.written() + Seq::<char>::empty() =~= out.written());
            return (out, Ok(()));
        }
        let ghost before = out;
        let (next, r) = self.items[0].render(out);
        out = next;
        proof {
            lemma_sink_chain(&sink, &before, &out);
        }
        if r.is_err() {
            return (out, r);
        }
        proof {
            assert(items0.drop_first() =~= items0.subrange(1, n as int));
            assert(out.written() + join_rest(items0.subrange(1, n as int), sep_text) =~= sink.written()
                + join_text(items0, sep_text));
        }
        let mut i: usize = 1;
        while i < n
            invariant
                n == self.items@.len(),
                n == items0.len(),
                1 <= i <= n,
                self.sep.text() == sep_text,
                out.wf(),
                sink.evolves(&out),
                sink.reliable() ==> out.reliable(),
                out.written() + join_rest(items0.subrange(i as int, n as int), sep_text) == sink.written()
                    + join_text(items0, sep_text),
                forall|j: int| 0 <= j < i ==> #[trigger] items0[j].step(&self.items@[j]),
                forall|j: int| i <= j < n ==> #[trigger] self.items@[j] == items0[j],
            decreases n - i,
        {
            proof {
                lemma_join_rest_split(items0, i as int, sep_text);
            }
            let ghost before = out;
            let ghost sep_before = self.sep;
            let (next, r) = self.sep.render(out);
            out = next;
            proof {
                lemma_sink_chain(&sink, &before, &out);
            }
            if r.is_err() {
                return (out, r);
            }
            proof {
                sep_before.lemma_step_keeps_text(&self.sep);
            }
            let ghost middle = out;
            let (next, r) = self.items[i].render(out);
            out = next;
            proof {
                lemma_sink_chain(&sink, &middle, &out);
            }
            if r.is_err() {
                return (out, r);
            }
            proof {
                assert(out.written() + join_rest(items0.subrange(i + 1, n as int), sep_text) =~= before.written()
                    + join_rest(items0.subrange(i as int, n as int), sep_text));
            }
            i = i + 1;
        }
        proof {
            assert(items0.subrange(n as int, n as int) =~= Seq::<T>::empty());
            assert(out.written() =~= out.written() + join_rest(items0.subrange(n as int, n as int), sep_text));
        }
        (out, Ok(()))
    }
}

impl<T: Pure, P: Pure> Pure for Join<T, P> {
    proof fn lemma_step_keeps_text(&self, next: &Self) {
        if self.items@.len() > 0 {
            self.items@[0].lemma_step_keeps_text(&next.items@[0]);
            assert forall|i: int| 0 <= i < self.items@.drop_first().len() implies #[trigger] self.items@.drop_first()[i].step(
                &next.items@.drop_first()[i],
            ) by {
                assert(self.items@[i + 1].step(&next.items@[i + 1]));
            }
            lemma_join_rest_pure(self.items@.drop_first(), next.items@.drop_first(), self.sep.text());
        }
    }
}

/// Renders the result of a map on each item, with the separator between each
/// two of them.
#[verifier::reject_recursive_types(T)]
#[verifier::reject_recursive_types(R)]
pub struct JoinMap<T, R: Render, F: Fn(&T) -> R, P> {
    pub mapped: MapItems<T, R, F>,
    pub sep: P,
}

/// The separator, then the text of what `map` returns for an item, for each of
/// `items`.
pub open spec fn join_mapped_rest<T, R: Render, F: Fn(&T) -> R>(
    items: Seq<T>,
    map: F,
    sep: Seq<char>,
) -> Seq<char>
    decreases items.len(),
{
    if items.len() == 0 {
        Seq::empty()
    } else {
        sep + mapped_text(map, items[0]) + join_mapped_rest(items.drop_first(), map, sep)
    }
}

/// The texts of what `map` returns for each of `items`, with `sep` between
/// each two of them.
pub open spec fn join_mapped<T, R: Render, F: Fn(&T) -> R>(
    items: Seq<T>,
    map: F,
    sep: Seq<char>,
) -> Seq<char> {
    if items.len() == 0 {
        Seq::empty()
    } else {
        mapped_text(map, items[0]) + join_mapped_rest(items.drop_first(), map, sep)
    }
}

/// Joins what `map` returns for each item with `sep` between each two of them.
/// The map runs on every render; for any one item, all it may return must
/// write the same text.
pub fn join_map<T, R: Render, F: Fn(&T) -> R, P: Pure>(items: Vec<T>, sep: P, map: F) -> (r: JoinMap<
    T,
    R,
    F,
    P,
>)
    requires
        maps_all(items@, map),
    ensures
        r.mapped.items() == items@,
        r.mapped.map() == map,
        r.sep == sep,
        r.text() == join_mapped(items@, map, sep.text()),
{
    JoinMap { mapped: MapItems::new(items, map), sep }
}

/// Joins what `map` returns for each item with `sep` between each two of them,
/// at most once.
pub fn join_map_once<T, R: Render, F: Fn(&T) -> R, P: Pure>(items: Vec<T>, sep: P, map: F) -> (r:
    Once<JoinMap<T, R, F, P>>)
    requires
        maps_all(items@, map),
    ensures
        r.payload() matches Some(j) && j.mapped.items() == items@ && j.mapped.map() == map && j.sep
            == sep,
        r.text() == join_mapped(items@, map, sep.text()),
{
    Once::new(join_map(items, sep, map))
}

/// Joins what `map` returns for each item with `", "` between each two of them.
pub fn csv_map<T, R: Render, F: Fn(&T) -> R>(items: Vec<T>, map: F) -> (r: JoinMap<
    T,
    R,
    F,
    &'static str,
>)
    requires
        maps_all(items@, map),
    ensures
        r.mapped.items() == items@,
        r.mapped.map() == map,
        r.sep@ == seq![',', ' '],
        r.text() == join_mapped(items@, map, seq![',', ' ']),
{
    let r = join_map(items, ", ", map);
    proof {
        reveal_strlit(", ");
        assert(r.sep@ =~= seq![',', ' ']);
    }
    r
}

/// Joins what `map` returns for each item with `", "` between each two of
/// them, at most once.
pub fn csv_map_once<T, R: Render, F: Fn(&T) -> R>(items: Vec<T>, map: F) -> (r: Once<
    JoinMap<T, R, F, &'static str>,
>)
    requires
        maps_all(items@, map),
    ensures
        r.payload() matches Some(j) && j.mapped.items() == items@ && j.mapped.map() == map && j.sep@
            == seq![',', ' '],
        r.text() == join_mapped(items@, map, seq![',', ' ']),
{
    let r = join_map_once(items, ", ", map);
    proof {
        reveal_strlit(", ");
        assert(", "@ =~= seq![',', ' ']);
    }
    r
}

proof fn lemma_join_mapped_rest_split<T, R: Render, F: Fn(&T) -> R>(
    items: Seq<T>,
    map: F,
    i: int,
    sep: Seq<char>,
)
    requires
        0 <= i < items.len(),
    ensures
        join_mapped_rest(items.subrange(i, items.len() as int), map, sep) == sep + mapped_text(
            map,
            items[i],
        ) + join_mapped_rest(items.subrange(i + 1, items.len() as int), map, sep),
{
    assert(items.subrange(i, items.len() as int).drop_first() =~= items.subrange(
        i + 1,
        items.len() as int,
    ));
}

impl<T, R: Render, F: Fn(&T) -> R, P: Pure> Render for JoinMap<T, R, F, P> {
    open spec fn text(&self) -> Seq<char> {
        join_mapped(self.mapped.items(), self.mapped.map(), self.sep.text())
    }

    open spec fn step(&self, next: &Self) -> bool {
        &&& next.mapped.items() == self.mapped.items()
        &&& next.mapped.map() == self.mapped.map()
        &&& next.sep.text() == self.sep.text()
    }

    fn render<S: Sink>(&mut self, sink: S) -> (r: (S, Result<(), WriteError>)) {
        let ghost items = self.mapped.items();
        let ghost map = self.mapped.map();
        let ghost sep_text = self.sep.text();
        let n = self.mapped.len();
        let mut out = sink;
        proof {
            out.lemma_evolves_refl();
        }
        if n == 0 {
            assert(out.written() + Seq::<char>::empty() =~= out.written());
            return (out, Ok(()));
        }
        let mut value = self.mapped.apply(0);
        let ghost before = out;
        let (next, r) = value.render(out);
        out = next;
        proof {
            lemma_sink_chain(&sink, &before, &out);
        }
        if r.is_err() {
            return (out, r);
        }
        proof {
            assert(items.drop_first() =~= items.subrange(1, n as int));
            assert(out.written() + join_mapped_rest(items.subrange(1, n as int), map, sep_text) =~= sink.written()
                + join_mapped(items, map, sep_text));
        }
        let mut i: usize = 1;
        while i < n
            invariant
                n == items.len(),
                items == self.mapped.items(),
                map == self.mapped.map(),
                1 <= i <= n,
                self.sep.text() == sep_text,
                out.wf(),
                sink.evolves(&out),
                sink.reliable() ==> out.reliable(),
                out.written() + join_mapped_rest(items.subrange(i as int, n as int), map, sep_text)
                    == sink.written() + join_mapped(items, map, sep_text),
            decreases n - i,
        {
            proof {
                lemma_join_mapped_rest_split(items, map, i as int, sep_text);
            }
            let ghost before = out;
            let ghost sep_before = self.sep;
            let (next, r) = self.sep.render(out);
            out = next;
            proof {
                lemma_sink_chain(&sink, &before, &out);
            }
            if r.is_err() {
                return (out, r);
            }
            proof {
                sep_before.lemma_step_keeps_text(&self.sep);
            }
            let mut value = self.mapped.apply(i);
            let ghost middle = out;
            let (next, r) = value.render(out);
            out = next;
            proof {
                lemma_sink_chain(&sink, &middle, &out);
            }
            if r.is_err() {
                return (out, r);
            }
            proof {
                assert(out.written() + join_mapped_rest(items.subrange(i + 1, n as int), map, sep_text)
                    =~= before.written() + join_mapped_rest(items.subrange(i as int, n as int), map, sep_text));
            }
            i = i + 1;
        }
        proof {
            assert(items.subrange(n as int, n as int) =~= Seq::<T>::empty());
            assert(out.written() =~= out.written() + join_mapped_rest(
                items.subrange(n as int, n as int),
                map,
                sep_text,
            ));
        }
        (out, Ok(()))
    }
}

impl<T, R: Render, F: Fn(&T) -> R, P: Pure> Pure for JoinMap<T, R, F, P> {
    proof fn lemma_step_keeps_text(&self, next: &Self) {
    }
}

/// Joining no items or one item writes no separator; joining more writes the
/// join of all but the last, then the separator, then the last item.
pub proof fn lemma_join_law<T: Render>(items: Seq<T>, sep: Seq<char>)
    ensures
        items.len() == 0 ==> join_text(items, sep) == Seq::<char>::empty(),
        items.len() == 1 ==> join_text(items, sep) == items[0].text(),
        items.len() >= 2 ==> join_text(items, sep) == join_text(items.drop_last(), sep) + sep
            + items.last().text(),
    decreases items.len(),
{
    if items.len() == 1 {
        assert(join_rest(items.drop_first(), sep) == Seq::<char>::empty());
        assert(items[0].text() + Seq::<char>::empty() =~= items[0].text());
    }
    if items.len() >= 2 {
        lemma_join_rest_last(items.drop_first(), sep);
        assert(items.drop_first().drop_last() =~= items.drop_last().drop_first());
        assert(items.drop_last()[0] == items[0]);
        assert(items.drop_first().last() == items.last());
    }
}

proof fn lemma_join_rest_last<T: Render>(items: Seq<T>, sep: Seq<char>)
    requires
        items.len() >= 1,
    ensures
        join_rest(items, sep) == join_rest(items.drop_last(), sep) + sep + items.last().text(),
    decreases items.len(),
{
    if items.len() == 1 {
        assert(join_rest(items.drop_first(), sep) == Seq::<char>::empty());
        assert(join_rest(items.drop_last(), sep) == Seq::<char>::empty());
        assert(sep + items[0].text() + Seq::<char>::empty() =~= Seq::<char>::empty() + sep
            + items.last().text());
    } else {
        lemma_join_rest_last(items.drop_first(), sep);
        assert(items.drop_first().drop_last() =~= items.drop_last().drop_first());
        assert(items.drop_last()[0] == items[0]);
        assert(items.drop_first().last() == items.last());
        let a = sep + items[0].text();
        let b = join_rest(items.drop_first().drop_last(), sep);
        let c = sep + items.last().text();
        assert(a + (b + c) =~= (a + b) + c);
        assert((a + b) + c =~= a + b + sep + items.last().text());
        assert(a + (b + sep + items.last().text()) =~= a + (b + c));
    }
}

impl<T0: Render, P: Pure> Render for JoinTuple<(T0,), P> {
    open spec fn text(&self) -> Seq<char> {
        self.tuple.0.text()
    }

    open spec fn step(&self, next: &Self) -> bool {
        self.tuple.0.step(&next.tuple.0)
        && next.sep.text() == self.sep.text()
    }

    fn render<S: Sink>(&mut self, sink: S) -> (r: (S, Result<(), WriteError>)) {
        let ghost sep_text = self.sep.text();
        proof {
            sink.lemma_evolves_refl();
        }
        let out = sink;
        let ghost before = out;
        let (out, r) = self.tuple.0.render(out);
        proof {
            lemma_sink_chain(&sink, &before, &out);
        }
        if r.is_err() {
            return (out, r);
        }
        proof {
            assert(out.written() =~= sink.written() + (old(self).tuple.0.text()));
        }
        (out, Ok(()))
    }
}

impl<T0: Pure, P: Pure> Pure for JoinTuple<(T0,), P> {
    proof fn lemma_step_keeps_text(&self, next: &Self) {
        self.tuple.0.lemma_step_keeps_text(&next.tuple.0);
    }
}

impl<T0: Render, T1: Render, P: Pure> Render for JoinTuple<(T0, T1), P> {
    open spec fn text(&self) -> Seq<char> {
        self.tuple.0.text() + self.sep.text() + self.tuple.1.text()
    }

    open spec fn step(&self, next: &Self) -> bool {
        self.tuple.0.step(&next.tuple.0)
        && self.tuple.1.step(&next.tuple.1)
        && next.sep.text() == self.sep.text()
    }

    fn render<S: Sink>(&mut self, sink: S) -> (r: (S, Result<(), WriteError>)) {
        let ghost sep_text = self.sep.text();
        proof {
            sink.lemma_evolves_refl();
        }
        let out = sink;
        let ghost before = out;
        let (out, r) = self.tuple.0.render(out);
        proof {
            lemma_sink_chain(&sink, &before, &out);
        }
        if r.is_err() {
            return (out, r);
        }
        let ghost before = out;
        let ghost sep_before = self.sep;
        let (out, r) = self.sep.render(out);
        proof {
            lemma_sink_chain(&sink, &before, &out);
        }
        if r.is_err() {
            return (out, r);
        }
        proof {
            sep_before.lemma_step_keeps_text(&self.sep);
        }
        let ghost before = out;
        let (out, r) = self.tuple.1.render(out);
        proof {
            lemma_sink_chain(&sink, &before, &out);
        }
        if r.is_err() {
            return (out, r);
        }
        proof {
            assert(out.written() =~= sink.written() + (old(self).tuple.0.text() + sep_text + old(self).tuple.1.text()));
        }
        (out, Ok(()))
    }
}

impl<T0: Pure, T1: Pure, P: Pure> Pure for JoinTuple<(T0, T1), P> {
    proof fn lemma_step_keeps_text(&self, next: &Self) {
        self.tuple.0.lemma_step_keeps_text(&next.tuple.0);
        self.tuple.1.lemma_step_keeps_text(&next.tuple.1);
    }
}

impl<T0: Render, T1: Render, T2: Render, P: Pure> Render for JoinTuple<(T0, T1, T2), P> {
    open spec fn text(&self) -> Seq<char> {
        self.tuple.0.text() + self.sep.text() + self.tuple.1.text() + self.sep.text() + self.tuple.2.text()
    }

    open spec fn step(&self, next: &Self) -> bool {
        self.tuple.0.step(&next.tuple.0)
        && self.tuple.1.step(&next.tuple.1)
        && self.tuple.2.step(&next.tuple.2)
        && next.sep.text() == self.sep.text()
    }

    fn render<S: Sink>(&mut self, sink: S) -> (r: (S, Result<(), WriteError>)) {
        let ghost sep_text = self.sep.text();
        proof {
            sink.lemma_evolves_refl();
        }
        let out = sink;
        let ghost before = out;
        let (out, r) = self.tuple.0.render(out);
        proof {
            lemma_sink_chain(&sink, &before, &out);
        }
        if r.is_err() {
            return (out, r);
        }
        let ghost before = out;
        let ghost sep_before = self.sep;
        let (out, r) = self.sep.render(out);
        proof {
            lemma_sink_chain(&sink, &before, &out);
        }
        if r.is_err() {
            return (out, r);
        }
        proof {
            sep_before.lemma_step_keeps_text(&self.sep);
        }
        let ghost before = out;
        let (out, r) = self.tuple.1.render(out);
        proof {
            lemma_sink_chain(&sink, &before, &out);
        }
        if r.is_err() {
            return (out, r);
        }
        let ghost before = out;
        let ghost sep_before = self.sep;
        let (out, r) = self.sep.render(out);
        proof {
            lemma_sink_chain(&sink, &before, &out);
        }
        if r.is_err() {
            return (out, r);
        }
        proof {
            sep_before.lemma_step_keeps_text(&self.sep);
        }
        let ghost before = out;
        let (out, r) = self.tuple.2.render(out);
        proof {
            lemma_sink_chain(&sink, &before, &out);
        }
        if r.is_err() {
            return (out, r);
        }
        proof {
            assert(out.written() =~= sink.written() + (old(self).tuple.0.text() + sep_text + old(self).tuple.1.text() + sep_text + old(self).tuple.2.text()));
        }
        (out, Ok(()))
    }
}

impl<T0: Pure, T1: Pure, T2: Pure, P: Pure> Pure for JoinTuple<(T0, T1, T2), P> {
    proof fn lemma_step_keeps_text(&self, next: &Self) {
        self.tuple.0.lemma_step_keeps_text(&next.tuple.0);
        self.tuple.1.lemma_step_keeps_text(&next.tuple.1);
        self.tuple.2.lemma_step_keeps_text(&next.tuple.2);
    }
}

impl<T0: Render, T1: Render, T2: Render, T3: Render, P: Pure> Render for JoinTuple<(T0, T1, T2, T3), P> {
    open spec fn text(&self) -> Seq<char> {
        self.tuple.0.text() + self.sep.text() + self.tuple.1.text() + self.sep.text() + self.tuple.2.text() + self.sep.text() + self.tuple.3.text()
    }

    open spec fn step(&self, next: &Self) -> bool {
        self.tuple.0.step(&next.tuple.0)
        && self.tuple.1.step(&next.tuple.1)
        && self.tuple.2.step(&next.tuple.2)
        && self.tuple.3.step(&next.tuple.3)
        && next.sep.text() == self.sep.text()
    }

    fn render<S: Sink>(&mut self, sink: S) -> (r: (S, Result<(), WriteError>)) {
        let ghost sep_text = self.sep.text();
        proof {
            sink.lemma_evolves_refl();
        }
        let out = sink;
        let ghost before = out;
        let (out, r) = self.tuple.0.render(out);
        proof {
            lemma_sink_chain(&sink, &before, &out);
        }
        if r.is_err() {
            return (out, r);
        }
        let ghost before = out;
        let ghost sep_before = self.sep;
        let (out, r) = self.sep.render(out);
        proof {
            lemma_sink_chain(&sink, &before, &out);
        }
        if r.is_err() {
            return (out, r);
        }
        proof {
            sep_before.lemma_step_keeps_text(&self.sep);
        }
        let ghost before = out;
        let (out, r) = self.tuple.1.render(out);
        proof {
            lemma_sink_chain(&sink, &before, &out);
        }
        if r.is_err() {
            return (out, r);
        }
        let ghost before = out;
        let ghost sep_before = self.sep;
        let (out, r) = self.sep.render(out);
        proof {
            lemma_sink_chain(&sink, &before, &out);
        }
        if r.is_err() {
            return (out, r);
        }
        proof {
            sep_before.lemma_step_keeps_text(&self.sep);
        }
        let ghost before = out;
        let (out, r) = self.tuple.2.render(out);
        proof {
            lemma_sink_chain(&sink, &before, &out);
        }
        if r.is_err() {
            return (out, r);
        }
        let ghost before = out;
        let ghost sep_before = self.sep;
        let (out, r) = self.sep.render(out);
        proof {
            lemma_sink_chain(&sink, &before, &out);
        }
        if r.is_err() {
            return (out, r);
        }
        proof {
            sep_before.lemma_step_keeps_text(&self.sep);
        }
        let ghost before = out;
        let (out, r) = self.tuple.3.render(out);
        proof {
            lemma_sink_chain(&sink, &before, &out);
        }
        if r.is_err() {
            return (out, r);
        }
        proof {
            assert(out.written() =~= sink.written() + (old(self).tuple.0.text() + sep_text + old(self).tuple.1.text() + sep_text + old(self).tuple.2.text() + sep_text + old(self).tuple.3.text()));
        }
        (out, Ok(()))
    }
}

impl<T0: Pure, T1: Pure, T2: Pure, T3: Pure, P: Pure> Pure for JoinTuple<(T0, T1, T2, T3), P> {
    proof fn lemma_step_keeps_text(&self, next: &Self) {
        self.tuple.0.lemma_step_keeps_text(&next.tuple.0);
        self.tuple.1.lemma_step_keeps_text(&next.tuple.1);
        self.tuple.2.lemma_step_keeps_text(&next.tuple.2);
        self.tuple.3.lemma_step_keeps_text(&next.tuple.3);
    }
}

impl<T0: Render, T1: Render, T2: Render, T3: Render, T4: Render, P: Pure> Render for JoinTuple<(T0, T1, T2, T3, T4), P> {
    open spec fn text(&self) -> Seq<char> {
        self.tuple.0.text() + self.sep.text() + self.tuple.1.text() + self.sep.text() + self.tuple.2.text() + self.sep.text() + self.tuple.3.text() + self.sep.text() + self.tuple.4.text()
    }

    open spec fn step(&self, next: &Self) -> bool {
        self.tuple.0.step(&next.tuple.0)
        && self.tuple.1.step(&next.tuple.1)
        && self.tuple.2.step(&next.tuple.2)
        && self.tuple.3.step(&next.tuple.3)
        && self.tuple.4.step(&next.tuple.4)
        && next.sep.text() == self.sep.text()
    }

    fn render<S: Sink>(&mut self, sink: S) -> (r: (S, Result<(), WriteError>)) {
        let ghost sep_text = self.sep.text();
        proof {
            sink.lemma_evolves_refl();
        }
        let out = sink;
        let ghost before = out;
        let (out, r) = self.tuple.0.render(out);
        proof {
            lemma_sink_chain(&sink, &before, &out);
        }
        if r.is_err() {
            return (out, r);
        }
        let ghost before = out;
        let ghost sep_before = self.sep;
        let (out, r) = self.sep.render(out);
        proof {
            lemma_sink_chain(&sink, &before, &out);
        }
        if r.is_err() {
            return (out, r);
        }
        proof {
            sep_before.lemma_step_keeps_text(&self.sep);
        }
        let ghost before = out;
        let (out, r) = self.tuple.1.render(out);
        proof {
            lemma_sink_chain(&sink, &before, &out);
        }
        if r.is_err() {
            return (out, r);
        }
        let ghost before = out;
        let ghost sep_before = self.sep;
        let (out, r) = self.sep.render(out);
        proof {
            lemma_sink_chain(&sink, &before, &out);
        }
        if r.is_err() {
            return (out, r);
        }
        proof {
            sep_before.lemma_step_keeps_text(&self.sep);
        }
        let ghost before = out;
        let (out, r) = self.tuple.2.render(out);
        proof {
            lemma_sink_chain(&sink, &before, &out);
        }
        if r.is_err() {
            return (out, r);
        }
        let ghost before = out;
        let ghost sep_before = self.sep;
        let (out, r) = self.sep.render(out);
        proof {
            lemma_sink_chain(&sink, &before, &out);
        }
        if r.is_err() {
            return (out, r);
        }
        proof {
            sep_before.lemma_step_keeps_text(&self.sep);
        }
        let ghost before = out;
        let (out, r) = self.tuple.3.render(out);
        proof {
            lemma_sink_chain(&sink, &before, &out);
        }
        if r.is_err() {
            return (out, r);
        }
        let ghost before = out;
        let ghost sep_before = self.sep;
        let (out, r) = self.sep.render(out);
        proof {
            lemma_sink_chain(&sink, &before, &out);
        }
        if r.is_err() {
            return (out, r);
        }
        proof {
            sep_before.lemma_step_keeps_text(&self.sep);
        }
        let ghost before = out;
        let (out, r) = self.tuple.4.render(out);
        proof {
            lemma_sink_chain(&sink, &before, &out);
        }
        if r.is_err() {
            return (out, r);
        }
        proof {
            assert(out.written() =~= sink.written() + (old(self).tuple.0.text() + sep_text + old(self).tuple.1.text() + sep_text + old(self).tuple.2.text() + sep_text + old(self).tuple.3.text() + sep_text + old(self).tuple.4.text()));
        }
        (out, Ok(()))
    }
}

impl<T0: Pure, T1: Pure, T2: Pure, T3: Pure, T4: Pure, P: Pure> Pure for JoinTuple<(T0, T1, T2, T3, T4), P> {
    proof fn lemma_step_keeps_text(&self, next: &Self) {
        self.tuple.0.lemma_step_keeps_text(&next.tuple.0);
        self.tuple.1.lemma_step_keeps_text(&next.tuple.1);
        self.tuple.2.lemma_step_keeps_text(&next.tuple.2);
        self.tuple.3.lemma_step_keeps_text(&next.tuple.3);
        self.tuple.4.lemma_step_keeps_text(&next.tuple.4);
    }
}

impl<T0: Render, T1: Render, T2: Render, T3: Render, T4: Render, T5: Render, P: Pure> Render for JoinTuple<(T0, T1, T2, T3, T4, T5), P> {
    open spec fn text(&self) -> Seq<char> {
        self.tuple.0.text() + self.sep.text() + self.tuple.1.text() + self.sep.text() + self.tuple.2.text() + self.sep.text() + self.tuple.3.text() + self.sep.text() + self.tuple.4.text() + self.sep.text() + self.tuple.5.text()
    }

    open spec fn step(&self, next: &Self) -> bool {
        self.tuple.0.step(&next.tuple.0)
        && self.tuple.1.step(&next.tuple.1)
        && self.tuple.2.step(&next.tuple.2)
        && self.tuple.3.step(&next.tuple.3)
        && self.tuple.4.step(&next.tuple.4)
        && self.tuple.5.step(&next.tuple.5)
        && next.sep.text() == self.sep.text()
    }

    fn render<S: Sink>(&mut self, sink: S) -> (r: (S, Result<(), WriteError>)) {
        let ghost sep_text = self.sep.text();
        proof {
            sink.lemma_evolves_refl();
        }
        let out = sink;
        let ghost before = out;
        let (out, r) = self.tuple.0.render(out);
        proof {
            lemma_sink_chain(&sink, &before, &out);
        }
        if r.is_err() {
            return (out, r);
        }
        let ghost before = out;
        let ghost sep_before = self.sep;
        let (out, r) = self.sep.render(out);
        proof {
            lemma_sink_chain(&sink, &before, &out);
        }
        if r.is_err() {
            return (out, r);
        }
        proof {
            sep_before.lemma_step_keeps_text(&self.sep);
        }
        let ghost before = out;
        let (out, r) = self.tuple.1.render(out);
        proof {
            lemma_sink_chain(&sink, &before, &out);
        }
        if r.is_err() {
            return (out, r);
        }
        let ghost before = out;
        let ghost sep_before = self.sep;
        let (out, r) = self.sep.render(out);
        proof {
            lemma_sink_chain(&sink, &before, &out);
        }
        if r.is_err() {
            return (out, r);
        }
        proof {
            sep_before.lemma_step_keeps_text(&self.sep);
        }
        let ghost before = out;
        let (out, r) = self.tuple.2.render(out);
        proof {
            lemma_sink_chain(&sink, &before, &out);
        }
        if r.is_err() {
            return (out, r);
        }
        let ghost before = out;
        let ghost sep_before = self.sep;
        let (out, r) = self.sep.render(out);
        proof {
            lemma_sink_chain(&sink, &before, &out);
        }
        if r.is_err() {
            return (out, r);
        }
        proof {
            sep_before.lemma_step_keeps_text(&self.sep);
        }
        let ghost before = out;
        let (out, r) = self.tuple.3.render(out);
        proof {
            lemma_sink_chain(&sink, &before, &out);
        }
        if r.is_err() {
            return (out, r);
        }
        let ghost before = out;
        let ghost sep_before = self.sep;
        let (out, r) = self.sep.render(out);
        proof {
            lemma_sink_chain(&sink, &before, &out);
        }
        if r.is_err() {
            return (out, r);
        }
        proof {
            sep_before.lemma_step_keeps_text(&self.sep);
        }
        let ghost before = out;
        let (out, r) = self.tuple.4.render(out);
        proof {
            lemma_sink_chain(&sink, &before, &out);
        }
        if r.is_err() {
            return (out, r);
        }
        let ghost before = out;
        let ghost sep_before = self.sep;
        let (out, r) = self.sep.render(out);
        proof {
            lemma_sink_chain(&sink, &before, &out);
        }
        if r.is_err() {
            return (out, r);
        }
        proof {
            sep_before.lemma_step_keeps_text(&self.sep);
        }
        let ghost before = out;
        let (out, r) = self.tuple.5.render(out);
        proof {
            lemma_sink_chain(&sink, &before, &out);
        }
        if r.is_err() {
            return (out, r);
        }
        proof {
            assert(out.written() =~= sink.written() + (old(self).tuple.0.text() + sep_text + old(self).tuple.1.text() + sep_text + old(self).tuple.2.text() + sep_text + old(self).tuple.3.text() + sep_text + old(self).tuple.4.text() + sep_text + old(self).tuple.5.text()));
        }
        (out, Ok(()))
    }
}

impl<T0: Pure, T1: Pure, T2: Pure, T3: Pure, T4: Pure, T5: Pure, P: Pure> Pure for JoinTuple<(T0, T1, T2, T3, T4, T5), P> {
    proof fn lemma_step_keeps_text(&self, next: &Self) {
        self.tuple.0.lemma_step_keeps_text(&next.tuple.0);
        self.tuple.1.lemma_step_keeps_text(&next.tuple.1);
        self.tuple.2.lemma_step_keeps_text(&next.tuple.2);
        self.tuple.3.lemma_step_keeps_text(&next.tuple.3);
        self.tuple.4.lemma_step_keeps_text(&next.tuple.4);
        self.tuple.5.lemma_step_keeps_text(&next.tuple.5);
    }
}

impl<T0: Render, T1: Render, T2: Render, T3: Render, T4: Render, T5: Render, T6: Render, P: Pure> Render for JoinTuple<(T0, T1, T2, T3, T4, T5, T6), P> {
    open spec fn text(&self) -> Seq<char> {
        self.tuple.0.text() + self.sep.text() + self.tuple.1.text() + self.sep.text() + self.tuple.2.text() + self.sep.text() + self.tuple.3.text() + self.sep.text() + self.tuple.4.text() + self.sep.text() + self.tuple.5.text() + self.sep.text() + self.tuple.6.text()
    }

    open spec fn step(&self, next: &Self) -> bool {
        self.tuple.0.step(&next.tuple.0)
        && self.tuple.1.step(&next.tuple.1)
        && self.tuple.2.step(&next.tuple.2)
        && self.tuple.3.step(&next.tuple.3)
        && self.tuple.4.step(&next.tuple.4)
        && self.tuple.5.step(&next.tuple.5)
        && self.tuple.6.step(&next.tuple.6)
        && next.sep.text() == self.sep.text()
    }

    fn render<S: Sink>(&mut self, sink: S) -> (r: (S, Result<(), WriteError>)) {
        let ghost sep_text = self.sep.text();
        proof {
            sink.lemma_evolves_refl();
        }
        let out = sink;
        let ghost before = out;
        let (out, r) = self.tuple.0.render(out);
        proof {
            lemma_sink_chain(&sink, &before, &out);
        }
        if r.is_err() {
            return (out, r);
        }
        let ghost before = out;
        let ghost sep_before = self.sep;
        let (out, r) = self.sep.render(out);
        proof {
            lemma_sink_chain(&sink, &before, &out);
        }
        if r.is_err() {
            return (out, r);
        }
        proof {
            sep_before.lemma_step_keeps_text(&self.sep);
        }
        let ghost before = out;
        let (out, r) = self.tuple.1.render(out);
        proof {
            lemma_sink_chain(&sink, &before, &out);
        }
        if r.is_err() {
            return (out, r);
        }
        let ghost before = out;
        let ghost sep_before = self.sep;
        let (out, r) = self.sep.render(out);
        proof {
            lemma_sink_chain(&sink, &before, &out);
        }
        if r.is_err() {
            return (out, r);
        }
        proof {
            sep_before.lemma_step_keeps_text(&self.sep);
        }
        let ghost before = out;
        let (out, r) = self.tuple.2.render(out);
        proof {
            lemma_sink_chain(&sink, &before, &out);
        }
        if r.is_err() {
            return (out, r);
        }
        let ghost before = out;
        let ghost sep_before = self.sep;
        let (out, r) = self.sep.render(out);
        proof {
            lemma_sink_chain(&sink, &before, &out);
        }
        if r.is_err() {
            return (out, r);
        }
        proof {
            sep_before.lemma_step_keeps_text(&self.sep);
        }
        let ghost before = out;
        let (out, r) = self.tuple.3.render(out);
        proof {
            lemma_sink_chain(&sink, &before, &out);
        }
        if r.is_err() {
            return (out, r);
        }
        let ghost before = out;
        let ghost sep_before = self.sep;
        let (out, r) = self.sep.render(out);
        proof {
            lemma_sink_chain(&sink, &before, &out);
        }
        if r.is_err() {
            return (out, r);
        }
        proof {
            sep_before.lemma_step_keeps_text(&self.sep);
        }
        let ghost before = out;
        let (out, r) = self.tuple.4.render(out);
        proof {
            lemma_sink_chain(&sink, &before, &out);
        }
        if r.is_err() {
            return (out, r);
        }
        let ghost before = out;
        let ghost sep_before = self.sep;
        let (out, r) = self.sep.render(out);
        proof {
            lemma_sink_chain(&sink, &before, &out);
        }
        if r.is_err() {
            return (out, r);
        }
        proof {
            sep_before.lemma_step_keeps_text(&self.sep);
        }
        let ghost before = out;
        let (out, r) = self.tuple.5.render(out);
        proof {
            lemma_sink_chain(&sink, &before, &out);
        }
        if r.is_err() {
            return (out, r);
        }
        let ghost before = out;
        let ghost sep_before = self.sep;
        let (out, r) = self.sep.render(out);
        proof {
            lemma_sink_chain(&sink, &before, &out);
        }
        if r.is_err() {
            return (out, r);
        }
        proof {
            sep_before.lemma_step_keeps_text(&self.sep);
        }
        let ghost before = out;
        let (out, r) = self.tuple.6.render(out);
        proof {
            lemma_sink_chain(&sink, &before, &out);
        }
        if r.is_err() {
            return (out, r);
        }
        proof {
            assert(out.written() =~= sink.written() + (old(self).tuple.0.text() + sep_text + old(self).tuple.1.text() + sep_text + old(self).tuple.2.text() + sep_text + old(self).tuple.3.text() + sep_text + old(self).tuple.4.text() + sep_text + old(self).tuple.5.text() + sep_text + old(self).tuple.6.text()));
        }
        (out, Ok(()))
    }
}

impl<T0: Pure, T1: Pure, T2: Pure, T3: Pure, T4: Pure, T5: Pure, T6: Pure, P: Pure> Pure for JoinTuple<(T0, T1, T2, T3, T4, T5, T6), P> {
    proof fn lemma_step_keeps_text(&self, next: &Self) {
        self.tuple.0.lemma_step_keeps_text(&next.tuple.0);
        self.tuple.1.lemma_step_keeps_text(&next.tuple.1);
        self.tuple.2.lemma_step_keeps_text(&next.tuple.2);
        self.tuple.3.lemma_step_keeps_text(&next.tuple.3);
        self.tuple.4.lemma_step_keeps_text(&next.tuple.4);
        self.tuple.5.lemma_step_keeps_text(&next.tuple.5);
        self.tuple.6.lemma_step_keeps_text(&next.tuple.6);
    }
}

impl<T0: Render, T1: Render, T2: Render, T3: Render, T4: Render, T5: Render, T6: Render, T7: Render, P: Pure> Render for JoinTuple<(T0, T1, T2, T3, T4, T5, T6, T7), P> {
    open spec fn text(&self) -> Seq<char> {
        self.tuple.0.text() + self.sep.text() + self.tuple.1.text() + self.sep.text() + self.tuple.2.text() + self.sep.text() + self.tuple.3.text() + self.sep.text() + self.tuple.4.text() + self.sep.text() + self.tuple.5.text() + self.sep.text() + self.tuple.6.text() + self.sep.text() + self.tuple.7.text()
    }

    open spec fn step(&self, next: &Self) -> bool {
        self.tuple.0.step(&next.tuple.0)
        && self.tuple.1.step(&next.tuple.1)
        && self.tuple.2.step(&next.tuple.2)
        && self.tuple.3.step(&next.tuple.3)
        && self.tuple.4.step(&next.tuple.4)
        && self.tuple.5.step(&next.tuple.5)
        && self.tuple.6.step(&next.tuple.6)
        && self.tuple.7.step(&next.tuple.7)
        && next.sep.text() == self.sep.text()
    }

    fn render<S: Sink>(&mut self, sink: S) -> (r: (S, Result<(), WriteError>)) {
        let ghost sep_text = self.sep.text();
        proof {
            sink.lemma_evolves_refl();
        }
        let out = sink;
        let ghost before = out;
        let (out, r) = self.tuple.0.render(out);
        proof {
            lemma_sink_chain(&sink, &before, &out);
        }
        if r.is_err() {
            return (out, r);
        }
        let ghost before = out;
        let ghost sep_before = self.sep;
        let (out, r) = self.sep.render(out);
        proof {
            lemma_sink_chain(&sink, &before, &out);
        }
        if r.is_err() {
            return (out, r);
        }
        proof {
            sep_before.lemma_step_keeps_text(&self.sep);
        }
        let ghost before = out;
        let (out, r) = self.tuple.1.render(out);
        proof {
            lemma_sink_chain(&sink, &before, &out);
        }
        if r.is_err() {
            return (out, r);
        }
        let ghost before = out;
        let ghost sep_before = self.sep;
        let (out, r) = self.sep.render(out);
        proof {
            lemma_sink_chain(&sink, &before, &out);
        }
        if r.is_err() {
            return (out, r);
        }
        proof {
            sep_before.lemma_step_keeps_text(&self.sep);
        }
        let ghost before = out;
        let (out, r) = self.tuple.2.render(out);
        proof {
            lemma_sink_chain(&sink, &before, &out);
        }
        if r.is_err() {
            return (out, r);
        }
        let ghost before = out;
        let ghost sep_before = self.sep;
        let (out, r) = self.sep.render(out);
        proof {
            lemma_sink_chain(&sink, &before, &out);
        }
        if r.is_err() {
            return (out, r);
        }
        proof {
            sep_before.lemma_step_keeps_text(&self.sep);
        }
        let ghost before = out;
        let (out, r) = self.tuple.3.render(out);
        proof {
            lemma_sink_chain(&sink, &before, &out);
        }
        if r.is_err() {
            return (out, r);
        }
        let ghost before = out;
        let ghost sep_before = self.sep;
        let (out, r) = self.sep.render(out);
        proof {
            lemma_sink_chain(&sink, &before, &out);
        }
        if r.is_err() {
            return (out, r);
        }
        proof {
            sep_before.lemma_step_keeps_text(&self.sep);
        }
        let ghost before = out;
        let (out, r) = self.tuple.4.render(out);
        proof {
            lemma_sink_chain(&sink, &before, &out);
        }
        if r.is_err() {
            return (out, r);
        }
        let ghost before = out;
        let ghost sep_before = self.sep;
        let (out, r) = self.sep.render(out);
        proof {
            lemma_sink_chain(&sink, &before, &out);
        }
        if r.is_err() {
            return (out, r);
        }
        proof {
            sep_before.lemma_step_keeps_text(&self.sep);
        }
        let ghost before = out;
        let (out, r) = self.tuple.5.render(out);
        proof {
            lemma_sink_chain(&sink, &before, &out);
        }
        if r.is_err() {
            return (out, r);
        }
        let ghost before = out;
        let ghost sep_before = self.sep;
        let (out, r) = self.sep.render(out);
        proof {
            lemma_sink_chain(&sink, &before, &out);
        }
        if r.is_err() {
            return (out, r);
        }
        proof {
            sep_before.lemma_step_keeps_text(&self.sep);
        }
        let ghost before = out;
        let (out, r) = self.tuple.6.render(out);
        proof {
            lemma_sink_chain(&sink, &before, &out);
        }
        if r.is_err() {
            return (out, r);
        }
        let ghost before = out;
        let ghost sep_before = self.sep;
        let (out, r) = self.sep.render(out);
        proof {
            lemma_sink_chain(&sink, &before, &out);
        }
        if r.is_err() {
            return (out, r);
        }
        proof {
            sep_before.lemma_step_keeps_text(&self.sep);
        }
        let ghost before = out;
        let (out, r) = self.tuple.7.render(out);
        proof {
            lemma_sink_chain(&sink, &before, &out);
        }
        if r.is_err() {
            return (out, r);
        }
        proof {
            assert(out.written() =~= sink.written() + (old(self).tuple.0.text() + sep_text + old(self).tuple.1.text() + sep_text + old(self).tuple.2.text() + sep_text + old(self).tuple.3.text() + sep_text + old(self).tuple.4.text() + sep_text + old(self).tuple.5.text() + sep_text + old(self).tuple.6.text() + sep_text + old(self).tuple.7.text()));
        }
        (out, Ok(()))
    }
}

impl<T0: Pure, T1: Pure, T2: Pure, T3: Pure, T4: Pure, T5: Pure, T6: Pure, T7: Pure, P: Pure> Pure for JoinTuple<(T0, T1, T2, T3, T4, T5, T6, T7), P> {
    proof fn lemma_step_keeps_text(&self, next: &Self) {
        self.tuple.0.lemma_step_keeps_text(&next.tuple.0);
        self.tuple.1.lemma_step_keeps_text(&next.tuple.1);
        self.tuple.2.lemma_step_keeps_text(&next.tuple.2);
        self.tuple.3.lemma_step_keeps_text(&next.tuple.3);
        self.tuple.4.lemma_step_keeps_text(&next.tuple.4);
        self.tuple.5.lemma_step_keeps_text(&next.tuple.5);
        self.tuple.6.lemma_step_keeps_text(&next.tuple.6);
        self.tuple.7.lemma_step_keeps_text(&next.tuple.7);
    }
}

impl<T0: Render, T1: Render, T2: Render, T3: Render, T4: Render, T5: Render, T6: Render, T7: Render, T8: Render, P: Pure> Render for JoinTuple<(T0, T1, T2, T3, T4, T5, T6, T7, T8), P> {
    open spec fn text(&self) -> Seq<char> {
        self.tuple.0.text() + self.sep.text() + self.tuple.1.text() + self.sep.text() + self.tuple.2.text() + self.sep.text() + self.tuple.3.text() + self.sep.text() + self.tuple.4.text() + self.sep.text() + self.tuple.5.text() + self.sep.text() + self.tuple.6.text() + self.sep.text() + self.tuple.7.text() + self.sep.text() + self.tuple.8.text()
    }

    open spec fn step(&self, next: &Self) -> bool {
        self.tuple.0.step(&next.tuple.0)
        && self.tuple.1.step(&next.tuple.1)
        && self.tuple.2.step(&next.tuple.2)
        && self.tuple.3.step(&next.tuple.3)
        && self.tuple.4.step(&next.tuple.4)
        && self.tuple.5.step(&next.tuple.5)
        && self.tuple.6.step(&next.tuple.6)
        && self.tuple.7.step(&next.tuple.7)
        && self.tuple.8.step(&next.tuple.8)
        && next.sep.text() == self.sep.text()
    }

    fn render<S: Sink>(&mut self, sink: S) -> (r: (S, Result<(), WriteError>)) {
        let ghost sep_text = self.sep.text();
        proof {
            sink.lemma_evolves_refl();
        }
        let out = sink;
        let ghost before = out;
        let (out, r) = self.tuple.0.render(out);
        proof {
            lemma_sink_chain(&sink, &before, &out);
        }
        if r.is_err() {
            return (out, r);
        }
        let ghost before = out;
        let ghost sep_before = self.sep;
        let (out, r) = self.sep.render(out);
        proof {
            lemma_sink_chain(&sink, &before, &out);
        }
        if r.is_err() {
            return (out, r);
        }
        proof {
            sep_before.lemma_step_keeps_text(&self.sep);
        }
        let ghost before = out;
        let (out, r) = self.tuple.1.render(out);
        proof {
            lemma_sink_chain(&sink, &before, &out);
        }
        if r.is_err() {
            return (out, r);
        }
        let ghost before = out;
        let ghost sep_before = self.sep;
        let (out, r) = self.sep.render(out);
        proof {
            lemma_sink_chain(&sink, &before, &out);
        }
        if r.is_err() {
            return (out, r);
        }
        proof {
            sep_before.lemma_step_keeps_text(&self.sep);
        }
        let ghost before = out;
        let (out, r) = self.tuple.2.render(out);
        proof {
            lemma_sink_chain(&sink, &before, &out);
        }
        if r.is_err() {
            return (out, r);
        }
        let ghost before = out;
        let ghost sep_before = self.sep;
        let (out, r) = self.sep.render(out);
        proof {
            lemma_sink_chain(&sink, &before, &out);
        }
        if r.is_err() {
            return (out, r);
        }
        proof {
            sep_before.lemma_step_keeps_text(&self.sep);
        }
        let ghost before = out;
        let (out, r) = self.tuple.3.render(out);
        proof {
            lemma_sink_chain(&sink, &before, &out);
        }
        if r.is_err() {
            return (out, r);
        }
        let ghost before = out;
        let ghost sep_before = self.sep;
        let (out, r) = self.sep.render(out);
        proof {
            lemma_sink_chain(&sink, &before, &out);
        }
        if r.is_err() {
            return (out, r);
        }
        proof {
            sep_before.lemma_step_keeps_text(&self.sep);
        }
        let ghost before = out;
        let (out, r) = self.tuple.4.render(out);
        proof {
            lemma_sink_chain(&sink, &before, &out);
        }
        if r.is_err() {
            return (out, r);
        }
        let ghost before = out;
        let ghost sep_before = self.sep;
        let (out, r) = self.sep.render(out);
        proof {
            lemma_sink_chain(&sink, &before, &out);
        }
        if r.is_err() {
            return (out, r);
        }
        proof {
            sep_before.lemma_step_keeps_text(&self.sep);
        }
        let ghost before = out;
        let (out, r) = self.tuple.5.render(out);
        proof {
            lemma_sink_chain(&sink, &before, &out);
        }
        if r.is_err() {
            return (out, r);
        }
        let ghost before = out;
        let ghost sep_before = self.sep;
        let (out, r) = self.sep.render(out);
        proof {
            lemma_sink_chain(&sink, &before, &out);
        }
        if r.is_err() {
            return (out, r);
        }
        proof {
            sep_before.lemma_step_keeps_text(&self.sep);
        }
        let ghost before = out;
        let (out, r) = self.tuple.6.render(out);
        proof {
            lemma_sink_chain(&sink, &before, &out);
        }
        if r.is_err() {
            return (out, r);
        }
        let ghost before = out;
        let ghost sep_before = self.sep;
        let (out, r) = self.sep.render(out);
        proof {
            lemma_sink_chain(&sink, &before, &out);
        }
        if r.is_err() {
            return (out, r);
        }
        proof {
            sep_before.lemma_step_keeps_text(&self.sep);
        }
        let ghost before = out;
        let (out, r) = self.tuple.7.render(out);
        proof {
            lemma_sink_chain(&sink, &before, &out);
        }
        if r.is_err() {
            return (out, r);
        }
        let ghost before = out;
        let ghost sep_before = self.sep;
        let (out, r) = self.sep.render(out);
        proof {
            lemma_sink_chain(&sink, &before, &out);
        }
        if r.is_err() {
            return (out, r);
        }
        proof {
            sep_before.lemma_step_keeps_text(&self.sep);
        }
        let ghost before = out;
        let (out, r) = self.tuple.8.render(out);
        proof {
            lemma_sink_chain(&sink, &before, &out);
        }
        if r.is_err() {
            return (out, r);
        }
        proof {
            assert(out.written() =~= sink.written() + (old(self).tuple.0.text() + sep_text + old(self).tuple.1.text() + sep_text + old(self).tuple.2.text() + sep_text + old(self).tuple.3.text() + sep_text + old(self).tuple.4.text() + sep_text + old(self).tuple.5.text() + sep_text + old(self).tuple.6.text() + sep_text + old(self).tuple.7.text() + sep_text + old(self).tuple.8.text()));
        }
        (out, Ok(()))
    }
}

impl<T0: Pure, T1: Pure, T2: Pure, T3: Pure, T4: Pure, T5: Pure, T6: Pure, T7: Pure, T8: Pure, P: Pure> Pure for JoinTuple<(T0, T1, T2, T3, T4, T5, T6, T7, T8), P> {
    proof fn lemma_step_keeps_text(&self, next: &Self) {
        self.tuple.0.lemma_step_keeps_text(&next.tuple.0);
        self.tuple.1.lemma_step_keeps_text(&next.tuple.1);
        self.tuple.2.lemma_step_keeps_text(&next.tuple.2);
        self.tuple.3.lemma_step_keeps_text(&next.tuple.3);
        self.tuple.4.lemma_step_keeps_text(&next.tuple.4);
        self.tuple.5.lemma_step_keeps_text(&next.tuple.5);
        self.tuple.6.lemma_step_keeps_text(&next.tuple.6);
        self.tuple.7.lemma_step_keeps_text(&next.tuple.7);
        self.tuple.8.lemma_step_keeps_text(&next.tuple.8);
    }
}

impl<T0: Render, T1: Render, T2: Render, T3: Render, T4: Render, T5: Render, T6: Render, T7: Render, T8: Render, T9: Render, P: Pure> Render for JoinTuple<(T0, T1, T2, T3, T4, T5, T6, T7, T8, T9), P> {
    open spec fn text(&self) -> Seq<char> {
        self.tuple.0.text() + self.sep.text() + self.tuple.1.text() + self.sep.text() + self.tuple.2.text() + self.sep.text() + self.tuple.3.text() + self.sep.text() + self.tuple.4.text() + self.sep.text() + self.tuple.5.text() + self.sep.text() + self.tuple.6.text() + self.sep.text() + self.tuple.7.text() + self.sep.text() + self.tuple.8.text() + self.sep.text() + self.tuple.9.text()
    }

    open spec fn step(&self, next: &Self) -> bool {
        self.tuple.0.step(&next.tuple.0)
        && self.tuple.1.step(&next.tuple.1)
        && self.tuple.2.step(&next.tuple.2)
        && self.tuple.3.step(&next.tuple.3)
        && self.tuple.4.step(&next.tuple.4)
        && self.tuple.5.step(&next.tuple.5)
        && self.tuple.6.step(&next.tuple.6)
        && self.tuple.7.step(&next.tuple.7)
        && self.tuple.8.step(&next.tuple.8)
        && self.tuple.9.step(&next.tuple.9)
        && next.sep.text() == self.sep.text()
    }

    fn render<S: Sink>(&mut self, sink: S) -> (r: (S, Result<(), WriteError>)) {
        let ghost sep_text = self.sep.text();
        proof {
            sink.lemma_evolves_refl();
        }
        let out = sink;
        let ghost before = out;
        let (out, r) = self.tuple.0.render(out);
        proof {
            lemma_sink_chain(&sink, &before, &out);
        }
        if r.is_err() {
            return (out, r);
        }
        let ghost before = out;
        let ghost sep_before = self.sep;
        let (out, r) = self.sep.render(out);
        proof {
            lemma_sink_chain(&sink, &before, &out);
        }
        if r.is_err() {
            return (out, r);
        }
        proof {
            sep_before.lemma_step_keeps_text(&self.sep);
        }
        let ghost before = out;
        let (out, r) = self.tuple.1.render(out);
        proof {
            lemma_sink_chain(&sink, &before, &out);
        }
        if r.is_err() {
            return (out, r);
        }
        let ghost before = out;
        let ghost sep_before = self.sep;
        let (out, r) = self.sep.render(out);
        proof {
            lemma_sink_chain(&sink, &before, &out);
        }
        if r.is_err() {
            return (out, r);
        }
        proof {
            sep_before.lemma_step_keeps_text(&self.sep);
        }
        let ghost before = out;
        let (out, r) = self.tuple.2.render(out);
        proof {
            lemma_sink_chain(&sink, &before, &out);
        }
        if r.is_err() {
            return (out, r);
        }
        let ghost before = out;
        let ghost sep_before = self.sep;
        let (out, r) = self.sep.render(out);
        proof {
            lemma_sink_chain(&sink, &before, &out);
        }
        if r.is_err() {
            return (out, r);
        }
        proof {
            sep_before.lemma_step_keeps_text(&self.sep);
        }
        let ghost before = out;
        let (out, r) = self.tuple.3.render(out);
        proof {
            lemma_sink_chain(&sink, &before, &out);
        }
        if r.is_err() {
            return (out, r);
        }
        let ghost before = out;
        let ghost sep_before = self.sep;
        let (out, r) = self.sep.render(out);
        proof {
            lemma_sink_chain(&sink, &before, &out);
        }
        if r.is_err() {
            return (out, r);
        }
        proof {
            sep_before.lemma_step_keeps_text(&self.sep);
        }
        let ghost before = out;
        let (out, r) = self.tuple.4.render(out);
        proof {
            lemma_sink_chain(&sink, &before, &out);
        }
        if r.is_err() {
            return (out, r);
        }
        let ghost before = out;
        let ghost sep_before = self.sep;
        let (out, r) = self.sep.render(out);
        proof {
            lemma_sink_chain(&sink, &before, &out);
        }
        if r.is_err() {
            return (out, r);
        }
        proof {
            sep_before.lemma_step_keeps_text(&self.sep);
        }
        let ghost before = out;
        let (out, r) = self.tuple.5.render(out);
        proof {
            lemma_sink_chain(&sink, &before, &out);
        }
        if r.is_err() {
            return (out, r);
        }
        let ghost before = out;
        let ghost sep_before = self.sep;
        let (out, r) = self.sep.render(out);
        proof {
            lemma_sink_chain(&sink, &before, &out);
        }
        if r.is_err() {
            return (out, r);
        }
        proof {
            sep_before.lemma_step_keeps_text(&self.sep);
        }
        let ghost before = out;
        let (out, r) = self.tuple.6.render(out);
        proof {
            lemma_sink_chain(&sink, &before, &out);
        }
        if r.is_err() {
            return (out, r);
        }
        let ghost before = out;
        let ghost sep_before = self.sep;
        let (out, r) = self.sep.render(out);
        proof {
            lemma_sink_chain(&sink, &before, &out);
        }
        if r.is_err() {
            return (out, r);
        }
        proof {
            sep_before.lemma_step_keeps_text(&self.sep);
        }
        let ghost before = out;
        let (out, r) = self.tuple.7.render(out);
        proof {
            lemma_sink_chain(&sink, &before, &out);
        }
        if r.is_err() {
            return (out, r);
        }
        let ghost before = out;
        let ghost sep_before = self.sep;
        let (out, r) = self.sep.render(out);
        proof {
            lemma_sink_chain(&sink, &before, &out);
        }
        if r.is_err() {
            return (out, r);
        }
        proof {
            sep_before.lemma_step_keeps_text(&self.sep);
        }
        let ghost before = out;
        let (out, r) = self.tuple.8.render(out);
        proof {
            lemma_sink_chain(&sink, &before, &out);
        }
        if r.is_err() {
            return (out, r);
        }
        let ghost before = out;
        let ghost sep_before = self.sep;
        let (out, r) = self.sep.render(out);
        proof {
            lemma_sink_chain(&sink, &before, &out);
        }
        if r.is_err() {
            return (out, r);
        }
        proof {
            sep_before.lemma_step_keeps_text(&self.sep);
        }
        let ghost before = out;
        let (out, r) = self.tuple.9.render(out);
        proof {
            lemma_sink_chain(&sink, &before, &out);
        }
        if r.is_err() {
            return (out, r);
        }
        proof {
            assert(out.written() =~= sink.written() + (old(self).tuple.0.text() + sep_text + old(self).tuple.1.text() + sep_text + old(self).tuple.2.text() + sep_text + old(self).tuple.3.text() + sep_text + old(self).tuple.4.text() + sep_text + old(self).tuple.5.text() + sep_text + old(self).tuple.6.text() + sep_text + old(self).tuple.7.text() + sep_text + old(self).tuple.8.text() + sep_text + old(self).tuple.9.text()));
        }
        (out, Ok(()))
    }
}

impl<T0: Pure, T1: Pure, T2: Pure, T3: Pure, T4: Pure, T5: Pure, T6: Pure, T7: Pure, T8: Pure, T9: Pure, P: Pure> Pure for JoinTuple<(T0, T1, T2, T3, T4, T5, T6, T7, T8, T9), P> {
    proof fn lemma_step_keeps_text(&self, next: &Self) {
        self.tuple.0.lemma_step_keeps_text(&next.tuple.0);
        self.tuple.1.lemma_step_keeps_text(&next.tuple.1);
        self.tuple.2.lemma_step_keeps_text(&next.tuple.2);
        self.tuple.3.lemma_step_keeps_text(&next.tuple.3);
        self.tuple.4.lemma_step_keeps_text(&next.tuple.4);
        self.tuple.5.lemma_step_keeps_text(&next.tuple.5);
        self.tuple.6.lemma_step_keeps_text(&next.tuple.6);
        self.tuple.7.lemma_step_keeps_text(&next.tuple.7);
        self.tuple.8.lemma_step_keeps_text(&next.tuple.8);
        self.tuple.9.lemma_step_keeps_text(&next.tuple.9);
    }
}

impl<T0: Render, T1: Render, T2: Render, T3: Render, T4: Render, T5: Render, T6: Render, T7: Render, T8: Render, T9: Render, T10: Render, P: Pure> Render for JoinTuple<(T0, T1, T2, T3, T4, T5, T6, T7, T8, T9, T10), P> {
    open spec fn text(&self) -> Seq<char> {
        self.tuple.0.text() + self.sep.text() + self.tuple.1.text() + self.sep.text() + self.tuple.2.text() + self.sep.text() + self.tuple.3.text() + self.sep.text() + self.tuple.4.text() + self.sep.text() + self.tuple.5.text() + self.sep.text() + self.tuple.6.text() + self.sep.text() + self.tuple.7.text() + self.sep.text() + self.tuple.8.text() + self.sep.text() + self.tuple.9.text() + self.sep.text() + self.tuple.10.text()
    }

    open spec fn step(&self, next: &Self) -> bool {
        self.tuple.0.step(&next.tuple.0)
        && self.tuple.1.step(&next.tuple.1)
        && self.tuple.2.step(&next.tuple.2)
        && self.tuple.3.step(&next.tuple.3)
        && self.tuple.4.step(&next.tuple.4)
        && self.tuple.5.step(&next.tuple.5)
        && self.tuple.6.step(&next.tuple.6)
        && self.tuple.7.step(&next.tuple.7)
        && self.tuple.8.step(&next.tuple.8)
        && self.tuple.9.step(&next.tuple.9)
        && self.tuple.10.step(&next.tuple.10)
        && next.sep.text() == self.sep.text()
    }

    fn render<S: Sink>(&mut self, sink: S) -> (r: (S, Result<(), WriteError>)) {
        let ghost sep_text = self.sep.text();
        proof {
            sink.lemma_evolves_refl();
        }
        let out = sink;
        let ghost before = out;
        let (out, r) = self.tuple.0.render(out);
        proof {
            lemma_sink_chain(&sink, &before, &out);
        }
        if r.is_err() {
            return (out, r);
        }
        let ghost before = out;
        let ghost sep_before = self.sep;
        let (out, r) = self.sep.render(out);
        proof {
            lemma_sink_chain(&sink, &before, &out);
        }
        if r.is_err() {
            return (out, r);
        }
        proof {
            sep_before.lemma_step_keeps_text(&self.sep);
        }
        let ghost before = out;
        let (out, r) = self.tuple.1.render(out);
        proof {
            lemma_sink_chain(&sink, &before, &out);
        }
        if r.is_err() {
            return (out, r);
        }
        let ghost before = out;
        let ghost sep_before = self.sep;
        let (out, r) = self.sep.render(out);
        proof {
            lemma_sink_chain(&sink, &before, &out);
        }
        if r.is_err() {
            return (out, r);
        }
        proof {
            sep_before.lemma_step_keeps_text(&self.sep);
        }
        let ghost before = out;
        let (out, r) = self.tuple.2.render(out);
        proof {
            lemma_sink_chain(&sink, &before, &out);
        }
        if r.is_err() {
            return (out, r);
        }
        let ghost before = out;
        let ghost sep_before = self.sep;
        let (out, r) = self.sep.render(out);
        proof {
            lemma_sink_chain(&sink, &before, &out);
        }
        if r.is_err() {
            return (out, r);
        }
        proof {
            sep_before.lemma_step_keeps_text(&self.sep);
        }
        let ghost before = out;
        let (out, r) = self.tuple.3.render(out);
        proof {
            lemma_sink_chain(&sink, &before, &out);
        }
        if r.is_err() {
            return (out, r);
        }
        let ghost before = out;
        let ghost sep_before = self.sep;
        let (out, r) = self.sep.render(out);
        proof {
            lemma_sink_chain(&sink, &before, &out);
        }
        if r.is_err() {
            return (out, r);
        }
        proof {
            sep_before.lemma_step_keeps_text(&self.sep);
        }
        let ghost before = out;
        let (out, r) = self.tuple.4.render(out);
        proof {
            lemma_sink_chain(&sink, &before, &out);
        }
        if r.is_err() {
            return (out, r);
        }
        let ghost before = out;
        let ghost sep_before = self.sep;
        let (out, r) = self.sep.render(out);
        proof {
            lemma_sink_chain(&sink, &before, &out);
        }
        if r.is_err() {
            return (out, r);
        }
        proof {
            sep_before.lemma_step_keeps_text(&self.sep);
        }
        let ghost before = out;
        let (out, r) = self.tuple.5.render(out);
        proof {
            lemma_sink_chain(&sink, &before, &out);
        }
        if r.is_err() {
            return (out, r);
        }
        let ghost before = out;
        let ghost sep_before = self.sep;
        let (out, r) = self.sep.render(out);
        proof {
            lemma_sink_chain(&sink, &before, &out);
        }
        if r.is_err() {
            return (out, r);
        }
        proof {
            sep_before.lemma_step_keeps_text(&self.sep);
        }
        let ghost before = out;
        let (out, r) = self.tuple.6.render(out);
        proof {
            lemma_sink_chain(&sink, &before, &out);
        }
        if r.is_err() {
            return (out, r);
        }
        let ghost before = out;
        let ghost sep_before = self.sep;
        let (out, r) = self.sep.render(out);
        proof {
            lemma_sink_chain(&sink, &before, &out);
        }
        if r.is_err() {
            return (out, r);
        }
        proof {
            sep_before.lemma_step_keeps_text(&self.sep);
        }
        let ghost before = out;
        let (out, r) = self.tuple.7.render(out);
        proof {
            lemma_sink_chain(&sink, &before, &out);
        }
        if r.is_err() {
            return (out, r);
        }
        let ghost before = out;
        let ghost sep_before = self.sep;
        let (out, r) = self.sep.render(out);
        proof {
            lemma_sink_chain(&sink, &before, &out);
        }
        if r.is_err() {
            return (out, r);
        }
        proof {
            sep_before.lemma_step_keeps_text(&self.sep);
        }
        let ghost before = out;
        let (out, r) = self.tuple.8.render(out);
        proof {
            lemma_sink_chain(&sink, &before, &out);
        }
        if r.is_err() {
            return (out, r);
        }
        let ghost before = out;
        let ghost sep_before = self.sep;
        let (out, r) = self.sep.render(out);
        proof {
            lemma_sink_chain(&sink, &before, &out);
        }
        if r.is_err() {
            return (out, r);
        }
        proof {
            sep_before.lemma_step_keeps_text(&self.sep);
        }
        let ghost before = out;
        let (out, r) = self.tuple.9.render(out);
        proof {
            lemma_sink_chain(&sink, &before, &out);
        }
        if r.is_err() {
            return (out, r);
        }
        let ghost before = out;
        let ghost sep_before = self.sep;
        let (out, r) = self.sep.render(out);
        proof {
            lemma_sink_chain(&sink, &before, &out);
        }
        if r.is_err() {
            return (out, r);
        }
        proof {
            sep_before.lemma_step_keeps_text(&self.sep);
        }
        let ghost before = out;
        let (out, r) = self.tuple.10.render(out);
        proof {
            lemma_sink_chain(&sink, &before, &out);
        }
        if r.is_err() {
            return (out, r);
        }
        proof {
            assert(out.written() =~= sink.written() + (old(self).tuple.0.text() + sep_text + old(self).tuple.1.text() + sep_text + old(self).tuple.2.text() + sep_text + old(self).tuple.3.text() + sep_text + old(self).tuple.4.text() + sep_text + old(self).tuple.5.text() + sep_text + old(self).tuple.6.text() + sep_text + old(self).tuple.7.text() + sep_text + old(self).tuple.8.text() + sep_text + old(self).tuple.9.text() + sep_text + old(self).tuple.10.text()));
        }
        (out, Ok(()))
    }
}

impl<T0: Pure, T1: Pure, T2: Pure, T3: Pure, T4: Pure, T5: Pure, T6: Pure, T7: Pure, T8: Pure, T9: Pure, T10: Pure, P: Pure> Pure for JoinTuple<(T0, T1, T2, T3, T4, T5, T6, T7, T8, T9, T10), P> {
    proof fn lemma_step_keeps_text(&self, next: &Self) {
        self.tuple.0.lemma_step_keeps_text(&next.tuple.0);
        self.tuple.1.lemma_step_keeps_text(&next.tuple.1);
        self.tuple.2.lemma_step_keeps_text(&next.tuple.2);
        self.tuple.3.lemma_step_keeps_text(&next.tuple.3);
        self.tuple.4.lemma_step_keeps_text(&next.tuple.4);
        self.tuple.5.lemma_step_keeps_text(&next.tuple.5);
        self.tuple.6.lemma_step_keeps_text(&next.tuple.6);
        self.tuple.7.lemma_step_keeps_text(&next.tuple.7);
        self.tuple.8.lemma_step_keeps_text(&next.tuple.8);
        self.tuple.9.lemma_step_keeps_text(&next.tuple.9);
        self.tuple.10.lemma_step_keeps_text(&next.tuple.10);
    }
}

impl<T0: Render, T1: Render, T2: Render, T3: Render, T4: Render, T5: Render, T6: Render, T7: Render, T8: Render, T9: Render, T10: Render, T11: Render, P: Pure> Render for JoinTuple<(T0, T1, T2, T3, T4, T5, T6, T7, T8, T9, T10, T11), P> {
    open spec fn text(&self) -> Seq<char> {
        self.tuple.0.text() + self.sep.text() + self.tuple.1.text() + self.sep.text() + self.tuple.2.text() + self.sep.text() + self.tuple.3.text() + self.sep.text() + self.tuple.4.text() + self.sep.text() + self.tuple.5.text() + self.sep.text() + self.tuple.6.text() + self.sep.text() + self.tuple.7.text() + self.sep.text() + self.tuple.8.text() + self.sep.text() + self.tuple.9.text() + self.sep.text() + self.tuple.10.text() + self.sep.text() + self.tuple.11.text()
    }

    open spec fn step(&self, next: &Self) -> bool {
        self.tuple.0.step(&next.tuple.0)
        && self.tuple.1.step(&next.tuple.1)
        && self.tuple.2.step(&next.tuple.2)
        && self.tuple.3.step(&next.tuple.3)
        && self.tuple.4.step(&next.tuple.4)
        && self.tuple.5.step(&next.tuple.5)
        && self.tuple.6.step(&next.tuple.6)
        && self.tuple.7.step(&next.tuple.7)
        && self.tuple.8.step(&next.tuple.8)
        && self.tuple.9.step(&next.tuple.9)
        && self.tuple.10.step(&next.tuple.10)
        && self.tuple.11.step(&next.tuple.11)
        && next.sep.text() == self.sep.text()
    }

    fn render<S: Sink>(&mut self, sink: S) -> (r: (S, Result<(), WriteError>)) {
        let ghost sep_text = self.sep.text();
        proof {
            sink.lemma_evolves_refl();
        }
        let out = sink;
        let ghost before = out;
        let (out, r) = self.tuple.0.render(out);
        proof {
            lemma_sink_chain(&sink, &before, &out);
        }
        if r.is_err() {
            return (out, r);
        }
        let ghost before = out;
        let ghost sep_before = self.sep;
        let (out, r) = self.sep.render(out);
        proof {
            lemma_sink_chain(&sink, &before, &out);
        }
        if r.is_err() {
            return (out, r);
        }
        proof {
            sep_before.lemma_step_keeps_text(&self.sep);
        }
        let ghost before = out;
        let (out, r) = self.tuple.1.render(out);
        proof {
            lemma_sink_chain(&sink, &before, &out);
        }
        if r.is_err() {
            return (out, r);
        }
        let ghost before = out;
        let ghost sep_before = self.sep;
        let (out, r) = self.sep.render(out);
        proof {
            lemma_sink_chain(&sink, &before, &out);
        }
        if r.is_err() {
            return (out, r);
        }
        proof {
            sep_before.lemma_step_keeps_text(&self.sep);
        }
        let ghost before = out;
        let (out, r) = self.tuple.2.render(out);
        proof {
            lemma_sink_chain(&sink, &before, &out);
        }
        if r.is_err() {
            return (out, r);
        }
        let ghost before = out;
        let ghost sep_before = self.sep;
        let (out, r) = self.sep.render(out);
        proof {
            lemma_sink_chain(&sink, &before, &out);
        }
        if r.is_err() {
            return (out, r);
        }
        proof {
            sep_before.lemma_step_keeps_text(&self.sep);
        }
        let ghost before = out;
        let (out, r) = self.tuple.3.render(out);
        proof {
            lemma_sink_chain(&sink, &before, &out);
        }
        if r.is_err() {
            return (out, r);
        }
        let ghost before = out;
        let ghost sep_before = self.sep;
        let (out, r) = self.sep.render(out);
        proof {
            lemma_sink_chain(&sink, &before, &out);
        }
        if r.is_err() {
            return (out, r);
        }
        proof {
            sep_before.lemma_step_keeps_text(&self.sep);
        }
        let ghost before = out;
        let (out, r) = self.tuple.4.render(out);
        proof {
            lemma_sink_chain(&sink, &before, &out);
        }
        if r.is_err() {
            return (out, r);
        }
        let ghost before = out;
        let ghost sep_before = self.sep;
        let (out, r) = self.sep.render(out);
        proof {
            lemma_sink_chain(&sink, &before, &out);
        }
        if r.is_err() {
            return (out, r);
        }
        proof {
            sep_before.lemma_step_keeps_text(&self.sep);
        }
        let ghost before = out;
        let (out, r) = self.tuple.5.render(out);
        proof {
            lemma_sink_chain(&sink, &before, &out);
        }
        if r.is_err() {
            return (out, r);
        }
        let ghost before = out;
        let ghost sep_before = self.sep;
        let (out, r) = self.sep.render(out);
        proof {
            lemma_sink_chain(&sink, &before, &out);
        }
        if r.is_err() {
            return (out, r);
        }
        proof {
            sep_before.lemma_step_keeps_text(&self.sep);
        }
        let ghost before = out;
        let (out, r) = self.tuple.6.render(out);
        proof {
            lemma_sink_chain(&sink, &before, &out);
        }
        if r.is_err() {
            return (out, r);
        }
        let ghost before = out;
        let ghost sep_before = self.sep;
        let (out, r) = self.sep.render(out);
        proof {
            lemma_sink_chain(&sink, &before, &out);
        }
        if r.is_err() {
            return (out, r);
        }
        proof {
            sep_before.lemma_step_keeps_text(&self.sep);
        }
        let ghost before = out;
        let (out, r) = self.tuple.7.render(out);
        proof {
            lemma_sink_chain(&sink, &before, &out);
        }
        if r.is_err() {
            return (out, r);
        }
        let ghost before = out;
        let ghost sep_before = self.sep;
        let (out, r) = self.sep.render(out);
        proof {
            lemma_sink_chain(&sink, &before, &out);
        }
        if r.is_err() {
            return (out, r);
        }
        proof {
            sep_before.lemma_step_keeps_text(&self.sep);
        }
        let ghost before = out;
        let (out, r) = self.tuple.8.render(out);
        proof {
            lemma_sink_chain(&sink, &before, &out);
        }
        if r.is_err() {
            return (out, r);
        }
        let ghost before = out;
        let ghost sep_before = self.sep;
        let (out, r) = self.sep.render(out);
        proof {
            lemma_sink_chain(&sink, &before, &out);
        }
        if r.is_err() {
            return (out, r);
        }
        proof {
            sep_before.lemma_step_keeps_text(&self.sep);
        }
        let ghost before = out;
        let (out, r) = self.tuple.9.render(out);
        proof {
            lemma_sink_chain(&sink, &before, &out);
        }
        if r.is_err() {
            return (out, r);
        }
        let ghost before = out;
        let ghost sep_before = self.sep;
        let (out, r) = self.sep.render(out);
        proof {
            lemma_sink_chain(&sink, &before, &out);
        }
        if r.is_err() {
            return (out, r);
        }
        proof {
            sep_before.lemma_step_keeps_text(&self.sep);
        }
        let ghost before = out;
        let (out, r) = self.tuple.10.render(out);
        proof {
            lemma_sink_chain(&sink, &before, &out);
        }
        if r.is_err() {
            return (out, r);
        }
        let ghost before = out;
        let ghost sep_before = self.sep;
        let (out, r) = self.sep.render(out);
        proof {
            lemma_sink_chain(&sink, &before, &out);
        }
        if r.is_err() {
            return (out, r);
        }
        proof {
            sep_before.lemma_step_keeps_text(&self.sep);
        }
        let ghost before = out;
        let (out, r) = self.tuple.11.render(out);
        proof {
            lemma_sink_chain(&sink, &before, &out);
        }
        if r.is_err() {
            return (out, r);
        }
        proof {
            assert(out.written() =~= sink.written() + (old(self).tuple.0.text() + sep_text + old(self).tuple.1.text() + sep_text + old(self).tuple.2.text() + sep_text + old(self).tuple.3.text() + sep_text + old(self).tuple.4.text() + sep_text + old(self).tuple.5.text() + sep_text + old(self).tuple.6.text() + sep_text + old(self).tuple.7.text() + sep_text + old(self).tuple.8.text() + sep_text + old(self).tuple.9.text() + sep_text + old(self).tuple.10.text() + sep_text + old(self).tuple.11.text()));
        }
        (out, Ok(()))
    }
}

impl<T0: Pure, T1: Pure, T2: Pure, T3: Pure, T4: Pure, T5: Pure, T6: Pure, T7: Pure, T8: Pure, T9: Pure, T10: Pure, T11: Pure, P: Pure> Pure for JoinTuple<(T0, T1, T2, T3, T4, T5, T6, T7, T8, T9, T10, T11), P> {
    proof fn lemma_step_keeps_text(&self, next: &Self) {
        self.tuple.0.lemma_step_keeps_text(&next.tuple.0);
        self.tuple.1.lemma_step_keeps_text(&next.tuple.1);
        self.tuple.2.lemma_step_keeps_text(&next.tuple.2);
        self.tuple.3.lemma_step_keeps_text(&next.tuple.3);
        self.tuple.4.lemma_step_keeps_text(&next.tuple.4);
        self.tuple.5.lemma_step_keeps_text(&next.tuple.5);
        self.tuple.6.lemma_step_keeps_text(&next.tuple.6);
        self.tuple.7.lemma_step_keeps_text(&next.tuple.7);
        self.tuple.8.lemma_step_keeps_text(&next.tuple.8);
        self.tuple.9.lemma_step_keeps_text(&next.tuple.9);
        self.tuple.10.lemma_step_keeps_text(&next.tuple.10);
        self.tuple.11.lemma_step_keeps_text(&next.tuple.11);
    }
}

} // verus!
