use vstd::prelude::*;

use crate::concat::{
    concat, concat_map, concat_map_once, concat_mapped, concat_once, concat_text, Concat, ConcatMap,
};
use crate::join::{
    csv, csv_map, csv_map_once, csv_once, join, join_map, join_map_once, join_mapped, join_once,
    join_text, Join, JoinMap,
};
use crate::map::maps_all;
use crate::once::Once;
use crate::render::{Pure, Render};

verus! {

/// The combinators of this crate as methods on a list of items.
pub trait FmtIterator<T: Render>: Sized {
    spec fn items(&self) -> Seq<T>;

    /// See [`concat`].
    fn fmt_concat(self) -> (r: Concat<T>)
        ensures
            r.text() == concat_text(self.items()),
    ;

    /// See [`concat_once`].
    fn fmt_concat_once(self) -> (r: Once<Concat<T>>)
        ensures
            r.text() == concat_text(self.items()),
    ;

    /// See [`concat_map`].
    fn fmt_concat_map<R: Render, F: Fn(&T) -> R>(self, f: F) -> (r: ConcatMap<T, R, F>)
        requires
            maps_all(self.items(), f),
        ensures
            r.text() == concat_mapped(self.items(), f),
    ;

    /// See [`concat_map_once`].
    fn fmt_concat_map_once<R: Render, F: Fn(&T) -> R>(self, f: F) -> (r: Once<ConcatMap<T, R, F>>)
        requires
            maps_all(self.items(), f),
        ensures
            r.text() == concat_mapped(self.items(), f),
    ;

    /// See [`join`].
    fn fmt_join<P: Pure>(self, sep: P) -> (r: Join<T, P>)
        ensures
            r.text() == join_text(self.items(), sep.text()),
    ;

    /// See [`join_once`].
    fn fmt_join_once<P: Pure>(self, sep: P) -> (r: Once<Join<T, P>>)
        ensures
            r.text() == join_text(self.items(), sep.text()),
    ;

    /// See [`join_map`].
    fn fmt_join_map<P: Pure, R: Render, F: Fn(&T) -> R>(self, sep: P, f: F) -> (r: JoinMap<
        T,
        R,
        F,
        P,
    >)
        requires
            maps_all(self.items(), f),
        ensures
            r.text() == join_mapped(self.items(), f, sep.text()),
    ;

    /// See [`join_map_once`].
    fn fmt_join_map_once<P: Pure, R: Render, F: Fn(&T) -> R>(self, sep: P, f: F) -> (r: Once<
        JoinMap<T, R, F, P>,
    >)
        requires
            maps_all(self.items(), f),
        ensures
            r.text() == join_mapped(self.items(), f, sep.text()),
    ;

    /// See [`csv`].
    fn fmt_csv(self) -> (r: Join<T, &'static str>)
        ensures
            r.text() == join_text(self.items(), seq![',', ' ']),
    ;

    /// See [`csv_once`].
    fn fmt_csv_once(self) -> (r: Once<Join<T, &'static str>>)
        ensures
            r.text() == join_text(self.items(), seq![',', ' ']),
    ;

    /// See [`csv_map`].
    fn fmt_csv_map<R: Render, F: Fn(&T) -> R>(self, f: F) -> (r: JoinMap<T, R, F, &'static str>)
        requires
            maps_all(self.items(), f),
        ensures
            r.text() == join_mapped(self.items(), f, seq![',', ' ']),
    ;

    /// See [`csv_map_once`].
    fn fmt_csv_map_once<R: Render, F: Fn(&T) -> R>(self, f: F) -> (r: Once<
        JoinMap<T, R, F, &'static str>,
    >)
        requires
            maps_all(self.items(), f),
        ensures
            r.text() == join_mapped(self.items(), f, seq![',', ' ']),
    ;
}

impl<T: Render> FmtIterator<T> for Vec<T> {
    open spec fn items(&self) -> Seq<T> {
        self@
    }

    fn fmt_concat(self) -> (r: Concat<T>) {
        concat(self)
    }

    fn fmt_concat_once(self) -> (r: Once<Concat<T>>) {
        concat_once(self)
    }

    fn fmt_concat_map<R: Render, F: Fn(&T) -> R>(self, f: F) -> (r: ConcatMap<T, R, F>) {
        concat_map(self, f)
    }

    fn fmt_concat_map_once<R: Render, F: Fn(&T) -> R>(self, f: F) -> (r: Once<ConcatMap<T, R, F>>) {
        concat_map_once(self, f)
    }

    fn fmt_join<P: Pure>(self, sep: P) -> (r: Join<T, P>) {
        join(self, sep)
    }

    fn fmt_join_once<P: Pure>(self, sep: P) -> (r: Once<Join<T, P>>) {
        join_once(self, sep)
    }

    fn fmt_join_map<P: Pure, R: Render, F: Fn(&T) -> R>(self, sep: P, f: F) -> (r: JoinMap<
        T,
        R,
        F,
        P,
    >) {
        join_map(self, sep, f)
    }

    fn fmt_join_map_once<P: Pure, R: Render, F: Fn(&T) -> R>(self, sep: P, f: F) -> (r: Once<
        JoinMap<T, R, F, P>,
    >) {
        join_map_once(self, sep, f)
    }

    fn fmt_csv(self) -> (r: Join<T, &'static str>) {
        csv(self)
    }

    fn fmt_csv_once(self) -> (r: Once<Join<T, &'static str>>) {
        csv_once(self)
    }

    fn fmt_csv_map<R: Render, F: Fn(&T) -> R>(self, f: F) -> (r: JoinMap<T, R, F, &'static str>) {
        csv_map(self, f)
    }

    fn fmt_csv_map_once<R: Render, F: Fn(&T) -> R>(self, f: F) -> (r: Once<
        JoinMap<T, R, F, &'static str>,
    >) {
        csv_map_once(self, f)
    }
}

} // verus!
