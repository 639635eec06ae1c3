//! Lazily rendered text: values that write themselves into a sink on demand,
//! with a character-exact truncation filter and a render-at-most-once wrapper.

mod concat;
mod cond;
mod convert_case;
mod fmt_iterator;
mod join;
mod map;
mod noop;
mod once;
mod quote;
mod render;
mod repeat;
mod sink;
mod truncate;

pub use crate::concat::{
    concat, concat_map, concat_map_once, concat_mapped, concat_once, concat_text, concat_tuple,
    lemma_concat_identity, Concat, ConcatMap, ConcatTuple,
};
pub use crate::cond::{
    cond, cond_option, cond_option_or, cond_or, cond_result, cond_with, cond_with_option, Cond,
    CondOr, CondWith,
};
pub use crate::convert_case::{
    ascii_lower, ascii_upper, case_of, convert, lower_of, to_ascii_lowercase, to_ascii_uppercase,
    to_lowercase, to_uppercase, upper_of, Case, ToAsciiLowercase, ToAsciiUppercase, ToLowercase,
    ToUppercase,
};
pub use crate::fmt_iterator::FmtIterator;
pub use crate::join::{
    csv, csv_map, csv_map_once, csv_once, csv_tuple, join, join_map, join_map_once, join_mapped,
    join_mapped_rest, join_once, join_rest, join_text, join_tuple, lemma_join_law, Join, JoinMap,
    JoinTuple,
};
pub use crate::map::{called_text, calls_to_one_text, mapped_text, maps_all, Call, MapItems};
pub use crate::noop::{no_op, noop, NoOp};
pub use crate::once::{lemma_once_first, lemma_once_spent, Once};
pub use crate::quote::{
    infix, quote_backtick, quote_cjk, quote_cjk_vert, quote_cjk_white, quote_cjk_white_vert,
    quote_curly_double, quote_curly_single, quote_de_double, quote_de_single, quote_double,
    quote_guillemet_double, quote_guillemet_single, quote_single, Infix,
};
pub use crate::render::{lemma_render_twice, lemma_sink_chain, render_to_string, Pure, Render};
pub use crate::repeat::{repeat, repeat_text, repeat_with, Repeat, RepeatWith};
pub use crate::sink::{BoundedSink, Sink, WriteError};
pub use crate::truncate::{lemma_truncate_prefix, take_chars, truncate_chars, TruncateChars};
