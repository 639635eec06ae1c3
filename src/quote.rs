use vstd::prelude::*;

use crate::concat::ConcatTuple;
use crate::render::Render;

verus! {

/// Renders a value between two others.
pub type Infix<T, L, R> = ConcatTuple<(L, T, R)>;

/// Places `value` between `left` and `right`.
pub fn infix<T: Render, L: Render, R: Render>(left: L, value: T, right: R) -> (r: Infix<T, L, R>)
    ensures
        r.0 == (left, value, right),
        r.text() == left.text() + value.text() + right.text(),
{
    ConcatTuple((left, value, right))
}

/// Places a value between `'`.
pub fn quote_single<T: Render>(value: T) -> (r: Infix<T, char, char>)
    ensures
        r.0 == ('\'', value, '\''),
        r.text() == seq!['\''] + value.text() + seq!['\''],
{
    infix('\'', value, '\'')
}

/// Places a value between `"`.
pub fn quote_double<T: Render>(value: T) -> (r: Infix<T, char, char>)
    ensures
        r.0 == ('"', value, '"'),
        r.text() == seq!['"'] + value.text() + seq!['"'],
{
    infix('"', value, '"')
}

/// Places a value between <code>`</code>.
pub fn quote_backtick<T: Render>(value: T) -> (r: Infix<T, char, char>)
    ensures
        r.0 == ('`', value, '`'),
        r.text() == seq!['`'] + value.text() + seq!['`'],
{
    infix('`', value, '`')
}

/// Places a value between `‘` and `’`.
pub fn quote_curly_single<T: Render>(value: T) -> (r: Infix<T, char, char>)
    ensures
        r.0 == ('‘', value, '’'),
        r.text() == seq!['‘'] + value.text() + seq!['’'],
{
    infix('‘', value, '’')
}

/// Places a value between `“` and `”`.
pub fn quote_curly_double<T: Render>(value: T) -> (r: Infix<T, char, char>)
    ensures
        r.0 == ('“', value, '”'),
        r.text() == seq!['“'] + value.text() + seq!['”'],
{
    infix('“', value, '”')
}

/// Places a value between `‚` and `‘`.
pub fn quote_de_single<T: Render>(value: T) -> (r: Infix<T, char, char>)
    ensures
        r.0 == ('‚', value, '‘'),
        r.text() == seq!['‚'] + value.text() + seq!['‘'],
{
    infix('‚', value, '‘')
}

/// Places a value between `„` and `“`.
pub fn quote_de_double<T: Render>(value: T) -> (r: Infix<T, char, char>)
    ensures
        r.0 == ('„', value, '“'),
        r.text() == seq!['„'] + value.text() + seq!['“'],
{
    infix('„', value, '“')
}

/// Places a value between `‹` and `›`.
pub fn quote_guillemet_single<T: Render>(value: T) -> (r: Infix<T, char, char>)
    ensures
        r.0 == ('‹', value, '›'),
        r.text() == seq!['‹'] + value.text() + seq!['›'],
{
    infix('‹', value, '›')
}

/// Places a value between `«` and `»`.
pub fn quote_guillemet_double<T: Render>(value: T) -> (r: Infix<T, char, char>)
    ensures
        r.0 == ('«', value, '»'),
        r.text() == seq!['«'] + value.text() + seq!['»'],
{
    infix('«', value, '»')
}

/// Places a value between `「` and `」`.
pub fn quote_cjk<T: Render>(value: T) -> (r: Infix<T, char, char>)
    ensures
        r.0 == ('「', value, '」'),
        r.text() == seq!['「'] + value.text() + seq!['」'],
{
    infix('「', value, '」')
}

/// Places a value between `﹁` and `﹂`.
pub fn quote_cjk_vert<T: Render>(value: T) -> (r: Infix<T, char, char>)
    ensures
        r.0 == ('﹁', value, '﹂'),
        r.text() == seq!['﹁'] + value.text() + seq!['﹂'],
{
    infix('﹁', value, '﹂')
}

/// Places a value between `『` and `』`.
pub fn quote_cjk_white<T: Render>(value: T) -> (r: Infix<T, char, char>)
    ensures
        r.0 == ('『', value, '』'),
        r.text() == seq!['『'] + value.text() + seq!['』'],
{
    infix('『', value, '』')
}

/// Places a value between `﹃` and `﹄`.
pub fn quote_cjk_white_vert<T: Render>(value: T) -> (r: Infix<T, char, char>)
    ensures
        r.0 == ('﹃', value, '﹄'),
        r.text() == seq!['﹃'] + value.text() + seq!['﹄'],
{
    infix('﹃', value, '﹄')
}

} // verus!
