use vstd::prelude::*;

use crate::concat::ConcatTuple;
use crate::render::Render;

verus! {

/// Renders nothing.
pub type NoOp = ConcatTuple<()>;

/// Writes nothing.
pub fn no_op() -> (r: NoOp)
    ensures
        r == ConcatTuple(()),
        r.text() == Seq::<char>::empty(),
{
    ConcatTuple(())
}

/// Writes nothing; the same as [`no_op`].
pub fn noop() -> (r: NoOp)
    ensures
        r == ConcatTuple(()),
        r.text() == Seq::<char>::empty(),
{
    no_op()
}

} // verus!
