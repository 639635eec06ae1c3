use vstd::prelude::*;

verus! {

/// The one failure a sink can report. It carries nothing: the library passes it
/// on unchanged and never looks inside.
#[derive(Clone, Copy, Debug, PartialEq, Eq, Structural)]
pub struct WriteError;

/// A destination that receives text in fragments.
pub trait Sink {
    /// Every character this sink has accepted so far.
    spec fn written(&self) -> Seq<char>;

    /// The sink's internal consistency.
    spec fn wf(&self) -> bool;

    /// `later` is this same sink after further writes.
    spec fn evolves(&self, later: &Self) -> bool;

    /// A reliable sink accepts every write.
    spec fn reliable(&self) -> bool;

    proof fn lemma_evolves_refl(&self)
        ensures
            self.evolves(self),
    ;

    proof fn lemma_evolves_trans(&self, b: &Self, c: &Self)
        requires
            self.evolves(b),
            b.evolves(c),
        ensures
            self.evolves(c),
    ;

    proof fn lemma_evolves_reliable(&self, later: &Self)
        requires
            self.evolves(later),
            self.reliable(),
        ensures
            later.reliable(),
    ;

    fn write_str(&mut self, s: &str) -> (r: Result<(), WriteError>)
        requires
            old(self).wf(),
        ensures
            final(self).wf(),
            old(self).evolves(&*final(self)),
            old(self).reliable() ==> r is Ok,
            r is Ok ==> final(self).written() == old(self).written() + s@,
    ;

    fn write_char(&mut self, c: char) -> (r: Result<(), WriteError>)
        requires
            old(self).wf(),
        ensures
            final(self).wf(),
            old(self).evolves(&*final(self)),
            old(self).reliable() ==> r is Ok,
            r is Ok ==> final(self).written() == old(self).written().push(c),
    ;
}

/// Relies on String::push: the character is appended.
#[verifier::external_body]
fn push_char(s: &mut String, c: char)
    ensures
        final(s)@ == old(s)@.push(c),
{
    s.push(c)
}

/// A `String` collects everything written to it and never fails.
impl Sink for String {
    open spec fn written(&self) -> Seq<char> {
        self@
    }

    open spec fn wf(&self) -> bool {
        true
    }

    open spec fn evolves(&self, later: &Self) -> bool {
        true
    }

    open spec fn reliable(&self) -> bool {
        true
    }

    proof fn lemma_evolves_refl(&self) {
    }

    proof fn lemma_evolves_trans(&self, b: &Self, c: &Self) {
    }

    proof fn lemma_evolves_reliable(&self, later: &Self) {
    }

    fn write_str(&mut self, s: &str) -> (r: Result<(), WriteError>) {
        self.append(s);
        Ok(())
    }

    fn write_char(&mut self, c: char) -> (r: Result<(), WriteError>) {
        push_char(self, c);
        Ok(())
    }
}

/// A sink that holds at most `capacity` characters: a write that would go past
/// it fails and leaves the sink as it was.
pub struct BoundedSink {
    pub buf: String,
    pub capacity: usize,
}

impl BoundedSink {
    pub fn new(capacity: usize) -> (r: BoundedSink)
        ensures
            r.buf@ == Seq::<char>::empty(),
            r.capacity == capacity,
    {
        BoundedSink { buf: String::new(), capacity }
    }

    /// The characters accepted so far.
    pub fn as_str(&self) -> (r: &str)
        ensures
            r@ == self.buf@,
    {
        self.buf.as_str()
    }
}

impl Sink for BoundedSink {
    open spec fn written(&self) -> Seq<char> {
        self.buf@
    }

    open spec fn wf(&self) -> bool {
        self.buf@.len() <= self.capacity
    }

    open spec fn evolves(&self, later: &Self) -> bool {
        later.capacity == self.capacity
    }

    open spec fn reliable(&self) -> bool {
        false
    }

    proof fn lemma_evolves_refl(&self) {
    }

    proof fn lemma_evolves_trans(&self, b: &Self, c: &Self) {
    }

    proof fn lemma_evolves_reliable(&self, later: &Self) {
    }

    fn write_str(&mut self, s: &str) -> (r: Result<(), WriteError>) {
        let n = s.unicode_len();
        let room = self.capacity - self.buf.as_str().unicode_len();
        if n <= room {
            self.buf.append(s);
            Ok(())
        } else {
            Err(WriteError)
        }
    }

    fn write_char(&mut self, c: char) -> (r: Result<(), WriteError>) {
        if self.buf.as_str().unicode_len() < self.capacity {
            push_char(&mut self.buf, c);
            Ok(())
        } else {
            Err(WriteError)
        }
    }
}

} // verus!
