use vstd::prelude::*;

verus! {

/// What a reader of a streaming source does after handing a chunk to an
/// [`ExactFill`].
#[derive(Clone, Copy, Debug, PartialEq, Eq, Structural)]
pub enum FillStep {
    /// Read again, asking for at most this many bytes.
    NeedMore(usize),
    /// All requested bytes are gathered.
    Done,
    /// The source delivered nothing before the request was met: it is at
    /// its end.
    Exhausted,
}

/// Gathers exactly a requested number of bytes from a source whose reads
/// may deliver fewer bytes than asked for. A short read is followed by
/// another; only a read that delivers nothing ends the request early.
pub struct ExactFill {
    want: usize,
    got: Vec<u8>,
}

impl ExactFill {
    /// Number of bytes requested.
    pub closed spec fn want(&self) -> nat {
        self.want as nat
    }

    /// The bytes gathered so far, in the order read.
    pub closed spec fn got(&self) -> Seq<u8> {
        self.got@
    }

    pub open spec fn wf(&self) -> bool {
        self.got().len() <= self.want()
    }

    /// A request for `want` bytes, none gathered yet.
    pub fn new(want: usize) -> (r: ExactFill)
        ensures
            r.wf(),
            r.want() == want,
            r.got() == Seq::<u8>::empty(),
    {
        ExactFill { want, got: Vec::new() }
    }

    /// How many bytes are still missing.
    pub fn missing(&self) -> (r: usize)
        requires
            self.wf(),
        ensures
            r == self.want() - self.got().len(),
    {
        self.want - self.got.len()
    }

    /// Takes the bytes of one read, at most as many as are missing, and
    /// says what to do next.
    pub fn on_read(&mut self, chunk: &[u8]) -> (r: FillStep)
        requires
            old(self).wf(),
            old(self).got().len() < old(self).want(),
            chunk@.len() <= old(self).want() - old(self).got().len(),
        ensures
            final(self).wf(),
            final(self).want() == old(self).want(),
            final(self).got() == old(self).got() + chunk@,
            chunk@.len() == 0 ==> r == FillStep::Exhausted,
            chunk@.len() > 0 && final(self).got().len() == final(self).want() ==> r
                == FillStep::Done,
            chunk@.len() > 0 && final(self).got().len() < final(self).want() ==> r
                == FillStep::NeedMore((final(self).want() - final(self).got().len()) as usize),
    {
        if chunk.len() == 0 {
            assert(old(self).got() + chunk@ =~= old(self).got());
            return FillStep::Exhausted;
        }
        let ghost before = self.got@;
        let mut i: usize = 0;
        while i < chunk.len()
            invariant
                i <= chunk@.len(),
                self.want == old(self).want,
                before == old(self).got(),
                self.got@ == before + chunk@.subrange(0, i as int),
            decreases chunk@.len() - i,
        {
            self.got.push(chunk[i]);
            i = i + 1;
            assert(self.got@ =~= before + chunk@.subrange(0, i as int));
        }
        assert(chunk@.subrange(0, chunk@.len() as int) =~= chunk@);
        let missing = self.want - self.got.len();
        if missing == 0 {
            FillStep::Done
        } else {
            FillStep::NeedMore(missing)
        }
    }

    /// The gathered bytes.
    pub fn into_bytes(self) -> (r: Vec<u8>)
        ensures
            r@ == self.got(),
    {
        self.got
    }
}

} // verus!
