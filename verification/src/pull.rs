//! Typed pull-sequences. The physical run-length and dictionary encodings are
//! collaborators that yield plain decoded values; a `Pull` is the reader's
//! resumable cursor over such values: decoders advance it and never re-read.
use vstd::prelude::*;

use crate::error::OrcError;

verus! {

/// A resumable cursor over already-decoded values of one stream.
#[derive(Debug)]
pub struct Pull<T> {
    values: Vec<T>,
    pos: usize,
}

impl<T: Copy> Pull<T> {
    pub closed spec fn wf(&self) -> bool {
        self.pos <= self.values@.len()
    }

    /// The values not yet consumed, in order.
    pub closed spec fn remaining(&self) -> Seq<T> {
        self.values@.skip(self.pos as int)
    }

    pub fn new(values: Vec<T>) -> (r: Self)
        ensures
            r.wf(),
            r.remaining() == values@,
    {
        let r = Pull { values, pos: 0 };
        proof {
            assert(r.remaining() =~= r.values@);
        }
        r
    }

    /// How many values are left.
    pub fn len(&self) -> (r: usize)
        requires
            self.wf(),
        ensures
            r == self.remaining().len(),
    {
        self.values.len() - self.pos
    }

    /// Consumes exactly `n` values. A short stream is a corrupt-file error and
    /// leaves the cursor where it was.
    pub fn take_exact(&mut self, n: usize) -> (r: Result<Vec<T>, OrcError>)
        requires
            old(self).wf(),
        ensures
            final(self).wf(),
            match r {
                Ok(v) => {
                    &&& n <= old(self).remaining().len()
                    &&& v@ == old(self).remaining().take(n as int)
                    &&& final(self).remaining() == old(self).remaining().skip(n as int)
                },
                Err(e) => {
                    &&& old(self).remaining().len() < n
                    &&& e.kind_spec() == crate::error::ErrorKind::Io
                    &&& final(self).remaining() == old(self).remaining()
                },
            },
    {
        let vl: usize = self.values.len();
        if vl - self.pos < n {
            return Err(OrcError::Io);
        }
        let mut out: Vec<T> = Vec::new();
        let mut i: usize = 0;
        while i < n
            invariant
                i <= n,
                vl == self.values@.len(),
                self.pos + n <= vl,
                out@.len() == i,
                self.values@ == old(self).values@,
                self.pos == old(self).pos,
                forall|j: int| 0 <= j < i ==> out@[j] == self.values@[self.pos + j],
            decreases n - i,
        {
            out.push(self.values[self.pos + i]);
            i = i + 1;
        }
        proof {
            assert(out@ =~= old(self).remaining().take(n as int));
        }
        self.pos = self.pos + n;
        proof {
            assert(self.remaining() =~= old(self).remaining().skip(n as int));
        }
        Ok(out)
    }
}

} // verus!
