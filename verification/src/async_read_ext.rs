//! Filling a buffer from a reader.

use vstd::prelude::*;

verus! {

/// A buffer that is being filled.
pub struct TryFill {
    len: usize,
    num_read: usize,
}

/// What filling the buffer needs next.
#[derive(Clone, Copy, Debug, PartialEq, Eq, Structural)]
pub enum Fill {
    /// Read into the bytes of the buffer from the given position on.
    Read { from: usize },
    /// It is full, or the reader has come to its end. As many bytes of it were
    /// read.
    Done { num_read: usize },
}

impl TryFill {
    /// The number of bytes of the buffer.
    pub closed spec fn len(self) -> nat {
        self.len as nat
    }

    /// The number of bytes that were read.
    pub closed spec fn num_read(self) -> nat {
        self.num_read as nat
    }

    #[verifier::type_invariant]
    spec fn is_within_buffer(self) -> bool {
        self.num_read <= self.len
    }

    /// Starts to fill a buffer with the given number of bytes.
    pub fn new(len: usize) -> (fill: Self)
        ensures
            fill.len() == len,
            fill.num_read() == 0,
    {
        TryFill { len, num_read: 0 }
    }

    /// Decides what filling the buffer needs next.
    pub fn next(&self) -> (next: Fill)
        ensures
            next == if self.num_read() < self.len() {
                Fill::Read { from: self.num_read() as usize }
            } else {
                Fill::Done { num_read: self.len() as usize }
            },
    {
        proof {
            use_type_invariant(self);
        }
        if self.num_read < self.len {
            Fill::Read { from: self.num_read }
        } else {
            Fill::Done { num_read: self.num_read }
        }
    }

    /// Takes the number of bytes that a read gave, or why it failed, and decides
    /// what filling the buffer needs next. A read that gives none is at the end.
    pub fn on_read(&mut self, read: Result<usize, String>) -> (next: Result<Fill, String>)
        requires
            read matches Ok(n) ==> old(self).num_read() + n <= old(self).len(),
        ensures
            final(self).len() == old(self).len(),
            match read {
                Ok(n) => {
                    &&& final(self).num_read() == old(self).num_read() + n
                    &&& next == Ok::<Fill, String>(
                        if n == 0 || final(self).num_read() == final(self).len() {
                            Fill::Done { num_read: final(self).num_read() as usize }
                        } else {
                            Fill::Read { from: final(self).num_read() as usize }
                        },
                    )
                },
                Err(error) => final(self).num_read() == old(self).num_read() && next == Err::<
                    Fill,
                    String,
                >(error),
            },
    {
        proof {
            use_type_invariant(&*self);
        }
        let n: usize = match read {
            Ok(n) => n,
            Err(error) => return Err(error),
        };
        if n == 0 {
            return Ok(Fill::Done { num_read: self.num_read });
        }
        self.num_read = self.num_read + n;
        Ok(self.next())
    }
}

/// What a reader gives in the reads with which a buffer is filled, and how many
/// bytes it has left: each read gives at most what was asked for, and gives
/// nothing only at the end.
pub open spec fn honest_reads(reads: Seq<nat>, len: nat, left: nat) -> bool
    decreases reads.len(),
{
    reads.len() > 0 ==> {
        &&& reads[0] <= len
        &&& reads[0] <= left
        &&& reads[0] == 0 <==> left == 0 || len == 0
        &&& honest_reads(reads.drop_first(), (len - reads[0]) as nat, (left - reads[0]) as nat)
    }
}

/// The number of bytes that a sequence of reads gives.
pub open spec fn total(reads: Seq<nat>) -> nat
    decreases reads.len(),
{
    if reads.len() == 0 {
        0
    } else {
        reads[0] + total(reads.drop_first())
    }
}

/// However the reader deals out its bytes, when filling the buffer is done, the
/// buffer holds as many of them as it has room for, or all that there were.
pub proof fn law_buffer_is_filled(reads: Seq<nat>, len: nat, left: nat)
    requires
        honest_reads(reads, len, left),
        total(reads) == len || reads.len() > 0 && reads.last() == 0,
    ensures
        total(reads) == if left < len {
            left
        } else {
            len
        },
    decreases reads.len(),
{
    if reads.len() > 0 {
        let rest = reads.drop_first();
        if reads[0] > 0 {
            assert(rest.len() > 0 ==> rest.last() == reads.last());
            law_buffer_is_filled(rest, (len - reads[0]) as nat, (left - reads[0]) as nat);
        } else {
            lemma_nothing_left(rest, len, left);
        }
    }
}

/// At the end of the reader, or of the buffer, nothing more is read.
proof fn lemma_nothing_left(reads: Seq<nat>, len: nat, left: nat)
    requires
        honest_reads(reads, len, left),
        len == 0 || left == 0,
    ensures
        total(reads) == 0,
    decreases reads.len(),
{
    if reads.len() > 0 {
        lemma_nothing_left(reads.drop_first(), len, left);
    }
}

} // verus!
