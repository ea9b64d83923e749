//! Locating and accumulating the head of a raw HTTP request.
use vstd::prelude::*;

verus! {

/// The largest request head, in bytes, that the ingress accumulates.
pub const MAX_HEAD_SIZE: usize = 65536;

/// The blank line that ends a request head.
pub open spec fn is_terminator_at(b: Seq<u8>, i: int) -> bool {
    0 <= i && i + 4 <= b.len() && b[i] == 13u8 && b[i + 1] == 10u8 && b[i + 2] == 13u8 && b[i
        + 3] == 10u8
}

/// Whether `b` holds no terminator starting before `end`.
pub open spec fn no_terminator_before(b: Seq<u8>, end: int) -> bool {
    forall|j: int| 0 <= j < end ==> !is_terminator_at(b, j)
}

/// Returns the index of the first byte after the first `\r\n\r\n`, that is,
/// where the body of a request begins.
pub fn find_body_start(buffer: &[u8]) -> (r: Option<usize>)
    ensures
        match r {
            Some(k) => k >= 4 && is_terminator_at(buffer@, k - 4) && no_terminator_before(
                buffer@,
                k - 4,
            ),
            None => forall|j: int| !is_terminator_at(buffer@, j),
        },
{
    if buffer.len() < 4 {
        return None;
    }
    let mut i: usize = 0;
    while i < buffer.len() - 3
        invariant
            buffer@.len() >= 4,
            i <= buffer@.len() - 3,
            no_terminator_before(buffer@, i as int),
        decreases buffer@.len() - i,
    {
        if buffer[i] == 13u8 && buffer[i + 1] == 10u8 && buffer[i + 2] == 13u8 && buffer[i + 3]
            == 10u8 {
            return Some(i + 4);
        }
        i += 1;
    }
    None
}

/// Where the accumulation of a request head stands.
#[derive(Clone, Copy, Debug, PartialEq, Eq, Structural)]
pub enum HeadProgress {
    /// No blank line yet; more bytes are needed.
    AwaitingHead,
    /// The head is complete; the body begins at this offset.
    HaveHead(usize),
    /// The head exceeds the ceiling; the connection is to be closed.
    TooLarge,
}

/// The progress that a buffer holding `b` has made, with ceiling `limit`.
pub open spec fn progress_of(b: Seq<u8>, limit: usize) -> HeadProgress {
    if exists|i: int| is_terminator_at(b, i) {
        let i = choose|i: int| is_terminator_at(b, i) && no_terminator_before(b, i);
        if i + 4 <= limit {
            HeadProgress::HaveHead((i + 4) as usize)
        } else {
            HeadProgress::TooLarge
        }
    } else if b.len() > limit {
        HeadProgress::TooLarge
    } else {
        HeadProgress::AwaitingHead
    }
}

/// The bytes of a connection read so far, up to the end of the head.
pub struct HeadBuffer {
    /// Everything read so far.
    pub bytes: Vec<u8>,
    /// The largest head accepted, in bytes.
    pub limit: usize,
}

impl HeadBuffer {
    /// An empty buffer with the given ceiling.
    pub fn new(limit: usize) -> (r: HeadBuffer)
        ensures
            r.bytes@.len() == 0,
            r.limit == limit,
    {
        HeadBuffer { bytes: Vec::new(), limit }
    }

    /// Appends the bytes of one read and reports whether the head is now
    /// complete, still awaited, or over the ceiling.
    pub fn push(&mut self, chunk: &[u8]) -> (r: HeadProgress)
        requires
            old(self).bytes@.len() + chunk@.len() <= usize::MAX,
        ensures
            final(self).bytes@ == old(self).bytes@ + chunk@,
            final(self).limit == old(self).limit,
            r == progress_of(final(self).bytes@, final(self).limit),
    {
        let mut i: usize = 0;
        let ghost start = self.bytes@;
        while i < chunk.len()
            invariant
                i <= chunk@.len(),
                self.bytes@ == start + chunk@.take(i as int),
                self.limit == old(self).limit,
                start == old(self).bytes@,
            decreases chunk@.len() - i,
        {
            self.bytes.push(chunk[i]);
            assert(start + chunk@.take(i + 1) =~= (start + chunk@.take(i as int)).push(chunk@[i as int]));
            i += 1;
        }
        assert(chunk@.take(chunk@.len() as int) =~= chunk@);
        let b = self.bytes.as_slice();
        match find_body_start(b) {
            Some(k) => {
                proof {
                    let i = choose|i: int| is_terminator_at(b@, i) && no_terminator_before(b@, i);
                    if i < k - 4 {
                        assert(!is_terminator_at(b@, i));
                    }
                    if k - 4 < i {
                        assert(!is_terminator_at(b@, k - 4));
                    }
                }
                if k <= self.limit {
                    HeadProgress::HaveHead(k)
                } else {
                    HeadProgress::TooLarge
                }
            },
            None => if self.bytes.len() > self.limit {
                HeadProgress::TooLarge
            } else {
                HeadProgress::AwaitingHead
            },
        }
    }
}

} // verus!
