//! The CONNECT tunnel: an opaque byte relay between a client and an origin,
//! counting what it moves in each direction.
use vstd::prelude::*;
use vstd::utf8::encode_utf8;
use vstd::string::StrSliceExecFns;
use vstd::string::StringExecFns;
use crate::bytes::copy_bytes;
use crate::headers::{decimal_value, parse_decimal};

verus! {

/// Counts the bytes moved in one direction of a tunnel.
pub struct ByteCounter {
    total: u64,
    moved: Ghost<Seq<u8>>,
}

impl View for ByteCounter {
    type V = Seq<u8>;

    /// Every byte moved so far, in order.
    closed spec fn view(&self) -> Seq<u8> {
        self.moved@
    }
}

impl ByteCounter {
    /// The count agrees with the bytes moved.
    pub closed spec fn wf(&self) -> bool {
        self.total == self.moved@.len()
    }

    /// A counter that has moved nothing.
    pub fn new() -> (r: ByteCounter)
        ensures
            r.wf(),
            r@ == Seq::<u8>::empty(),
    {
        ByteCounter { total: 0, moved: Ghost(Seq::empty()) }
    }

    /// The number of bytes moved so far.
    pub fn total(&self) -> (r: u64)
        requires
            self.wf(),
        ensures
            r == self@.len(),
    {
        self.total
    }

    /// Passes one chunk through unchanged and counts it.
    pub fn pass(&mut self, chunk: &[u8]) -> (r: Vec<u8>)
        requires
            old(self).wf(),
            old(self)@.len() + chunk@.len() <= u64::MAX,
        ensures
            final(self).wf(),
            final(self)@ == old(self)@ + chunk@,
            r@ == chunk@,
    {
        let out = copy_bytes(chunk);
        self.total = self.total + chunk.len() as u64;
        self.moved = Ghost(self.moved@ + chunk@);
        out
    }
}

/// A tunnel's two directions.
pub struct TunnelSession {
    pub client_to_origin: ByteCounter,
    pub origin_to_client: ByteCounter,
}

impl TunnelSession {
    /// Both counters agree with what they moved.
    pub open spec fn wf(&self) -> bool {
        self.client_to_origin.wf() && self.origin_to_client.wf()
    }

    /// A session that has moved nothing.
    pub fn new() -> (r: TunnelSession)
        ensures
            r.wf(),
            r.client_to_origin@ == Seq::<u8>::empty(),
            r.origin_to_client@ == Seq::<u8>::empty(),
    {
        TunnelSession { client_to_origin: ByteCounter::new(), origin_to_client: ByteCounter::new() }
    }
}

/// The index of the last `:` in `t`, or -1 when there is none.
pub open spec fn last_colon(t: Seq<char>) -> int
    decreases t.len(),
{
    if t.len() == 0 {
        -1
    } else if t.last() == ':' {
        t.len() - 1
    } else {
        last_colon(t.drop_last())
    }
}

/// The host and port of a `host:port` authority: the port follows the last
/// colon and is a decimal number up to 65535, and the host is not empty.
pub open spec fn authority_of(t: Seq<char>) -> Option<(Seq<char>, u16)> {
    let i = last_colon(t);
    if i <= 0 {
        None
    } else {
        match decimal_value(t.subrange(i + 1, t.len() as int)) {
            Some(n) => if n <= 65535 {
                Some((t.subrange(0, i), n as u16))
            } else {
                None
            },
            None => None,
        }
    }
}

/// Splits a CONNECT target into the host and port to connect to.
pub fn split_authority(target: &str) -> (r: Option<(String, u16)>)
    ensures
        match r {
            Some((h, p)) => authority_of(target@) == Some((h@, p)),
            None => authority_of(target@) is None,
        },
{
    let n = target.unicode_len();
    let mut i: usize = n;
    assert(target@.take(n as int) =~= target@);
    while i > 0 && target.get_char(i - 1) != ':'
        invariant
            i <= n,
            n == target@.len(),
            last_colon(target@) == last_colon(target@.take(i as int)),
        decreases i,
    {
        assert(target@.take(i as int).drop_last() =~= target@.take(i - 1));
        i -= 1;
    }
    proof {
        if i > 0 {
            assert(target@.take(i as int).last() == ':');
        }
    }
    if i <= 1 {
        return None;
    }
    let port = match parse_decimal(target.substring_char(i, n)) {
        Some(p) => p,
        None => return None,
    };
    if port > 65535 {
        return None;
    }
    let host = target.substring_char(0, i - 1).to_owned();
    Some((host, port as u16))
}

/// The reply written to the client once the origin connection is open.
pub fn connection_established() -> (r: Vec<u8>)
    ensures
        r@ == encode_utf8("HTTP/1.1 200 Connection Established\r\n\r\n"@),
{
    let s = "HTTP/1.1 200 Connection Established\r\n\r\n";
    copy_bytes(s.as_bytes())
}

} // verus!
