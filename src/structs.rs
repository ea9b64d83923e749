//! The values that cross the boundary between the ingress and the relay.
use vstd::prelude::*;

verus! {

/// The port the relay listens on unless told otherwise.
pub const DEFAULT_RELAY_PORT: u16 = 3030;

/// Command-line settings of the relay.
pub struct Cli {
    /// Port number for the relay server.
    pub port: u16,
}

impl Default for Cli {
    fn default() -> (r: Cli)
        ensures
            r.port == DEFAULT_RELAY_PORT,
    {
        Cli { port: DEFAULT_RELAY_PORT }
    }
}

/// A request envelope in wire form: each field as it travels in the query
/// string of the relay's `/proxy` route.
pub struct ProxyRequest {
    /// Base64 of the absolute target URL.
    pub target: String,
    /// The method, as a plain token.
    pub method: String,
    /// Base64 of a JSON object mapping header names to values.
    pub headers: String,
    /// Base64 of the raw request body; absent means empty.
    pub body: Option<String>,
}

/// A response envelope in wire form, as the relay sends it back as JSON.
pub struct ProxyResponse {
    /// HTTP status code.
    pub status: u16,
    /// Response headers; a later entry for a name replaces an earlier one.
    pub headers: Vec<(String, String)>,
    /// Base64 of the raw, identity-encoded response body.
    pub body: String,
}

/// The view of a header list: each name and value as characters.
pub open spec fn pairs_of(v: Seq<(String, String)>) -> Seq<(Seq<char>, Seq<char>)> {
    v.map_values(|p: (String, String)| (p.0@, p.1@))
}

/// The mapping a header list denotes: a later entry for a name wins.
pub open spec fn header_map(s: Seq<(Seq<char>, Seq<char>)>) -> Map<Seq<char>, Seq<char>>
    decreases s.len(),
{
    if s.len() == 0 {
        Map::empty()
    } else {
        header_map(s.drop_last()).insert(s.last().0, s.last().1)
    }
}

/// No two entries of the list share a name.
pub open spec fn keys_unique(s: Seq<(Seq<char>, Seq<char>)>) -> bool {
    forall|i: int, j: int| 0 <= i < s.len() && 0 <= j < s.len() && i != j ==> s[i].0 != s[j].0
}

} // verus!
