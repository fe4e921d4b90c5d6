//! What a run asks of the outside world: the introspection request and the
//! headers sent with it.
use vstd::prelude::*;

verus! {

/// A GraphQL request: the query text and the operation to run in it.
#[derive(Debug, Clone, Copy)]
pub struct GraphqlRequest {
    pub query: &'static str,
    pub operation_name: &'static str,
}

impl GraphqlRequest {
    /// The request that runs the operation `IntrospectionQuery` of `query`.
    pub fn introspection(query: &'static str) -> (r: Self)
        ensures
            r.query == query,
            r.operation_name@ == "IntrospectionQuery"@,
    {
        GraphqlRequest { query, operation_name: "IntrospectionQuery" }
    }
}

/// What std's `str::trim` returns for a string.
pub uninterp spec fn trimmed_of(s: Seq<char>) -> Seq<char>;

/// Relies on std's `str::trim`: the string without leading and trailing
/// whitespace, which depends on the characters alone.
#[verifier::external_body]
fn trim(s: &str) -> (r: String)
    ensures
        r@ == trimmed_of(s@),
{
    s.trim().to_string()
}

/// The position of the first colon in `s`, if there is one.
pub open spec fn first_colon(s: Seq<char>) -> Option<int> {
    if s.contains(':') {
        Some(choose|i: int| 0 <= i < s.len() && s[i] == ':' && forall|j: int| 0 <= j < i ==> s[j] != ':')
    } else {
        None
    }
}

/// A header option `Name: Value`: the trimmed text before the first colon
/// and the trimmed text after it.
pub open spec fn header_spec(s: Seq<char>) -> Option<(Seq<char>, Seq<char>)> {
    match first_colon(s) {
        Some(i) => Some((trimmed_of(s.subrange(0, i)), trimmed_of(s.subrange(i + 1, s.len() as int)))),
        None => None,
    }
}

/// Splits a header option at its first colon; none without a colon.
pub fn parse_header(s: &str) -> (r: Option<(String, String)>)
    ensures
        match header_spec(s@) {
            Some((n, v)) => r matches Some((rn, rv)) && rn@ == n && rv@ == v,
            None => r is None,
        },
{
    let len = s.unicode_len();
    let mut i: usize = 0;
    while i < len
        invariant
            len == s@.len(),
            i <= len,
            forall|j: int| 0 <= j < i ==> s@[j] != ':',
        decreases len - i,
    {
        if s.get_char(i) == ':' {
            let ghost c = first_colon(s@);
            proof {
                assert(s@.contains(':'));
                let k = c->0;
                assert(k == i) by {
                    if k < i {
                        assert(s@[k] != ':');
                    }
                    if k > i {
                        assert(s@[i as int] == ':');
                    }
                }
            }
            let name = trim(s.substring_char(0, i));
            let value = trim(s.substring_char(i + 1, len));
            return Some((name, value));
        }
        i = i + 1;
    }
    None
}

/// The headers of the introspection request, in the order they are given:
/// the user agent first, then each header option; none where an option has
/// no colon. Every pair is returned, repeated names included; a caller that
/// sets them in this order lets a later header replace an earlier one.
pub fn request_headers(user_agent: &str, header_args: &Vec<String>) -> (r: Option<Vec<(String, String)>>)
    ensures
        r is None <==> exists|i: int| 0 <= i < header_args@.len() && header_spec(#[trigger] header_args@[i]@) is None,
        r matches Some(hs) ==> {
            &&& hs@.len() == header_args@.len() + 1
            &&& hs@[0].0@ == "user-agent"@
            &&& hs@[0].1@ == user_agent@
            &&& forall|i: int| 0 <= i < header_args@.len() ==> header_spec(#[trigger] header_args@[i]@) == Some((hs@[i + 1].0@, hs@[i + 1].1@))
        },
{
    let mut hs: Vec<(String, String)> = Vec::new();
    hs.push(("user-agent".to_owned(), user_agent.to_owned()));
    let mut i: usize = 0;
    while i < header_args.len()
        invariant
            i <= header_args@.len(),
            hs@.len() == i + 1,
            hs@[0].0@ == "user-agent"@,
            hs@[0].1@ == user_agent@,
            forall|j: int| 0 <= j < i ==> header_spec(#[trigger] header_args@[j]@) == Some((hs@[j + 1].0@, hs@[j + 1].1@)),
        decreases header_args@.len() - i,
    {
        match parse_header(header_args[i].as_str()) {
            Some(h) => hs.push(h),
            None => return None,
        }
        i = i + 1;
    }
    Some(hs)
}

} // verus!
