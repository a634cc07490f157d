//! Requests and resource paths.
//!
//! A request carries raw body bytes, a query string, a slash-separated
//! path and a method. The first path segment names the backend; the rest
//! is the backend's own path. Resource-bearing backends address a secret
//! by a three-segment path `repository/type/tag`.

use vstd::prelude::*;
use vstd::string::StrSliceExecFns;

verus! {

/// The method of a request: read a resource or write one.
#[derive(Clone, Copy, Debug, PartialEq, Eq, Structural)]
pub enum Method {
    Get,
    Post,
}

/// One resource request as the transport hands it to the broker.
pub struct Request {
    pub body: Vec<u8>,
    pub query: String,
    pub path: String,
    pub method: Method,
}

/// Mathematical image of a [`Request`].
#[verifier::ext_equal]
pub struct RequestView {
    pub body: Seq<u8>,
    pub query: Seq<char>,
    pub path: Seq<char>,
    pub method: Method,
}

impl View for Request {
    type V = RequestView;

    open spec fn view(&self) -> RequestView {
        RequestView { body: self.body@, query: self.query@, path: self.path@, method: self.method }
    }
}

/// A three-segment hierarchical resource identifier.
pub struct ResourcePath {
    pub repository: String,
    pub kind: String,
    pub tag: String,
}

/// Mathematical image of a [`ResourcePath`].
#[verifier::ext_equal]
pub struct ResourcePathView {
    pub repository: Seq<char>,
    pub kind: Seq<char>,
    pub tag: Seq<char>,
}

impl View for ResourcePath {
    type V = ResourcePathView;

    open spec fn view(&self) -> ResourcePathView {
        ResourcePathView { repository: self.repository@, kind: self.kind@, tag: self.tag@ }
    }
}

/// Splits a path at its first slash: `Some((before, after))`, or `None`
/// for a path without a slash.
pub open spec fn spec_split_first_slash(s: Seq<char>) -> Option<(Seq<char>, Seq<char>)>
    decreases s.len(),
{
    if s.len() == 0 {
        None
    } else if s[0] == '/' {
        Some((Seq::empty(), s.drop_first()))
    } else {
        match spec_split_first_slash(s.drop_first()) {
            None => None,
            Some(p) => Some((seq![s[0]] + p.0, p.1)),
        }
    }
}

/// What [`spec_split_first_slash`] returns once the scan has passed `i`
/// slash-free characters: the split at `i` if `s[i]` is the first slash,
/// `None` if the whole path is slash-free.
pub proof fn lemma_split_first_slash_at(s: Seq<char>, i: int)
    requires
        0 <= i <= s.len(),
        forall|j: int| 0 <= j < i ==> s[j] != '/',
        i < s.len() ==> s[i] == '/',
    ensures
        i == s.len() ==> spec_split_first_slash(s) is None,
        i < s.len() ==> spec_split_first_slash(s) == Some((s.take(i), s.skip(i + 1))),
    decreases s.len(),
{
    if s.len() == 0 {
    } else if s[0] == '/' {
        assert(i == 0);
        assert(s.take(0) =~= Seq::<char>::empty());
        assert(s.skip(1) =~= s.drop_first());
    } else {
        assert(i >= 1);
        lemma_split_first_slash_at(s.drop_first(), i - 1);
        if i == s.len() {
        } else {
            assert(s.drop_first().take(i - 1) =~= s.take(i).drop_first());
            assert(seq![s[0]] + s.take(i).drop_first() =~= s.take(i));
            assert(s.drop_first().skip(i) =~= s.skip(i + 1));
        }
    }
}

/// Splits `s` at its first slash, as [`spec_split_first_slash`] says.
pub fn split_first_slash(s: &str) -> (r: Option<(String, String)>)
    ensures
        match r {
            Some(p) => spec_split_first_slash(s@) == Some((p.0@, p.1@)),
            None => spec_split_first_slash(s@) is None,
        },
{
    let n = s.unicode_len();
    for i in 0..n
        invariant
            n == s@.len(),
            forall|j: int| 0 <= j < i ==> s@[j] != '/',
    {
        if s.get_char(i) == '/' {
            let before = s.substring_char(0, i).to_owned();
            let after = s.substring_char(i + 1, n).to_owned();
            proof {
                lemma_split_first_slash_at(s@, i as int);
            }
            return Some((before, after));
        }
    }
    proof {
        lemma_split_first_slash_at(s@, n as int);
    }
    None
}

/// Whether `s` contains a slash.
pub fn contains_slash(s: &str) -> (r: bool)
    ensures
        r == s@.contains('/'),
{
    let n = s.unicode_len();
    for i in 0..n
        invariant
            n == s@.len(),
            forall|j: int| 0 <= j < i ==> s@[j] != '/',
    {
        if s.get_char(i) == '/' {
            return true;
        }
    }
    false
}

/// Parses a backend path into its three-segment resource identifier:
/// `Some` iff the path consists of exactly three slash-separated,
/// non-empty segments.
pub open spec fn spec_parse_resource_path(s: Seq<char>) -> Option<ResourcePathView> {
    match spec_split_first_slash(s) {
        None => None,
        Some(first) => match spec_split_first_slash(first.1) {
            None => None,
            Some(second) => if first.0.len() > 0 && second.0.len() > 0 && second.1.len() > 0
                && !second.1.contains('/') {
                Some(
                    ResourcePathView {
                        repository: first.0,
                        kind: second.0,
                        tag: second.1,
                    },
                )
            } else {
                None
            },
        },
    }
}

/// Parses a backend path, as [`spec_parse_resource_path`] says.
pub fn parse_resource_path(s: &str) -> (r: Option<ResourcePath>)
    ensures
        match r {
            Some(p) => spec_parse_resource_path(s@) == Some(p@),
            None => spec_parse_resource_path(s@) is None,
        },
{
    match split_first_slash(s) {
        None => None,
        Some((repository, rest)) => match split_first_slash(rest.as_str()) {
            None => None,
            Some((kind, tag)) => {
                if repository.as_str().unicode_len() > 0 && kind.as_str().unicode_len() > 0
                    && tag.as_str().unicode_len() > 0 && !contains_slash(tag.as_str()) {
                    Some(ResourcePath { repository, kind, tag })
                } else {
                    None
                }
            },
        },
    }
}

} // verus!
