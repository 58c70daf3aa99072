//! The middleware that reads the requested path and names the controller for it.
use vstd::prelude::*;
use vstd::string::*;
use crate::external::{uri_path, uri_path_of, regex_replace, replace_suffix, is_literal_suffix_pattern, no_group_reference};
use crate::mvc::middleware::Middleware;
use crate::mvc::request::{Request, RequestView};
use crate::text::{first_match, is_first_match, lemma_first_match};

verus! {

/// A slash.
pub open spec fn is_slash() -> spec_fn(char) -> bool {
    |c: char| c == '/'
}

/// The second of the parts that the slashes of `p` cut it into: the text between its first
/// slash and the next one (or the end); `None` where `p` has no slash.
pub open spec fn second_segment(p: Seq<char>) -> Option<Seq<char>> {
    match first_match(p, is_slash()) {
        None => None,
        Some(i) => {
            let rest = p.subrange(i + 1, p.len() as int);
            Some(match first_match(rest, is_slash()) {
                None => rest,
                Some(j) => rest.subrange(0, j),
            })
        },
    }
}

/// A controller's name without the `Controller` that may end it.
pub open spec fn controller_base(name: Seq<char>) -> Seq<char> {
    replace_suffix(name, "Controller"@, Seq::empty())
}

/// The header once the path and the controller it names are recorded in it.
pub open spec fn routed_header(header: Map<Seq<char>, Seq<char>>, path: Seq<char>) -> Map<Seq<char>, Seq<char>> {
    let name = second_segment(path)->0;
    header.insert("path"@, path).insert("controller_name"@, name).insert(
        "controller_name_without_prefix"@,
        controller_base(name),
    )
}

/// The request after the path filter, or the error with which it refuses the request, given
/// what the URI in the `req_path` header parses to (`uri_path_of`).
pub open spec fn spec_filter(req: RequestView) -> Result<RequestView, Seq<char>> {
    if !req.header.contains_key("req_path"@) {
        Err("req_path_is_empty"@)
    } else {
        match uri_path_of(req.header["req_path"@]) {
            None => Err("req_path_not_uri"@),
            Some(p) => if second_segment(p) is None {
                Err("req_path_has_no_segment"@)
            } else {
                Ok(RequestView { header: routed_header(req.header, p), ..req })
            },
        }
    }
}

/// The first slash in `s` at or after `from`, or the length of `s` where there is none.
fn next_slash(s: &str, from: usize) -> (r: usize)
    requires
        from <= s@.len(),
    ensures
        from <= r <= s@.len(),
        forall|j: int| from <= j < r ==> s@[j] != '/',
        r < s@.len() ==> s@[r as int] == '/',
{
    let n = s.unicode_len();
    let mut i = from;
    while i < n
        invariant
            from <= i <= n,
            n == s@.len(),
            forall|j: int| from <= j < i ==> s@[j] != '/',
        decreases n - i,
    {
        if s.get_char(i) == '/' {
            return i;
        }
        i += 1;
    }
    i
}

/// The second part of `p` cut at its slashes, if it has a slash.
pub fn second_segment_of(p: &str) -> (r: Option<String>)
    ensures
        match r {
            Some(s) => second_segment(p@) == Some(s@),
            None => second_segment(p@) is None,
        },
{
    let ghost sl = is_slash();
    proof { lemma_first_match(p@, sl); }
    let n = p.unicode_len();
    let i = next_slash(p, 0);
    if i == n {
        return None;
    }
    assert(is_first_match(p@, sl, i as int));
    let j = next_slash(p, i + 1);
    let ghost rest = p@.subrange(i + 1, p@.len() as int);
    proof {
        lemma_first_match(rest, sl);
        if j < n {
            assert(is_first_match(rest, sl, j - i - 1));
        } else {
            assert forall|k: int| 0 <= k < rest.len() implies !sl(#[trigger] rest[k]) by {
                assert(rest[k] == p@[k + i + 1]);
            }
        }
    }
    let seg = p.substring_char(i + 1, j);
    assert(seg@ =~= if j < n { rest.subrange(0, j - i - 1) } else { rest });
    Some(seg.to_owned())
}

/// The middleware that reads the requested path.
#[derive(Debug)]
pub struct PathFilter;

impl PathFilter {
    pub fn new() -> (r: PathFilter)
        ensures
            r == PathFilter,
    {
        PathFilter {}
    }

    /// Records in the request the path `path`, which has a slash, the controller name that
    /// follows its first slash, and that name without a `Controller` that ends it.
    pub fn apply_path(request: &mut Request, path: &str)
        requires
            second_segment(path@) is Some,
        ensures
            final(request)@ == (RequestView { header: routed_header(old(request)@.header, path@), ..old(request)@ }),
    {
        let name = match second_segment_of(path) {
            Some(s) => s,
            None => return,
        };
        request.header.insert("path".to_owned(), path.to_owned());
        request.header.insert("controller_name".to_owned(), name.clone());
        proof {
            reveal_strlit("Controller$");
            reveal_strlit("Controller");
            reveal_strlit("");
            assert("Controller$"@.drop_last() =~= "Controller"@);
            assert(is_literal_suffix_pattern("Controller$"@));
            assert(no_group_reference(""@));
        }
        let base = match regex_replace("Controller$", name.as_str(), "") {
            Some(b) => b,
            None => return,
        };
        request.header.insert("controller_name_without_prefix".to_owned(), base);
    }
}

impl Middleware for PathFilter {
    /// Reads the URI in the `req_path` header and records its path and the controller it names;
    /// refuses a request without that header, with a header that is no URI, or whose path has
    /// no slash to find the controller name after.
    fn execute(&self, request: &mut Request) -> (r: Result<(), String>)
        ensures
            match spec_filter(old(request)@) {
                Ok(v) => r is Ok && final(request)@ == v,
                Err(m) => r matches Err(e) && e@ == m && final(request)@ == old(request)@,
            },
    {
        let path = match request.header.get("req_path") {
            Some(req_path) => match uri_path(req_path.as_str()) {
                Some(p) => p,
                None => return Err("req_path_not_uri".to_owned()),
            },
            None => return Err("req_path_is_empty".to_owned()),
        };
        if second_segment_of(path.as_str()).is_none() {
            return Err("req_path_has_no_segment".to_owned());
        }
        PathFilter::apply_path(request, path.as_str());
        Ok(())
    }
}

/// Running the path filter again on a request it accepted changes nothing more: it accepts it
/// again and leaves it as the first run left it.
pub proof fn lemma_filter_idempotent(req: RequestView)
    requires
        spec_filter(req) is Ok,
    ensures
        spec_filter(spec_filter(req)->Ok_0) == spec_filter(req),
{
    let once = spec_filter(req)->Ok_0;
    let p = uri_path_of(req.header["req_path"@])->0;
    reveal_strlit("req_path");
    reveal_strlit("path");
    reveal_strlit("controller_name");
    reveal_strlit("controller_name_without_prefix");
    assert("req_path"@.len() != "path"@.len());
    assert("req_path"@.len() != "controller_name"@.len());
    assert("req_path"@.len() != "controller_name_without_prefix"@.len());
    assert(once.header["req_path"@] == req.header["req_path"@]);
    assert(routed_header(once.header, p) =~= once.header);
}

/// The controller name read from a path is the text between its first slash and the next slash
/// or its end: it has no slash, the slash before it is the path's first, and a slash or the
/// end follows it; a path without a slash has none.
pub proof fn lemma_second_segment(p: Seq<char>)
    ensures
        (forall|j: int| 0 <= j < p.len() ==> p[j] != '/') <==> second_segment(p) is None,
        second_segment(p) matches Some(seg) ==> exists|i: int|
            #![trigger p[i]]
            {
                &&& 0 <= i < p.len()
                &&& p[i] == '/'
                &&& forall|k: int| 0 <= k < i ==> p[k] != '/'
                &&& i + 1 + seg.len() <= p.len()
                &&& p.subrange(i + 1, i + 1 + seg.len()) == seg
                &&& forall|k: int| 0 <= k < seg.len() ==> seg[k] != '/'
                &&& (i + 1 + seg.len() == p.len() || p[i + 1 + seg.len()] == '/')
            },
{
    let sl = is_slash();
    lemma_first_match(p, sl);
    if forall|j: int| 0 <= j < p.len() ==> p[j] != '/' {
        assert forall|j: int| 0 <= j < p.len() implies !sl(#[trigger] p[j]) by {}
    } else {
        let w = choose|j: int| 0 <= j < p.len() && p[j] == '/';
        assert(sl(p[w]));
    }
    if let Some(i) = first_match(p, sl) {
        let rest = p.subrange(i + 1, p.len() as int);
        lemma_first_match(rest, sl);
        let seg = second_segment(p)->0;
        let e = match first_match(rest, sl) {
            None => rest.len() as int,
            Some(j) => j,
        };
        assert(seg =~= rest.subrange(0, e));
        assert(p.subrange(i + 1, i + 1 + seg.len()) =~= seg);
        assert forall|k: int| 0 <= k < seg.len() implies seg[k] != '/' by {
            assert(seg[k] == rest[k]);
            assert(!sl(rest[k]));
        }
        assert forall|k: int| 0 <= k < i implies p[k] != '/' by {
            assert(!sl(p[k]));
        }
        if e < rest.len() {
            assert(p[i + 1 + seg.len()] == rest[e]);
            assert(sl(rest[e]));
        }
        assert(p[i] == '/');
    }
}

} // verus!
