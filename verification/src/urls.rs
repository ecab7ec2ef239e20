use vstd::prelude::*;
use vstd::string::StringExecFns;

use crate::errors::VerifierError;
use crate::strings::{
    lemma_replace_all_absent, replace_all, spec_occurs, spec_replace_all, spec_split,
    spec_trim_trailing, split_char, trim_trailing,
};

verus! {

/// The components of an absolute URL with a host, each kept exactly as
/// the URL parser serializes it (so the path is percent-encoded).
#[derive(Debug, PartialEq, Eq)]
pub struct UrlParts {
    /// The scheme, without the trailing `://`.
    pub scheme: String,
    /// Everything between `://` and the path: `user:password@host:port`,
    /// with the optional pieces present only where the URL has them.
    pub authority: String,
    /// The host alone, as it also appears inside `authority`.
    pub host: String,
    /// The percent-encoded path, beginning with `/`.
    pub path: String,
    /// The query, without its leading `?`.
    pub query: Option<String>,
    /// The fragment, without its leading `#`.
    pub fragment: Option<String>,
}

/// The mathematical value of a `UrlParts`.
pub struct UrlPartsView {
    pub scheme: Seq<char>,
    pub authority: Seq<char>,
    pub host: Seq<char>,
    pub path: Seq<char>,
    pub query: Option<Seq<char>>,
    pub fragment: Option<Seq<char>>,
}

impl View for UrlParts {
    type V = UrlPartsView;

    open spec fn view(&self) -> UrlPartsView {
        UrlPartsView {
            scheme: self.scheme@,
            authority: self.authority@,
            host: self.host@,
            path: self.path@,
            query: match self.query {
                Some(q) => Some(q@),
                None => None,
            },
            fragment: match self.fragment {
                Some(f) => Some(f@),
                None => None,
            },
        }
    }
}

impl Clone for UrlParts {
    /// A field-for-field copy of the URL.
    fn clone(&self) -> (res: Self)
        ensures
            res == *self,
    {
        UrlParts {
            scheme: self.scheme.clone(),
            authority: self.authority.clone(),
            host: self.host.clone(),
            path: self.path.clone(),
            query: match &self.query {
                Some(q) => Some(q.clone()),
                None => None,
            },
            fragment: match &self.fragment {
                Some(f) => Some(f.clone()),
                None => None,
            },
        }
    }
}

/// The serialization of a URL from its components:
/// `scheme://authority/path?query#fragment`.
pub open spec fn spec_url_string(u: UrlPartsView) -> Seq<char> {
    u.scheme + "://"@ + u.authority + u.path + (match u.query {
        Some(q) => "?"@ + q,
        None => Seq::<char>::empty(),
    }) + (match u.fragment {
        Some(f) => "#"@ + f,
        None => Seq::<char>::empty(),
    })
}

impl UrlParts {
    /// Serializes the URL as `scheme://authority/path?query#fragment`.
    pub fn to_url_string(&self) -> (r: String)
        ensures
            r@ == spec_url_string(self@),
    {
        let mut out = self.scheme.clone();
        out.append("://");
        out.append(self.authority.as_str());
        out.append(self.path.as_str());
        match &self.query {
            Some(q) => {
                out.append("?");
                out.append(q.as_str());
            },
            None => {},
        }
        match &self.fragment {
            Some(f) => {
                out.append("#");
                out.append(f.as_str());
            },
            None => {},
        }
        proof {
            assert(out@ =~= spec_url_string(self@));
        }
        out
    }
}

/// `/`-prefixed concatenation of the non-empty segments.
pub open spec fn spec_append_segments(segs: Seq<Seq<char>>) -> Seq<char>
    decreases segs.len(),
{
    if segs.len() == 0 {
        Seq::<char>::empty()
    } else if segs[0].len() == 0 {
        spec_append_segments(segs.skip(1))
    } else {
        seq!['/'] + segs[0] + spec_append_segments(segs.skip(1))
    }
}

/// The root path, with trailing slashes removed, followed by the
/// relative path's segments after its leading one.
pub open spec fn spec_join_paths(root: Seq<char>, rel: Seq<char>) -> Seq<char> {
    spec_trim_trailing(root, '/') + spec_append_segments(spec_split(rel, '/').skip(1))
}

/// Builds the endpoint URL for a relative URL under a root URL: the
/// result keeps the root's scheme, authority (so also its host, user
/// information and port), query and fragment, and its path is the
/// root's path followed by the relative URL's path segments after the
/// leading one.
pub fn url_join(url1: &UrlParts, url2: &UrlParts) -> (r: UrlParts)
    ensures
        r@.scheme == url1@.scheme,
        r@.authority == url1@.authority,
        r@.host == url1@.host,
        r@.query == url1@.query,
        r@.fragment == url1@.fragment,
        r@.path == spec_join_paths(url1@.path, url2@.path),
{
    let mut path = trim_trailing(url1.path.as_str(), '/');
    let segs = split_char(url2.path.as_str(), '/');
    let ghost segsv = segs@.map_values(|p: String| p@);
    let mut i: usize = 1;
    proof {
        crate::strings::lemma_split_len(url2.path@, '/');
    }
    while i < segs.len()
        invariant
            1 <= i <= segs.len(),
            segsv == segs@.map_values(|p: String| p@),
            segsv.len() >= 1,
            spec_trim_trailing(url1.path@, '/') + spec_append_segments(segsv.skip(1)) == path@
                + spec_append_segments(segsv.skip(i as int)),
        decreases segs.len() - i,
    {
        let ghost prev = path@;
        if !segs[i].as_str().is_empty() {
            path.append("/");
            path.append(segs[i].as_str());
        }
        proof {
            reveal_strlit("/");
            let tail = segsv.skip(i as int);
            assert(tail[0] == segsv[i as int]);
            assert(segsv[i as int] == segs@[i as int]@);
            assert(tail.skip(1) =~= segsv.skip(i as int + 1));
            if segs@[i as int]@.len() == 0 {
                assert(path@ == prev);
            } else {
                assert("/"@ =~= seq!['/']);
                assert(path@ =~= prev + seq!['/'] + segsv[i as int]);
                assert(prev + spec_append_segments(tail) =~= path@ + spec_append_segments(
                    segsv.skip(i as int + 1),
                ));
            }
        }
        i = i + 1;
    }
    proof {
        assert(segsv.skip(i as int).len() == 0);
        assert(path@ + spec_append_segments(segsv.skip(i as int)) =~= path@);
    }
    UrlParts {
        scheme: url1.scheme.clone(),
        authority: url1.authority.clone(),
        host: url1.host.clone(),
        path,
        query: match &url1.query {
            Some(q) => Some(q.clone()),
            None => None,
        },
        fragment: match &url1.fragment {
            Some(f) => Some(f.clone()),
            None => None,
        },
    }
}

/// What the URL parser yields on a given string: its components for a
/// string that is an absolute URL with a host, and nothing otherwise.
pub uninterp spec fn spec_url_parse(s: Seq<char>) -> Option<UrlPartsView>;

/// Relies on url::Url::parse and the accessors scheme, authority,
/// host_str, path, query and fragment: the outcome depends on the input
/// string alone. A URL without a host is not modelled here and is
/// treated as unparsable.
#[verifier::external_body]
fn parse_url_raw(s: &str) -> (r: Option<UrlParts>)
    ensures
        r matches Some(p) ==> spec_url_parse(s@) == Some(p@),
        r is None ==> spec_url_parse(s@) is None,
{
    let u = url::Url::parse(s).ok()?;
    let host = u.host_str()?.to_string();
    Some(UrlParts {
        scheme: u.scheme().to_string(),
        authority: u.authority().to_string(),
        host,
        path: u.path().to_string(),
        query: u.query().map(|q| q.to_string()),
        fragment: u.fragment().map(|f| f.to_string()),
    })
}

/// Parses an absolute URL with a host into its components.
pub fn parse_url(s: &str) -> (r: Result<UrlParts, VerifierError>)
    ensures
        r matches Ok(p) ==> spec_url_parse(s@) == Some(p@),
        r matches Err(e) ==> spec_url_parse(s@) is None && (e matches VerifierError::InvalidUrl(t)
            && t@ == s@),
{
    match parse_url_raw(s) {
        Some(p) => Ok(p),
        None => Err(VerifierError::InvalidUrl(s.to_owned())),
    }
}

/// The percent-encoded form `%7Bname%7D` under which a placeholder
/// named `name` appears in a serialized URL.
pub open spec fn spec_placeholder(name: Seq<char>) -> Seq<char> {
    "%7B"@ + name + "%7D"@
}

/// The serialized URL after substituting each binding in turn: each
/// replacement works on the string the previous one produced.
pub open spec fn spec_substitute_all(s: Seq<char>, vars: Seq<(Seq<char>, Seq<char>)>) -> Seq<char>
    decreases vars.len(),
{
    if vars.len() == 0 {
        s
    } else {
        spec_substitute_all(
            spec_replace_all(s, spec_placeholder(vars[0].0), vars[0].1),
            vars.skip(1),
        )
    }
}

/// The bindings' mathematical value: a sequence of (name, value) pairs.
pub open spec fn spec_bindings(vars: Seq<(String, String)>) -> Seq<(Seq<char>, Seq<char>)> {
    vars.map_values(|kv: (String, String)| (kv.0@, kv.1@))
}

/// When no binding's encoded placeholder occurs in the string,
/// substitution changes nothing.
pub proof fn lemma_substitute_unmatched(s: Seq<char>, vars: Seq<(Seq<char>, Seq<char>)>)
    requires
        forall|i: int| 0 <= i < vars.len() ==> !spec_occurs(s, spec_placeholder(vars[i].0)),
    ensures
        spec_substitute_all(s, vars) == s,
    decreases vars.len(),
{
    if vars.len() == 0 {
    } else {
        assert(!spec_occurs(s, spec_placeholder(vars[0].0)));
        lemma_replace_all_absent(s, spec_placeholder(vars[0].0), vars[0].1);
        assert forall|i: int| 0 <= i < vars.skip(1).len() implies !spec_occurs(
            s,
            spec_placeholder(vars.skip(1)[i].0),
        ) by {
            assert(vars.skip(1)[i] == vars[i + 1]);
        }
        lemma_substitute_unmatched(s, vars.skip(1));
    }
}

/// Substitutes template variables in a URL: each `(name, value)`
/// binding replaces every occurrence of the percent-encoded placeholder
/// `{name}` in the serialized URL with `value`, each binding working on
/// the string the previous one produced, and the final string is parsed
/// back into a URL. A URL whose serialization the bindings do not touch
/// comes back unchanged; a substituted string that no longer parses as
/// a URL is an error carrying that string.
pub fn replace_vars(url: &UrlParts, vars: &Vec<(String, String)>) -> (r: Result<
    UrlParts,
    VerifierError,
>)
    ensures
        ({
            let sub = spec_substitute_all(spec_url_string(url@), spec_bindings(vars@));
            &&& (sub == spec_url_string(url@) ==> r == Ok::<UrlParts, VerifierError>(*url))
            &&& (sub != spec_url_string(url@) ==> match spec_url_parse(sub) {
                Some(v) => r matches Ok(p) && p@ == v,
                None => r matches Err(e) && e matches VerifierError::InvalidUrl(t) && t@ == sub,
            })
            &&& (vars@.len() == 0 ==> r == Ok::<UrlParts, VerifierError>(*url))
        }),
{
    let s0 = url.to_url_string();
    let mut s = s0.clone();
    let ghost bindings = spec_bindings(vars@);
    let mut i: usize = 0;
    proof {
        assert(bindings.skip(0) =~= bindings);
    }
    while i < vars.len()
        invariant
            i <= vars.len(),
            bindings == spec_bindings(vars@),
            s0@ == spec_url_string(url@),
            spec_substitute_all(s0@, bindings) == spec_substitute_all(
                s@,
                bindings.skip(i as int),
            ),
        decreases vars.len() - i,
    {
        let mut pat = String::from_str("%7B");
        pat.append(vars[i].0.as_str());
        pat.append("%7D");
        let next = replace_all(s.as_str(), pat.as_str(), vars[i].1.as_str());
        proof {
            let tail = bindings.skip(i as int);
            assert(tail[0] == bindings[i as int]);
            assert(tail.skip(1) =~= bindings.skip(i as int + 1));
            assert(pat@ == spec_placeholder(bindings[i as int].0));
        }
        s = next;
        i = i + 1;
    }
    proof {
        assert(bindings.skip(i as int).len() == 0);
    }
    if s == s0 {
        Ok(url.clone())
    } else {
        match parse_url_raw(s.as_str()) {
            Some(p) => Ok(p),
            None => Err(VerifierError::InvalidUrl(s)),
        }
    }
}

} // verus!
