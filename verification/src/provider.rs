//! Provider endpoint rules for the local-model backend.
//!
//! The HTTP requests themselves live outside the library. Here are the
//! rules: how a configured base URL is normalized, when an endpoint
//! counts as local, and how `:cloud` model routing resolves to a model
//! name and an authentication decision.

use vstd::prelude::*;
use vstd::string::StringExecFns;

use crate::chars::{
    ends_with_chars, spec_ends_with, spec_starts_with, starts_with_chars, str_chars,
    string_of_chars, subrange_chars,
};
use crate::email::{spec_trim_ws, trim_ws};
use crate::strutil::str_eq;

verus! {

/// The input with trailing `/` characters removed.
pub open spec fn spec_trim_end_slash(s: Seq<char>) -> Seq<char>
    decreases s.len(),
{
    if s.len() > 0 && s.last() == '/' {
        spec_trim_end_slash(s.drop_last())
    } else {
        s
    }
}

/// A normalized base URL: trimmed, without trailing slashes, without a
/// trailing `/api` segment, and with an `http://` scheme supplied when
/// none is given. Empty input stays empty.
pub open spec fn spec_normalize_base_url(s: Seq<char>) -> Seq<char> {
    let t = spec_trim_ws(s);
    if t.len() == 0 {
        Seq::empty()
    } else {
        let n0 = spec_trim_end_slash(t);
        let n = if spec_ends_with(n0, "/api"@) {
            spec_trim_end_slash(n0.take(n0.len() - 4))
        } else {
            n0
        };
        if spec_starts_with(n, "http://"@) || spec_starts_with(n, "https://"@) {
            n
        } else {
            "http://"@ + n
        }
    }
}

proof fn lemma_trim_end_slash_take(s: Seq<char>, e: int)
    requires
        0 <= e <= s.len(),
        forall|j: int| e <= j < s.len() ==> s[j] == '/',
        e == 0 || s[e - 1] != '/',
    ensures
        spec_trim_end_slash(s) == s.take(e),
    decreases s.len(),
{
    if s.len() > 0 && s.last() == '/' {
        if e == s.len() {
            assert(s[e - 1] == '/');
            assert(false);
        }
        lemma_trim_end_slash_take(s.drop_last(), e);
        assert(s.drop_last().take(e) =~= s.take(e));
    } else {
        if e < s.len() {
            assert(s[s.len() - 1] == '/');
        }
        assert(s.take(e) =~= s);
    }
}

fn trim_end_slash(v: &Vec<char>) -> (r: Vec<char>)
    ensures
        r@ == spec_trim_end_slash(v@),
{
    let mut e: usize = v.len();
    while e > 0 && v[e - 1] == '/'
        invariant
            e <= v@.len(),
            forall|j: int| e <= j < v@.len() ==> v@[j] == '/',
        decreases e,
    {
        e = e - 1;
    }
    proof {
        lemma_trim_end_slash_take(v@, e as int);
    }
    subrange_chars(v, 0, e)
}

/// Normalizes a configured base URL.
pub fn normalize_base_url(base_url: &str) -> (r: String)
    ensures
        r@ == spec_normalize_base_url(base_url@),
{
    let chars = str_chars(base_url);
    let trimmed = trim_ws(&chars);
    if trimmed.len() == 0 {
        let out = String::new();
        proof {
            assert(out@ =~= Seq::<char>::empty());
        }
        return out;
    }
    let n0 = trim_end_slash(&trimmed);
    let n = if ends_with_chars(&n0, "/api") {
        proof {
            reveal_strlit("/api");
            assert("/api"@.len() == 4);
        }
        let cut = subrange_chars(&n0, 0, n0.len() - 4);
        proof {
            assert(cut@ =~= n0@.take(n0@.len() - 4));
        }
        trim_end_slash(&cut)
    } else {
        let copy = subrange_chars(&n0, 0, n0.len());
        proof {
            assert(copy@ =~= n0@);
        }
        copy
    };
    if starts_with_chars(&n, "http://") || starts_with_chars(&n, "https://") {
        string_of_chars(&n)
    } else {
        let mut out = String::new();
        out.append("http://");
        let tail = string_of_chars(&n);
        out.append(tail.as_str());
        proof {
            assert(out@ =~= "http://"@ + n@);
        }
        out
    }
}

/// First position at or after `i` holding `:` or `/`, or the length.
pub open spec fn spec_first_delim(s: Seq<char>, i: int) -> int
    decreases s.len() - i,
{
    if i < 0 || i >= s.len() {
        i
    } else if s[i] == ':' || s[i] == '/' {
        i
    } else {
        spec_first_delim(s, i + 1)
    }
}

/// First position at or after `i` holding `/`, or the length.
pub open spec fn spec_first_slash(s: Seq<char>, i: int) -> int
    decreases s.len() - i,
{
    if i < 0 || i >= s.len() {
        i
    } else if s[i] == '/' {
        i
    } else {
        spec_first_slash(s, i + 1)
    }
}

/// The part of the authority after its last `@`: the host and port,
/// with any user information dropped.
pub open spec fn spec_after_last_at(s: Seq<char>) -> Seq<char>
    decreases s.len(),
{
    if s.len() == 0 {
        s
    } else if s.last() == '@' {
        Seq::empty()
    } else {
        spec_after_last_at(s.drop_last()).push(s.last())
    }
}

proof fn lemma_after_at_found(s: Seq<char>, k: int)
    requires
        0 <= k < s.len(),
        s[k] == '@',
        forall|j: int| k < j < s.len() ==> s[j] != '@',
    ensures
        spec_after_last_at(s) == s.subrange(k + 1, s.len() as int),
    decreases s.len(),
{
    if k == s.len() - 1 {
        assert(s.last() == '@');
        assert(s.subrange(k + 1, s.len() as int) =~= Seq::empty());
    } else {
        assert(s.last() != '@');
        lemma_after_at_found(s.drop_last(), k);
        assert(s.drop_last().subrange(k + 1, s.len() - 1) =~= s.subrange(k + 1, s.len() - 1));
        assert(s.subrange(k + 1, s.len() - 1).push(s.last()) =~= s.subrange(
            k + 1,
            s.len() as int,
        ));
    }
}

proof fn lemma_after_at_none(s: Seq<char>)
    requires
        forall|j: int| 0 <= j < s.len() ==> s[j] != '@',
    ensures
        spec_after_last_at(s) == s,
    decreases s.len(),
{
    if s.len() > 0 {
        lemma_after_at_none(s.drop_last());
        assert(s.drop_last().push(s.last()) =~= s);
    }
}

fn first_slash(v: &Vec<char>, start: usize) -> (r: usize)
    requires
        start <= v@.len(),
    ensures
        r == spec_first_slash(v@, start as int),
        start <= r <= v@.len(),
    decreases v@.len() - start,
{
    if start >= v.len() {
        return start;
    }
    if v[start] == '/' {
        start
    } else {
        first_slash(v, start + 1)
    }
}

fn after_last_at(v: &Vec<char>) -> (r: Vec<char>)
    ensures
        r@ == spec_after_last_at(v@),
{
    let n = v.len();
    let mut k: usize = n;
    while k > 0
        invariant
            k <= n,
            n == v@.len(),
            forall|j: int| k <= j < n ==> v@[j] != '@',
        decreases k,
    {
        if v[k - 1] == '@' {
            let r = subrange_chars(v, k, n);
            proof {
                lemma_after_at_found(v@, k as int - 1);
            }
            return r;
        }
        k = k - 1;
    }
    let r = subrange_chars(v, 0, n);
    proof {
        lemma_after_at_none(v@);
        assert(r@ =~= v@);
    }
    r
}

/// First position at or after `i` holding `]`, or the length.
pub open spec fn spec_first_close(s: Seq<char>, i: int) -> int
    decreases s.len() - i,
{
    if i < 0 || i >= s.len() {
        i
    } else if s[i] == ']' {
        i
    } else {
        spec_first_close(s, i + 1)
    }
}

/// The host part of a URL: the authority after the scheme, any user
/// information before an `@` dropped, the port dropped, and square
/// brackets around a literal address removed.
pub open spec fn spec_host_of(u: Seq<char>) -> Seq<char> {
    let rest = if spec_starts_with(u, "http://"@) {
        u.skip(7)
    } else if spec_starts_with(u, "https://"@) {
        u.skip(8)
    } else {
        u
    };
    let authority = rest.take(spec_first_slash(rest, 0));
    let hostport = spec_after_last_at(authority);
    if spec_starts_with(hostport, "["@) {
        hostport.subrange(1, spec_first_close(hostport, 1))
    } else {
        hostport.take(spec_first_delim(hostport, 0))
    }
}

/// Whether the URL names a loopback endpoint.
pub open spec fn spec_is_local(u: Seq<char>) -> bool {
    spec_host_of(u) == "localhost"@ || spec_host_of(u) == "127.0.0.1"@ || spec_host_of(u)
        == "::1"@
}

fn first_delim(v: &Vec<char>, start: usize) -> (r: usize)
    requires
        start <= v@.len(),
    ensures
        r == spec_first_delim(v@, start as int),
        start <= r <= v@.len(),
    decreases v@.len() - start,
{
    if start >= v.len() {
        return start;
    }
    if v[start] == ':' || v[start] == '/' {
        start
    } else {
        first_delim(v, start + 1)
    }
}

fn first_close(v: &Vec<char>, start: usize) -> (r: usize)
    requires
        start <= v@.len(),
    ensures
        r == spec_first_close(v@, start as int),
        start <= r <= v@.len(),
    decreases v@.len() - start,
{
    if start >= v.len() {
        return start;
    }
    if v[start] == ']' {
        start
    } else {
        first_close(v, start + 1)
    }
}

/// Extracts the host of a URL.
pub fn host_of(u: &str) -> (r: String)
    ensures
        r@ == spec_host_of(u@),
{
    let chars = str_chars(u);
    let rest = if starts_with_chars(&chars, "http://") {
        proof {
            reveal_strlit("http://");
            assert("http://"@.len() == 7);
        }
        let x = subrange_chars(&chars, 7, chars.len());
        proof {
            assert(x@ =~= chars@.skip(7));
        }
        x
    } else if starts_with_chars(&chars, "https://") {
        proof {
            reveal_strlit("https://");
            assert("https://"@.len() == 8);
        }
        let x = subrange_chars(&chars, 8, chars.len());
        proof {
            assert(x@ =~= chars@.skip(8));
        }
        x
    } else {
        let x = subrange_chars(&chars, 0, chars.len());
        proof {
            assert(x@ =~= chars@);
        }
        x
    };
    let slash = first_slash(&rest, 0);
    let authority = subrange_chars(&rest, 0, slash);
    proof {
        assert(authority@ =~= rest@.take(spec_first_slash(rest@, 0)));
    }
    let hostport = after_last_at(&authority);
    if starts_with_chars(&hostport, "[") {
        proof {
            reveal_strlit("[");
            assert("["@.len() == 1);
        }
        let close = first_close(&hostport, 1);
        let h = subrange_chars(&hostport, 1, close);
        string_of_chars(&h)
    } else {
        let d = first_delim(&hostport, 0);
        let h = subrange_chars(&hostport, 0, d);
        proof {
            assert(h@ =~= hostport@.take(spec_first_delim(hostport@, 0)));
        }
        string_of_chars(&h)
    }
}

/// Local-model provider: a normalized endpoint, an optional key and an
/// optional reasoning override.
#[derive(Debug)]
pub struct OllamaProvider {
    pub base_url: String,
    pub api_key: Option<String>,
    pub reasoning_enabled: Option<bool>,
}

impl OllamaProvider {
    /// Builds a provider; the endpoint defaults to the local daemon.
    pub fn new(base_url: Option<&str>, api_key: Option<&str>) -> (r: Self)
        ensures
            r.base_url@ == spec_normalize_base_url(
                match base_url {
                    Some(u) => u@,
                    None => "http://localhost:11434"@,
                },
            ),
            r.api_key.deep_view() == (match api_key {
                Some(k) => if spec_trim_ws(k@).len() > 0 {
                    Some(spec_trim_ws(k@))
                } else {
                    None
                },
                None => None,
            }),
            r.reasoning_enabled is None,
    {
        Self::new_with_reasoning(base_url, api_key, None)
    }

    /// Builds a provider with an explicit reasoning override. The key is
    /// trimmed; an empty key counts as none.
    pub fn new_with_reasoning(
        base_url: Option<&str>,
        api_key: Option<&str>,
        reasoning_enabled: Option<bool>,
    ) -> (r: Self)
        ensures
            r.base_url@ == spec_normalize_base_url(
                match base_url {
                    Some(u) => u@,
                    None => "http://localhost:11434"@,
                },
            ),
            r.api_key.deep_view() == (match api_key {
                Some(k) => if spec_trim_ws(k@).len() > 0 {
                    Some(spec_trim_ws(k@))
                } else {
                    None
                },
                None => None,
            }),
            r.reasoning_enabled == reasoning_enabled,
    {
        let key = match api_key {
            Some(k) => {
                let chars = str_chars(k);
                let trimmed = trim_ws(&chars);
                if trimmed.len() > 0 {
                    Some(string_of_chars(&trimmed))
                } else {
                    None
                }
            },
            None => None,
        };
        let url = match base_url {
            Some(u) => normalize_base_url(u),
            None => normalize_base_url("http://localhost:11434"),
        };
        OllamaProvider { base_url: url, api_key: key, reasoning_enabled }
    }

    /// Whether the configured endpoint is loopback.
    pub fn is_local_endpoint(&self) -> (r: bool)
        ensures
            r == spec_is_local(self.base_url@),
    {
        let host = host_of(self.base_url.as_str());
        str_eq(host.as_str(), "localhost") || str_eq(host.as_str(), "127.0.0.1") || str_eq(
            host.as_str(),
            "::1",
        )
    }

    /// Resolves a requested model: a `:cloud` suffix asks for cloud
    /// routing, which needs a remote endpoint and an API key; the suffix
    /// is stripped from the model name. Authentication is used exactly
    /// when a key is configured and the endpoint is remote.
    pub fn resolve_request_details(&self, model: &str) -> (r: Result<(String, bool), String>)
        ensures
            spec_ends_with(model@, ":cloud"@) && spec_is_local(self.base_url@) ==> (r matches Err(m)
                && m@ == "Model '"@ + model@
                + "' requested cloud routing, but Ollama endpoint is local. Configure api_url with a remote Ollama endpoint."@),
            spec_ends_with(model@, ":cloud"@) && !spec_is_local(self.base_url@) && self.api_key
                is None ==> (r matches Err(m) && m@ == "Model '"@ + model@
                + "' requested cloud routing, but no API key is configured. Set OLLAMA_API_KEY or config api_key."@),
            (spec_ends_with(model@, ":cloud"@) ==> !spec_is_local(self.base_url@) && self.api_key
                is Some) ==> (r matches Ok(p) && p.0@ == (if spec_ends_with(model@, ":cloud"@) {
                model@.take(model@.len() - 6)
            } else {
                model@
            }) && p.1 == (self.api_key is Some && !spec_is_local(self.base_url@))),
    {
        let chars = str_chars(model);
        let requests_cloud = ends_with_chars(&chars, ":cloud");
        let local = self.is_local_endpoint();
        if requests_cloud && local {
            let mut m = String::new();
            m.append("Model '");
            m.append(model);
            m.append(
                "' requested cloud routing, but Ollama endpoint is local. Configure api_url with a remote Ollama endpoint.",
            );
            proof {
                assert(m@ =~= "Model '"@ + model@
                    + "' requested cloud routing, but Ollama endpoint is local. Configure api_url with a remote Ollama endpoint."@);
            }
            return Err(m);
        }
        if requests_cloud && matches!(&self.api_key, None) {
            let mut m = String::new();
            m.append("Model '");
            m.append(model);
            m.append(
                "' requested cloud routing, but no API key is configured. Set OLLAMA_API_KEY or config api_key.",
            );
            proof {
                assert(m@ =~= "Model '"@ + model@
                    + "' requested cloud routing, but no API key is configured. Set OLLAMA_API_KEY or config api_key."@);
            }
            return Err(m);
        }
        let normalized = if requests_cloud {
            proof {
                reveal_strlit(":cloud");
                assert(":cloud"@.len() == 6);
            }
            let cut = subrange_chars(&chars, 0, chars.len() - 6);
            proof {
                assert(cut@ =~= model@.take(model@.len() - 6));
            }
            string_of_chars(&cut)
        } else {
            model.to_owned()
        };
        let should_auth = match &self.api_key {
            Some(_k) => !local,
            None => false,
        };
        Ok((normalized, should_auth))
    }

    /// The provider reports native tool calling.
    pub fn supports_native_tools(&self) -> (r: bool)
        ensures
            r,
    {
        true
    }

    /// The provider's capabilities: native tool calling and vision.
    pub fn capabilities(&self) -> (r: ProviderCapabilities)
        ensures
            r.native_tool_calling,
            r.vision,
    {
        ProviderCapabilities { native_tool_calling: true, vision: true }
    }
}

/// What a provider can do.
#[derive(Debug, Clone, Copy, PartialEq, Eq, Structural)]
pub struct ProviderCapabilities {
    pub native_tool_calling: bool,
    pub vision: bool,
}

} // verus!
