//! Container registry authentication: the `WWW-Authenticate` challenge and
//! the token a registry's auth service answers with.
use vstd::prelude::*;
use crate::text::{is_prefix_of, same_text, split_once, split_once_of, starts_with, trim_of, trimmed};

verus! {

/// What a registry's auth service answers.
#[derive(Debug)]
pub struct RegistryTokenResponse {
    pub token: Option<String>,
    pub access_token: Option<String>,
    pub expires_in: Option<i64>,
}

impl RegistryTokenResponse {
    /// The token to pull with: `token`, else `access_token`.
    pub fn into_token(self) -> (r: Option<String>)
        ensures
            self.token is Some ==> r == self.token,
            self.token is None ==> r == self.access_token,
    {
        match self.token {
            Some(t) => Some(t),
            None => self.access_token,
        }
    }
}

/// Why a challenge was refused.
#[derive(Clone, Copy, Debug, PartialEq, Eq, Structural)]
pub enum ChallengeError {
    /// The scheme is not `Bearer`.
    UnsupportedScheme,
    /// The challenge names no realm.
    NoRealm,
}

/// The scheme prefix of a bearer challenge.
pub open spec fn bearer_prefix() -> Seq<char> {
    seq!['B', 'e', 'a', 'r', 'e', 'r', ' ']
}

/// `s` with every leading repetition of `p` removed.
pub open spec fn strip_prefixes(s: Seq<char>, p: Seq<char>) -> Seq<char>
    decreases s.len(),
{
    if p.len() > 0 && is_prefix_of(p, s) {
        strip_prefixes(s.subrange(p.len() as int, s.len() as int), p)
    } else {
        s
    }
}

/// `s` with every leading and trailing `c` removed.
pub open spec fn strip_char(s: Seq<char>, c: char) -> Seq<char>
    decreases s.len(),
{
    if s.len() > 0 && s[0] == c {
        strip_char(s.drop_first(), c)
    } else if s.len() > 0 && s.last() == c {
        strip_char(s.drop_last(), c)
    } else {
        s
    }
}

/// The pieces of `s` between the separators `c`, as `str::split` gives them.
pub open spec fn pieces(s: Seq<char>, c: char) -> Seq<Seq<char>>
    decreases s.len(),
{
    if s.len() == 0 {
        seq![seq![]]
    } else {
        let prev = pieces(s.drop_last(), c);
        if s.last() == c {
            prev.push(seq![])
        } else {
            prev.update(prev.len() - 1, prev.last().push(s.last()))
        }
    }
}

/// The key and the value that a `key="value"` piece gives, trimmed and
/// unquoted.
pub open spec fn param_of(piece: Seq<char>) -> Option<(Seq<char>, Seq<char>)> {
    match split_once_of(trim_of(piece), '=') {
        Some(kv) => Some((trim_of(kv.0), strip_char(trim_of(kv.1), '"'))),
        None => None,
    }
}

/// The value that the last piece naming `key` gives it.
pub open spec fn param_value(ps: Seq<Seq<char>>, key: Seq<char>) -> Option<Seq<char>>
    decreases ps.len(),
{
    if ps.len() == 0 {
        None
    } else {
        match param_of(ps.last()) {
            Some(kv) if kv.0 == key => Some(kv.1),
            _ => param_value(ps.drop_last(), key),
        }
    }
}

/// The realm, service and scope that a challenge names.
pub open spec fn challenge_of(header: Seq<char>) -> Result<
    (Seq<char>, Option<Seq<char>>, Option<Seq<char>>),
    ChallengeError,
> {
    if !is_prefix_of(bearer_prefix(), header) {
        Err(ChallengeError::UnsupportedScheme)
    } else {
        let ps = pieces(strip_prefixes(header, bearer_prefix()), ',');
        match param_value(ps, seq!['r', 'e', 'a', 'l', 'm']) {
            None => Err(ChallengeError::NoRealm),
            Some(realm) => Ok(
                (
                    realm,
                    param_value(ps, seq!['s', 'e', 'r', 'v', 'i', 'c', 'e']),
                    param_value(ps, seq!['s', 'c', 'o', 'p', 'e']),
                ),
            ),
        }
    }
}

fn strip_bearer(header: &str) -> (r: &str)
    ensures
        r@ == strip_prefixes(header@, bearer_prefix()),
{
    proof {
        reveal_strlit("Bearer ");
        assert("Bearer "@ =~= bearer_prefix());
    }
    let mut rest = header;
    while starts_with(rest, "Bearer ")
        invariant
            "Bearer "@ == bearer_prefix(),
            strip_prefixes(rest@, bearer_prefix()) == strip_prefixes(header@, bearer_prefix()),
        decreases rest@.len(),
    {
        let m = rest.unicode_len();
        rest = rest.substring_char(7, m);
    }
    rest
}

fn strip_quotes(s: &str) -> (r: &str)
    ensures
        r@ == strip_char(s@, '"'),
{
    let mut rest = s;
    while rest.unicode_len() > 0 && (rest.get_char(0) == '"' || rest.get_char(
        rest.unicode_len() - 1,
    ) == '"')
        invariant
            strip_char(rest@, '"') == strip_char(s@, '"'),
        decreases rest@.len(),
    {
        let m = rest.unicode_len();
        if rest.get_char(0) == '"' {
            rest = rest.substring_char(1, m);
        } else {
            rest = rest.substring_char(0, m - 1);
        }
    }
    rest
}

fn split_commas(s: &str) -> (r: Vec<String>)
    ensures
        r@.map_values(|p: String| p@) == pieces(s@, ','),
{
    let n = s.unicode_len();
    let mut done: Vec<String> = Vec::new();
    let mut start: usize = 0;
    let mut i: usize = 0;
    assert(s@.subrange(0, 0) =~= Seq::<char>::empty());
    assert(done@.map_values(|p: String| p@).push(s@.subrange(0, 0)) =~= seq![Seq::<char>::empty()]);
    while i < n
        invariant
            n == s@.len(),
            start <= i <= n,
            done@.map_values(|p: String| p@).push(s@.subrange(start as int, i as int)) == pieces(
                s@.subrange(0, i as int),
                ',',
            ),
        decreases n - i,
    {
        let ghost prev_done = done@.map_values(|p: String| p@);
        let c = s.get_char(i);
        assert(s@.subrange(0, i + 1).drop_last() == s@.subrange(0, i as int));
        assert(s@.subrange(0, i + 1).last() == c);
        if c == ',' {
            let piece = String::from_str(s.substring_char(start, i));
            done.push(piece);
            assert(done@.map_values(|p: String| p@) == prev_done.push(s@.subrange(start as int, i as int)));
            start = i + 1;
            assert(s@.subrange(start as int, i + 1) =~= Seq::<char>::empty());
        } else {
            assert(s@.subrange(start as int, i + 1) == s@.subrange(start as int, i as int).push(c));
            assert(prev_done.push(s@.subrange(start as int, i + 1)) =~= prev_done.push(
                s@.subrange(start as int, i as int),
            ).update(prev_done.len() as int, s@.subrange(start as int, i as int).push(c)));
        }
        i = i + 1;
    }
    let last = String::from_str(s.substring_char(start, n));
    let ghost prev_done = done@.map_values(|p: String| p@);
    done.push(last);
    assert(done@.map_values(|p: String| p@) == prev_done.push(s@.subrange(start as int, n as int)));
    assert(s@.subrange(0, n as int) == s@);
    done
}

fn param_from(piece: &str) -> (r: Option<(String, String)>)
    ensures
        match param_of(piece@) {
            Some(kv) => r matches Some(q) && q.0@ == kv.0 && q.1@ == kv.1,
            None => r is None,
        },
{
    let t = trimmed(piece);
    match split_once(t.as_str(), '=') {
        Some((k, v)) => {
            let key = trimmed(k.as_str());
            let v = trimmed(v.as_str());
            let value = String::from_str(strip_quotes(v.as_str()));
            Some((key, value))
        },
        None => None,
    }
}

/// Reads a registry's `WWW-Authenticate` challenge
/// (`Bearer realm="…",service="…",scope="…"`) into its realm, service and
/// scope. Only the bearer scheme is read, and the realm is required.
pub fn parse_www_authenticate(header: &str) -> (r: Result<(String, Option<String>, Option<String>), ChallengeError>)
    ensures
        match challenge_of(header@) {
            Ok(c) => r matches Ok(q) && q.0@ == c.0 && (match q.1 {
                Some(s) => c.1 == Some(s@),
                None => c.1 is None,
            }) && (match q.2 {
                Some(s) => c.2 == Some(s@),
                None => c.2 is None,
            }),
            Err(e) => r == Err::<(String, Option<String>, Option<String>), ChallengeError>(e),
        },
{
    proof {
        reveal_strlit("Bearer ");
        assert("Bearer "@ =~= bearer_prefix());
        reveal_strlit("realm");
        reveal_strlit("service");
        reveal_strlit("scope");
        assert("realm"@ =~= seq!['r', 'e', 'a', 'l', 'm']);
        assert("service"@ =~= seq!['s', 'e', 'r', 'v', 'i', 'c', 'e']);
        assert("scope"@ =~= seq!['s', 'c', 'o', 'p', 'e']);
    }
    if !starts_with(header, "Bearer ") {
        return Err(ChallengeError::UnsupportedScheme);
    }
    let params = strip_bearer(header);
    let parts = split_commas(params);
    let ghost ps = pieces(params@, ',');
    let mut realm: Option<String> = None;
    let mut service: Option<String> = None;
    let mut scope: Option<String> = None;
    let mut i: usize = 0;
    while i < parts.len()
        invariant
            i <= parts@.len(),
            parts@.map_values(|p: String| p@) == ps,
            "realm"@ == seq!['r', 'e', 'a', 'l', 'm'],
            "service"@ == seq!['s', 'e', 'r', 'v', 'i', 'c', 'e'],
            "scope"@ == seq!['s', 'c', 'o', 'p', 'e'],
            opt_view(&realm) == param_value(ps.subrange(0, i as int), "realm"@),
            opt_view(&service) == param_value(ps.subrange(0, i as int), "service"@),
            opt_view(&scope) == param_value(ps.subrange(0, i as int), "scope"@),
        decreases parts@.len() - i,
    {
        assert(ps.subrange(0, i + 1).drop_last() == ps.subrange(0, i as int));
        assert(ps.subrange(0, i + 1).last() == parts@[i as int]@);
        match param_from(parts[i].as_str()) {
            Some((k, v)) => {
                if same_text(k.as_str(), "realm") {
                    realm = Some(v);
                } else if same_text(k.as_str(), "service") {
                    service = Some(v);
                } else if same_text(k.as_str(), "scope") {
                    scope = Some(v);
                }
            },
            None => {},
        }
        i = i + 1;
    }
    assert(ps.subrange(0, parts@.len() as int) == ps);
    match realm {
        Some(r) => Ok((r, service, scope)),
        None => Err(ChallengeError::NoRealm),
    }
}

/// The text of an optional string.
pub open spec fn opt_view(o: &Option<String>) -> Option<Seq<char>> {
    match o {
        Some(s) => Some(s@),
        None => None,
    }
}

/// The registry that serves images without credentials.
pub open spec fn public_registry() -> Seq<char> {
    seq!['i', 'n', 'd', 'e', 'x', '.', 'd', 'o', 'c', 'k', 'e', 'r', '.', 'i', 'o']
}

/// Whether pulling from `registry` needs stored credentials that are
/// missing: every registry but the public one needs a username.
pub fn credentials_missing(registry: &str, has_username: bool) -> (r: bool)
    ensures
        r == (!has_username && registry@ != public_registry()),
{
    proof {
        reveal_strlit("index.docker.io");
        assert("index.docker.io"@ =~= public_registry());
    }
    !has_username && !same_text(registry, "index.docker.io")
}

/// The address at which a pull token for `repository` is asked for.
pub open spec fn scoped_token_address(realm: Seq<char>, service: Option<Seq<char>>, repository: Seq<char>) -> Seq<char> {
    realm + seq!['?'] + (match service {
        Some(svc) => seq!['s', 'e', 'r', 'v', 'i', 'c', 'e', '='] + svc + seq!['&'],
        None => seq![],
    }) + seq!['s', 'c', 'o', 'p', 'e', '=', 'r', 'e', 'p', 'o', 's', 'i', 't', 'o', 'r', 'y', ':']
        + repository + seq![':', 'p', 'u', 'l', 'l']
}

/// Builds the address at which a pull token for `repository` is asked
/// for: `{realm}?service={service}&scope=repository:{repository}:pull`, the
/// service part only where the challenge names one.
pub fn scoped_token_url(realm: &str, service: Option<&str>, repository: &str) -> (r: String)
    ensures
        r@ == scoped_token_address(
            realm@,
            match service {
                Some(s) => Some(s@),
                None => None,
            },
            repository@,
        ),
{
    proof {
        reveal_strlit("?");
        reveal_strlit("service=");
        reveal_strlit("&");
        reveal_strlit("scope=repository:");
        reveal_strlit(":pull");
        assert("?"@ =~= seq!['?']);
        assert("service="@ =~= seq!['s', 'e', 'r', 'v', 'i', 'c', 'e', '=']);
        assert("&"@ =~= seq!['&']);
        assert("scope=repository:"@ =~= seq!['s', 'c', 'o', 'p', 'e', '=', 'r', 'e', 'p', 'o', 's', 'i', 't', 'o', 'r', 'y', ':']);
        assert(":pull"@ =~= seq![':', 'p', 'u', 'l', 'l']);
    }
    let mut s = String::from_str(realm);
    s.append("?");
    if let Some(svc) = service {
        s.append("service=");
        s.append(svc);
        s.append("&");
    }
    s.append("scope=repository:");
    s.append(repository);
    s.append(":pull");
    s
}

/// The platform images run on.
pub open spec fn runnable_platform(arch: Seq<char>, os: Seq<char>) -> bool {
    arch == seq!['a', 'm', 'd', '6', '4'] && os == seq!['l', 'i', 'n', 'u', 'x']
}

/// Picks, from the architecture and OS of each entry of an image index, the
/// first that images run on (linux/amd64).
pub fn select_platform(platforms: &[(String, String)]) -> (r: Option<usize>)
    ensures
        match r {
            Some(i) => i < platforms@.len() && runnable_platform(platforms@[i as int].0@, platforms@[i as int].1@)
                && forall|j: int| 0 <= j < i ==> !runnable_platform(#[trigger] platforms@[j].0@, platforms@[j].1@),
            None => forall|j: int| 0 <= j < platforms@.len() ==> !runnable_platform(#[trigger] platforms@[j].0@, platforms@[j].1@),
        },
{
    proof {
        reveal_strlit("amd64");
        reveal_strlit("linux");
        assert("amd64"@ =~= seq!['a', 'm', 'd', '6', '4']);
        assert("linux"@ =~= seq!['l', 'i', 'n', 'u', 'x']);
    }
    let mut i: usize = 0;
    while i < platforms.len()
        invariant
            i <= platforms@.len(),
            "amd64"@ == seq!['a', 'm', 'd', '6', '4'],
            "linux"@ == seq!['l', 'i', 'n', 'u', 'x'],
            forall|j: int| 0 <= j < i ==> !runnable_platform(#[trigger] platforms@[j].0@, platforms@[j].1@),
        decreases platforms@.len() - i,
    {
        let (arch, os) = (&platforms[i].0, &platforms[i].1);
        if same_text(arch.as_str(), "amd64") && same_text(os.as_str(), "linux") {
            return Some(i);
        }
        i = i + 1;
    }
    None
}

/// The address of a manifest: `https://{registry}/v2/{repository}/manifests/{reference}`.
pub open spec fn manifest_address(registry: Seq<char>, repository: Seq<char>, reference: Seq<char>) -> Seq<char> {
    seq!['h', 't', 't', 'p', 's', ':', '/', '/'] + registry + seq!['/', 'v', '2', '/'] + repository
        + seq!['/', 'm', 'a', 'n', 'i', 'f', 'e', 's', 't', 's', '/'] + reference
}

/// The tag pulled when a reference names none.
pub open spec fn default_tag() -> Seq<char> {
    seq!['l', 'a', 't', 'e', 's', 't']
}

/// Builds the address of the manifest that `reference` (a tag or a
/// digest) names in a repository; the tag `latest` when none is given.
pub fn manifest_url(registry: &str, repository: &str, reference: Option<&str>) -> (r: String)
    ensures
        r@ == manifest_address(
            registry@,
            repository@,
            match reference {
                Some(t) => t@,
                None => default_tag(),
            },
        ),
{
    proof {
        reveal_strlit("https://");
        reveal_strlit("/v2/");
        reveal_strlit("/manifests/");
        reveal_strlit("latest");
        assert("https://"@ =~= seq!['h', 't', 't', 'p', 's', ':', '/', '/']);
        assert("/v2/"@ =~= seq!['/', 'v', '2', '/']);
        assert("/manifests/"@ =~= seq!['/', 'm', 'a', 'n', 'i', 'f', 'e', 's', 't', 's', '/']);
        assert("latest"@ =~= default_tag());
    }
    let mut s = String::from_str("https://");
    s.append(registry);
    s.append("/v2/");
    s.append(repository);
    s.append("/manifests/");
    match reference {
        Some(t) => s.append(t),
        None => s.append("latest"),
    }
    s
}

/// The address of a registry's API root: `https://{registry}/v2/`.
pub open spec fn registry_root(registry: Seq<char>) -> Seq<char> {
    seq!['h', 't', 't', 'p', 's', ':', '/', '/'] + registry + seq!['/', 'v', '2', '/']
}

/// Builds the address of a registry's API root, where the auth challenge
/// comes from.
pub fn registry_root_url(registry: &str) -> (r: String)
    ensures
        r@ == registry_root(registry@),
{
    proof {
        reveal_strlit("https://");
        reveal_strlit("/v2/");
        assert("https://"@ =~= seq!['h', 't', 't', 'p', 's', ':', '/', '/']);
        assert("/v2/"@ =~= seq!['/', 'v', '2', '/']);
    }
    let mut s = String::from_str("https://");
    s.append(registry);
    s.append("/v2/");
    s
}

} // verus!
