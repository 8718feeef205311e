//! Host names of HTTP services on the platform's own domain.
use vstd::prelude::*;
use crate::text::{ends_with, is_suffix_of};

verus! {

/// The platform's domain, with its leading dot.
pub open spec fn platform_suffix() -> Seq<char> {
    seq!['.', 'u', 'n', 'i', 's', 'r', 'v', '.', 'd', 'e', 'v']
}

/// Whether `c` has Unicode's Alphabetic property, as `char::is_alphabetic` reads it.
pub uninterp spec fn alphabetic(c: char) -> bool;

/// Whether `c` is numeric, as `char::is_numeric` reads it.
pub uninterp spec fn numeric(c: char) -> bool;

/// Relies on `char::is_alphabetic`.
#[verifier::external_body]
fn is_alphabetic(c: char) -> (r: bool)
    ensures
        r == alphabetic(c),
{
    c.is_alphabetic()
}

/// Relies on `char::is_numeric`.
#[verifier::external_body]
fn is_numeric(c: char) -> (r: bool)
    ensures
        r == numeric(c),
{
    c.is_numeric()
}

/// `s` with every trailing repetition of `suffix` removed.
pub open spec fn strip_suffixes(s: Seq<char>, suffix: Seq<char>) -> Seq<char>
    decreases s.len(),
{
    if suffix.len() > 0 && is_suffix_of(suffix, s) {
        strip_suffixes(s.subrange(0, s.len() - suffix.len()), suffix)
    } else {
        s
    }
}

/// Whether some character of `host` is a dot, or fails to be both
/// alphabetic and numeric.
pub open spec fn refused_host(host: Seq<char>) -> bool {
    exists|i: int|
        0 <= i < host.len() && (host[i] == '.' || !alphabetic(#[trigger] host[i]) || !numeric(host[i]))
}

/// Why a host was refused.
#[derive(Clone, Copy, Debug, PartialEq, Eq, Structural)]
pub enum DomainError {
    /// Only a single label on the platform's domain is accepted.
    InvalidHost,
}

/// The full host and the subdomain label that `host` stands for.
pub open spec fn domain_of(host: Seq<char>) -> Result<(Seq<char>, Seq<char>), DomainError> {
    if is_suffix_of(platform_suffix(), host) {
        Ok((host, strip_suffixes(host, platform_suffix())))
    } else if refused_host(host) {
        Err(DomainError::InvalidHost)
    } else {
        Ok((host + platform_suffix(), host))
    }
}

/// Takes a host on the platform's domain as it is, and a single label to
/// the host under that domain; refuses anything else.
pub fn as_domain(host: &str) -> (r: Result<(String, String), DomainError>)
    ensures
        match domain_of(host@) {
            Ok(p) => r matches Ok(q) && q.0@ == p.0 && q.1@ == p.1,
            Err(e) => r == Err::<(String, String), DomainError>(e),
        },
{
    proof {
        reveal_strlit(".unisrv.dev");
        assert(".unisrv.dev"@ =~= platform_suffix());
    }
    let suffix = ".unisrv.dev";
    if ends_with(host, suffix) {
        let mut rest = host;
        let k = suffix.unicode_len();
        while ends_with(rest, suffix)
            invariant
                suffix@ == platform_suffix(),
                k == 11,
                strip_suffixes(rest@, platform_suffix()) == strip_suffixes(host@, platform_suffix()),
            decreases rest@.len(),
        {
            let m = rest.unicode_len();
            rest = rest.substring_char(0, m - k);
        }
        return Ok((String::from_str(host), String::from_str(rest)));
    }
    let n = host.unicode_len();
    let mut i: usize = 0;
    while i < n
        invariant
            n == host@.len(),
            i <= n,
            !is_suffix_of(platform_suffix(), host@),
            forall|j: int|
                0 <= j < i ==> !((#[trigger] host@[j]) == '.' || !alphabetic(host@[j]) || !numeric(
                    host@[j],
                )),
        decreases n - i,
    {
        let c = host.get_char(i);
        if c == '.' || !is_alphabetic(c) || !is_numeric(c) {
            assert(refused_host(host@)) by {
                assert(host@[i as int] == '.' || !alphabetic(host@[i as int]) || !numeric(
                    host@[i as int],
                ));
            }
            return Err(DomainError::InvalidHost);
        }
        i = i + 1;
    }
    let mut full = String::from_str(host);
    full.append(suffix);
    Ok((full, String::from_str(host)))
}

} // verus!
