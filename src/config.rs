//! Where the platform's API is reached.
use vstd::prelude::*;
use crate::text::{is_prefix_of, starts_with};

verus! {

/// The API host and whether it is reached over TLS.
#[derive(Debug)]
pub struct CliConfig {
    pub api_host: String,
    pub use_https: bool,
}

pub open spec fn http_prefix() -> Seq<char> {
    seq!['h', 't', 't', 'p', ':', '/', '/']
}

pub open spec fn https_prefix() -> Seq<char> {
    seq!['h', 't', 't', 'p', 's', ':', '/', '/']
}

/// `s` with every leading repetition of `p` removed.
pub open spec fn without_prefixes(s: Seq<char>, p: Seq<char>) -> Seq<char>
    decreases s.len(),
{
    if p.len() > 0 && is_prefix_of(p, s) {
        without_prefixes(s.subrange(p.len() as int, s.len() as int), p)
    } else {
        s
    }
}

/// The address `scheme://host{path}`.
pub open spec fn address(scheme: Seq<char>, host: Seq<char>, path: Seq<char>) -> Seq<char> {
    scheme + seq![':', '/', '/'] + host + path
}

fn strip_all<'a>(s: &'a str, p: &str) -> (r: &'a str)
    requires
        p@.len() > 0,
    ensures
        r@ == without_prefixes(s@, p@),
{
    let mut rest = s;
    let k = p.unicode_len();
    while starts_with(rest, p)
        invariant
            k == p@.len(),
            k > 0,
            without_prefixes(rest@, p@) == without_prefixes(s@, p@),
        decreases rest@.len(),
    {
        let m = rest.unicode_len();
        rest = rest.substring_char(k, m);
    }
    rest
}

impl CliConfig {
    /// Reads an API host, which may carry an `http://` (no TLS) or
    /// `https://` scheme; TLS is used unless plain HTTP is named.
    pub fn init(api_host: &str) -> (r: CliConfig)
        ensures
            is_prefix_of(http_prefix(), api_host@) ==> !r.use_https && r.api_host@ == without_prefixes(
                api_host@,
                http_prefix(),
            ),
            !is_prefix_of(http_prefix(), api_host@) && is_prefix_of(https_prefix(), api_host@)
                ==> r.use_https && r.api_host@ == without_prefixes(api_host@, https_prefix()),
            !is_prefix_of(http_prefix(), api_host@) && !is_prefix_of(https_prefix(), api_host@)
                ==> r.use_https && r.api_host@ == api_host@,
    {
        proof {
            reveal_strlit("http://");
            reveal_strlit("https://");
            assert("http://"@ =~= http_prefix());
            assert("https://"@ =~= https_prefix());
        }
        if starts_with(api_host, "http://") {
            CliConfig { api_host: String::from_str(strip_all(api_host, "http://")), use_https: false }
        } else if starts_with(api_host, "https://") {
            CliConfig { api_host: String::from_str(strip_all(api_host, "https://")), use_https: true }
        } else {
            CliConfig { api_host: String::from_str(api_host), use_https: true }
        }
    }

    fn joined(&self, scheme: &str, path: &str) -> (r: String)
        ensures
            r@ == address(scheme@, self.api_host@, path@),
    {
        proof {
            reveal_strlit("://");
            assert("://"@ =~= seq![':', '/', '/']);
        }
        let mut s = String::from_str(scheme);
        s.append("://");
        s.append(self.api_host.as_str());
        s.append(path);
        s
    }

    /// The HTTP address of an API path.
    pub fn url(&self, path: &str) -> (r: String)
        ensures
            r@ == address(
                if self.use_https {
                    seq!['h', 't', 't', 'p', 's']
                } else {
                    seq!['h', 't', 't', 'p']
                },
                self.api_host@,
                path@,
            ),
    {
        proof {
            reveal_strlit("https");
            reveal_strlit("http");
            assert("https"@ =~= seq!['h', 't', 't', 'p', 's']);
            assert("http"@ =~= seq!['h', 't', 't', 'p']);
        }
        if self.use_https {
            self.joined("https", path)
        } else {
            self.joined("http", path)
        }
    }

    /// The WebSocket address of an API path.
    pub fn ws_url(&self, path: &str) -> (r: String)
        ensures
            r@ == address(
                if self.use_https {
                    seq!['w', 's', 's']
                } else {
                    seq!['w', 's']
                },
                self.api_host@,
                path@,
            ),
    {
        proof {
            reveal_strlit("wss");
            reveal_strlit("ws");
            assert("wss"@ =~= seq!['w', 's', 's']);
            assert("ws"@ =~= seq!['w', 's']);
        }
        if self.use_https {
            self.joined("wss", path)
        } else {
            self.joined("ws", path)
        }
    }
}

} // verus!
