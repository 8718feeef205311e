//! The configuration of an HTTP service, and the request for a new network.
use vstd::prelude::*;
use crate::text::same_text;

verus! {

/// Where an HTTP location forwards to.
#[derive(Debug)]
pub enum HTTPLocationTarget {
    /// The service's own targets, optionally of one group.
    Instance { group: Option<String> },
    /// An outside URL.
    Url { url: String },
}

impl Default for HTTPLocationTarget {
    fn default() -> (r: HTTPLocationTarget)
        ensures
            r matches HTTPLocationTarget::Instance { group } && group is None,
    {
        HTTPLocationTarget::Instance { group: None }
    }
}

/// A path of an HTTP service and what serves it.
#[derive(Debug)]
pub struct HTTPLocation {
    pub path: String,
    pub override_404: Option<String>,
    pub target: HTTPLocationTarget,
}

/// The configuration of an HTTP service.
#[derive(Debug)]
pub struct HTTPServiceConfig {
    pub locations: Vec<HTTPLocation>,
    pub allow_http: bool,
}

/// The request for a new internal network.
#[derive(Debug)]
pub struct CreateInternalNetworkRequest {
    pub name: String,
    pub ipv4_cidr: String,
}

/// Why a location change was refused.
#[derive(Clone, Copy, Debug, PartialEq, Eq, Structural)]
pub enum LocationError {
    /// The target kind is none of `service`, `srv` and `url`.
    InvalidTargetType,
    /// A URL target was asked for without a URL.
    UrlRequired,
    /// A location with that path already exists.
    PathExists,
    /// No location has that path.
    PathNotFound,
}

/// Whether some location serves `path`.
pub open spec fn has_path(ls: Seq<HTTPLocation>, path: Seq<char>) -> bool {
    exists|i: int| 0 <= i < ls.len() && (#[trigger] ls[i]).path@ == path
}

/// The locations that do not serve `path`, in order.
pub open spec fn without_path(ls: Seq<HTTPLocation>, path: Seq<char>) -> Seq<HTTPLocation>
    decreases ls.len(),
{
    if ls.len() == 0 {
        seq![]
    } else if ls[0].path@ == path {
        without_path(ls.drop_first(), path)
    } else {
        seq![ls[0]] + without_path(ls.drop_first(), path)
    }
}

/// The target a kind (`service`/`srv` or `url`) and an optional value name:
/// for a service, its group, none when empty.
pub fn location_target(kind: &str, value: Option<&str>) -> (r: Result<HTTPLocationTarget, LocationError>)
    ensures
        (kind@ == seq!['s', 'e', 'r', 'v', 'i', 'c', 'e'] || kind@ == seq!['s', 'r', 'v']) ==> (r matches Ok(
            HTTPLocationTarget::Instance { group },
        ) && (match value {
            Some(v) if v@.len() > 0 => group matches Some(g) && g@ == v@,
            _ => group is None,
        })),
        kind@ == seq!['u', 'r', 'l'] ==> (match value {
            Some(v) => r matches Ok(HTTPLocationTarget::Url { url }) && url@ == v@,
            None => r == Err::<HTTPLocationTarget, LocationError>(LocationError::UrlRequired),
        }),
        kind@ != seq!['s', 'e', 'r', 'v', 'i', 'c', 'e'] && kind@ != seq!['s', 'r', 'v'] && kind@
            != seq!['u', 'r', 'l'] ==> r == Err::<HTTPLocationTarget, LocationError>(
            LocationError::InvalidTargetType,
        ),
{
    proof {
        reveal_strlit("service");
        reveal_strlit("srv");
        reveal_strlit("url");
        assert("service"@ =~= seq!['s', 'e', 'r', 'v', 'i', 'c', 'e']);
        assert("srv"@ =~= seq!['s', 'r', 'v']);
        assert("url"@ =~= seq!['u', 'r', 'l']);
    }
    if same_text(kind, "service") || same_text(kind, "srv") {
        let group = match value {
            Some(v) => if v.unicode_len() == 0 {
                None
            } else {
                Some(String::from_str(v))
            },
            None => None,
        };
        Ok(HTTPLocationTarget::Instance { group })
    } else if same_text(kind, "url") {
        match value {
            Some(v) => Ok(HTTPLocationTarget::Url { url: String::from_str(v) }),
            None => Err(LocationError::UrlRequired),
        }
    } else {
        Err(LocationError::InvalidTargetType)
    }
}

fn find_path(ls: &Vec<HTTPLocation>, path: &str) -> (r: bool)
    ensures
        r == has_path(ls@, path@),
{
    let mut i: usize = 0;
    while i < ls.len()
        invariant
            i <= ls@.len(),
            forall|j: int| 0 <= j < i ==> (#[trigger] ls@[j]).path@ != path@,
        decreases ls@.len() - i,
    {
        if same_text(ls[i].path.as_str(), path) {
            return true;
        }
        i = i + 1;
    }
    false
}

/// Adds a location to a service's configuration, unless one already
/// serves its path.
pub fn add_location(config: &mut HTTPServiceConfig, location: HTTPLocation) -> (r: Result<(), LocationError>)
    ensures
        has_path(old(config).locations@, location.path@) ==> r == Err::<(), LocationError>(
            LocationError::PathExists,
        ) && final(config).locations@ == old(config).locations@,
        !has_path(old(config).locations@, location.path@) ==> r is Ok && final(config).locations@
            == old(config).locations@.push(location),
        final(config).allow_http == old(config).allow_http,
{
    if find_path(&config.locations, location.path.as_str()) {
        return Err(LocationError::PathExists);
    }
    config.locations.push(location);
    Ok(())
}

proof fn lemma_without_path_split(ls: Seq<HTTPLocation>, k: int, path: Seq<char>)
    requires
        0 <= k < ls.len(),
    ensures
        without_path(ls.subrange(k, ls.len() as int), path) == (if ls[k].path@ == path {
            without_path(ls.subrange(k + 1, ls.len() as int), path)
        } else {
            seq![ls[k]] + without_path(ls.subrange(k + 1, ls.len() as int), path)
        }),
{
    assert(ls.subrange(k, ls.len() as int).drop_first() == ls.subrange(k + 1, ls.len() as int));
}

/// Removes every location that serves `path`; fails when none does.
pub fn delete_location(config: &mut HTTPServiceConfig, path: &str) -> (r: Result<(), LocationError>)
    ensures
        final(config).locations@ == without_path(old(config).locations@, path@),
        r is Ok <==> has_path(old(config).locations@, path@),
        r is Err ==> r == Err::<(), LocationError>(LocationError::PathNotFound),
        final(config).allow_http == old(config).allow_http,
{
    let ghost start = config.locations@;
    let ghost n = start.len() as int;
    let mut i: usize = 0;
    let ghost mut k: int = 0;
    let mut removed = false;
    assert(start.subrange(0, n) == start);
    while i < config.locations.len()
        invariant
            0 <= k <= n,
            n == start.len(),
            i as int <= k,
            config.locations@.len() == i + (n - k),
            config.locations@.subrange(i as int, config.locations@.len() as int) == start.subrange(k, n),
            forall|j: int| 0 <= j < i ==> (#[trigger] config.locations@[j]).path@ != path@,
            config.locations@.subrange(0, i as int) + without_path(start.subrange(k, n), path@)
                == without_path(start, path@),
            removed <==> exists|j: int| 0 <= j < k && (#[trigger] start[j]).path@ == path@,
            config.allow_http == old(config).allow_http,
        decreases n - k,
    {
        let ghost before = config.locations@;
        proof {
            lemma_without_path_split(start, k, path@);
            assert(before[i as int] == start[k]);
            assert(before.subrange(i + 1, before.len() as int) == before.subrange(i as int, before.len() as int).drop_first());
            assert(start.subrange(k + 1, n) == start.subrange(k, n).drop_first());
        }
        if same_text(config.locations[i].path.as_str(), path) {
            config.locations.remove(i);
            removed = true;
            proof {
                assert(config.locations@.subrange(0, i as int) == before.subrange(0, i as int));
                assert(config.locations@.subrange(i as int, config.locations@.len() as int) == before.subrange(
                    i + 1,
                    before.len() as int,
                ));
                k = k + 1;
            }
        } else {
            proof {
                let kept = before.subrange(0, i + 1);
                assert(kept == before.subrange(0, i as int).push(before[i as int]));
                assert(before.subrange(0, i as int) + (seq![start[k]] + without_path(start.subrange(k + 1, n), path@))
                    == kept + without_path(start.subrange(k + 1, n), path@));
                k = k + 1;
            }
            i = i + 1;
        }
    }
    proof {
        assert(k == n);
        assert(start.subrange(n, n).len() == 0);
        assert(config.locations@.subrange(0, i as int) == config.locations@);
        assert(without_path(start.subrange(n, n), path@) == Seq::<HTTPLocation>::empty());
        assert(config.locations@ + Seq::<HTTPLocation>::empty() == config.locations@);
    }
    if removed {
        Ok(())
    } else {
        Err(LocationError::PathNotFound)
    }
}

} // verus!
