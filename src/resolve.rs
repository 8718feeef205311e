//! Resolution of a user-supplied identifier (full UUID, exact name, or unique
//! UUID prefix) against a list of resources.
use vstd::prelude::*;
use crate::ids::{hyphenated, parse_uuid, uuid_parse, uuid_text};
use crate::text::{hex_digit, is_hex_digit, is_prefix_of, same_text, starts_with};

verus! {

/// A resource that can be addressed by id, by name, or by an id prefix.
pub trait Identifiable {
    spec fn spec_id(&self) -> u128;

    spec fn spec_name(&self) -> Option<Seq<char>>;

    fn id(&self) -> (r: u128)
        ensures
            r == self.spec_id(),
    ;

    fn name(&self) -> (r: Option<&str>)
        ensures
            r is None <==> self.spec_name() is None,
            r matches Some(n) ==> self.spec_name() == Some(n@),
    ;
}

/// The kind of resource being resolved, for messages.
#[derive(Clone, Copy, Debug, PartialEq, Eq, Structural)]
pub enum EntityKind {
    Service,
    Workload,
    Target,
    Network,
    Host,
}

/// Why an identifier did not resolve.
#[derive(Clone, Copy, Debug, PartialEq, Eq, Structural)]
pub enum ResolveFailure {
    NotFound,
    Ambiguous { count: usize },
}

/// A failed resolution, with the kind of resource that was looked for.
#[derive(Clone, Copy, Debug, PartialEq, Eq, Structural)]
pub struct ResolveError {
    pub kind: EntityKind,
    pub failure: ResolveFailure,
}

/// The id and optional name of each item.
pub open spec fn entries<T: Identifiable>(items: Seq<T>) -> Seq<(u128, Option<Seq<char>>)> {
    items.map_values(|x: T| (x.spec_id(), x.spec_name()))
}

/// The ids of the entries whose name is `input`, in order.
pub open spec fn ids_named(es: Seq<(u128, Option<Seq<char>>)>, input: Seq<char>) -> Seq<u128>
    decreases es.len(),
{
    if es.len() == 0 {
        seq![]
    } else {
        let rest = ids_named(es.drop_last(), input);
        if es.last().1 == Some(input) {
            rest.push(es.last().0)
        } else {
            rest
        }
    }
}

/// The ids of the entries whose hyphenated text starts with `input`, in order.
pub open spec fn ids_with_prefix(es: Seq<(u128, Option<Seq<char>>)>, input: Seq<char>) -> Seq<u128>
    decreases es.len(),
{
    if es.len() == 0 {
        seq![]
    } else {
        let rest = ids_with_prefix(es.drop_last(), input);
        if is_prefix_of(input, hyphenated(es.last().0)) {
            rest.push(es.last().0)
        } else {
            rest
        }
    }
}

/// Whether `input` consists of hexadecimal digits and hyphens only.
pub open spec fn looks_like_id_prefix(input: Seq<char>) -> bool {
    forall|i: int| 0 <= i < input.len() ==> is_hex_digit(#[trigger] input[i]) || input[i] == '-'
}

/// The outcome of resolving `input`, where `parsed` is what reading it as a
/// full UUID gave.
pub open spec fn resolution(
    parsed: Option<u128>,
    input: Seq<char>,
    es: Seq<(u128, Option<Seq<char>>)>,
) -> Result<u128, ResolveFailure> {
    match parsed {
        Some(v) => Ok(v),
        None => {
            let named = ids_named(es, input);
            if named.len() == 1 {
                Ok(named[0])
            } else if looks_like_id_prefix(input) {
                let found = ids_with_prefix(es, input);
                if found.len() == 1 {
                    Ok(found[0])
                } else if found.len() == 0 {
                    Err(ResolveFailure::NotFound)
                } else {
                    Err(ResolveFailure::Ambiguous { count: found.len() as usize })
                }
            } else {
                Err(ResolveFailure::NotFound)
            }
        },
    }
}

/// The result of `resolution`, with the failure tagged by `kind`.
pub open spec fn tagged(r: Result<u128, ResolveFailure>, kind: EntityKind) -> Result<u128, ResolveError> {
    match r {
        Ok(v) => Ok(v),
        Err(f) => Err(ResolveError { kind, failure: f }),
    }
}

fn is_id_prefix_text(input: &str) -> (r: bool)
    ensures
        r == looks_like_id_prefix(input@),
{
    let n = input.unicode_len();
    let mut i: usize = 0;
    while i < n
        invariant
            n == input@.len(),
            i <= n,
            forall|j: int| 0 <= j < i ==> is_hex_digit(#[trigger] input@[j]) || input@[j] == '-',
        decreases n - i,
    {
        let c = input.get_char(i);
        if !(hex_digit(c) || c == '-') {
            return false;
        }
        i = i + 1;
    }
    true
}

fn collect_named<T: Identifiable>(input: &str, items: &[T]) -> (r: Vec<u128>)
    ensures
        r@ == ids_named(entries(items@), input@),
{
    let mut found: Vec<u128> = Vec::new();
    let mut i: usize = 0;
    while i < items.len()
        invariant
            i <= items@.len(),
            found@ == ids_named(entries(items@.subrange(0, i as int)), input@),
        decreases items@.len() - i,
    {
        let item = &items[i];
        let ghost before = items@.subrange(0, i as int);
        let ghost after = items@.subrange(0, i + 1);
        assert(entries(after).drop_last() == entries(before)) by {
            assert(after.drop_last() == before);
        }
        assert(entries(after).last() == (item.spec_id(), item.spec_name()));
        let matched = match item.name() {
            Some(n) => same_text(n, input),
            None => false,
        };
        if matched {
            found.push(item.id());
        }
        i = i + 1;
    }
    assert(items@.subrange(0, items@.len() as int) == items@);
    found
}

fn collect_prefixed<T: Identifiable>(input: &str, items: &[T]) -> (r: Vec<u128>)
    ensures
        r@ == ids_with_prefix(entries(items@), input@),
{
    let mut found: Vec<u128> = Vec::new();
    let mut i: usize = 0;
    while i < items.len()
        invariant
            i <= items@.len(),
            found@ == ids_with_prefix(entries(items@.subrange(0, i as int)), input@),
        decreases items@.len() - i,
    {
        let item = &items[i];
        let ghost before = items@.subrange(0, i as int);
        let ghost after = items@.subrange(0, i + 1);
        assert(entries(after).drop_last() == entries(before)) by {
            assert(after.drop_last() == before);
        }
        assert(entries(after).last() == (item.spec_id(), item.spec_name()));
        let id = item.id();
        let text = uuid_text(id);
        if starts_with(text.as_str(), input) {
            found.push(id);
        }
        i = i + 1;
    }
    assert(items@.subrange(0, items@.len() as int) == items@);
    found
}

/// Resolves `input` against `items`, given what reading `input` as a full
/// UUID gave: that value if there is one; else the single item named
/// `input`; else, for a text of hex digits and hyphens, the single item whose
/// id text starts with it.
pub fn resolve_parsed<T: Identifiable>(
    parsed: Option<u128>,
    input: &str,
    items: &[T],
    kind: EntityKind,
) -> (r: Result<u128, ResolveError>)
    ensures
        r == tagged(resolution(parsed, input@, entries(items@)), kind),
{
    if let Some(v) = parsed {
        return Ok(v);
    }
    let named = collect_named(input, items);
    if named.len() == 1 {
        return Ok(named[0]);
    }
    if !is_id_prefix_text(input) {
        return Err(ResolveError { kind, failure: ResolveFailure::NotFound });
    }
    let found = collect_prefixed(input, items);
    if found.len() == 1 {
        Ok(found[0])
    } else if found.len() == 0 {
        Err(ResolveError { kind, failure: ResolveFailure::NotFound })
    } else {
        Err(ResolveError { kind, failure: ResolveFailure::Ambiguous { count: found.len() } })
    }
}

/// Resolves a full UUID, an exact name, or a unique UUID prefix to an id.
pub fn resolve_id<T: Identifiable>(input: &str, items: &[T], kind: EntityKind) -> (r: Result<
    u128,
    ResolveError,
>)
    ensures
        r == tagged(resolution(uuid_parse(input@), input@, entries(items@)), kind),
{
    let parsed = parse_uuid(input);
    resolve_parsed(parsed, input, items, kind)
}

} // verus!
