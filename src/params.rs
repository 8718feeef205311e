//! The parameters of a new workload, and the parsing of their user-facing
//! forms.
use vstd::prelude::*;
use crate::text::{
    all_digits, is_digit, parse_unsigned, split_once, split_once_of, trim_of, trimmed, unsigned_value,
};

verus! {

/// What a new workload is created with.
#[derive(Debug)]
pub struct RunInstanceParams {
    pub container_image: String,
    pub vcpu_count: u8,
    pub memory_mb: u32,
    pub args: Option<Vec<String>>,
    pub env: Option<Vec<(String, String)>>,
    pub name: Option<String>,
    pub network: Option<String>,
}

/// Why a memory size was refused.
#[derive(Clone, Copy, Debug, PartialEq, Eq, Structural)]
pub enum MemoryError {
    /// Nothing but whitespace was given.
    Empty,
    /// The text is not digits with an optional one-letter unit.
    NotANumber,
    /// The digits do not fit in 32 bits.
    InvalidNumber,
    /// The unit is neither `M` nor `G` (in either case).
    InvalidUnit(char),
    /// The size is outside 128M..=128G.
    OutOfRange,
}

/// The ASCII upper case of `c`.
pub open spec fn ascii_upper(c: char) -> char {
    if 'a' <= c && c <= 'z' {
        (((c as u32) - 32) as u8) as char
    } else {
        c
    }
}

/// The smallest and largest memory sizes, in megabytes.
pub const MIN_MEMORY_MB: u32 = 128;

pub const MAX_MEMORY_MB: u32 = 131072;

/// A size in megabytes, if it is in range.
pub open spec fn in_memory_range(mb: nat) -> Result<u32, MemoryError> {
    if MIN_MEMORY_MB <= mb <= MAX_MEMORY_MB {
        Ok(mb as u32)
    } else {
        Err(MemoryError::OutOfRange)
    }
}

/// The size that `num` digits in the given unit denote.
pub open spec fn scaled_memory(num: Seq<char>, unit: char) -> Result<u32, MemoryError> {
    match unsigned_value(num, u32::MAX as nat) {
        None => Err(MemoryError::InvalidNumber),
        Some(n) => if unit == 'M' {
            in_memory_range(n)
        } else if unit == 'G' {
            if n * 1024 > u32::MAX {
                Err(MemoryError::OutOfRange)
            } else {
                in_memory_range(n * 1024)
            }
        } else {
            Err(MemoryError::InvalidUnit(unit))
        },
    }
}

/// The memory size a trimmed text gives: digits, then optionally a unit
/// letter (`M` or `G`, in either case; `M` when none).
pub open spec fn memory_mb_of(t: Seq<char>) -> Result<u32, MemoryError> {
    if t.len() == 0 {
        Err(MemoryError::Empty)
    } else if !is_digit(t.last()) {
        if !all_digits(t.drop_last()) {
            Err(MemoryError::NotANumber)
        } else {
            scaled_memory(t.drop_last(), ascii_upper(t.last()))
        }
    } else if !all_digits(t) {
        Err(MemoryError::NotANumber)
    } else {
        scaled_memory(t, 'M')
    }
}

fn digits_only(s: &str) -> (r: bool)
    ensures
        r == all_digits(s@),
{
    let n = s.unicode_len();
    let mut i: usize = 0;
    while i < n
        invariant
            n == s@.len(),
            i <= n,
            forall|j: int| 0 <= j < i ==> is_digit(#[trigger] s@[j]),
        decreases n - i,
    {
        let c = s.get_char(i);
        if !('0' <= c && c <= '9') {
            return false;
        }
        i = i + 1;
    }
    true
}

fn scale_memory(num: &str, unit: char) -> (r: Result<u32, MemoryError>)
    ensures
        r == scaled_memory(num@, unit),
{
    let n = match parse_unsigned(num, 0xFFFF_FFFF) {
        Some(v) => v,
        None => {
            return Err(MemoryError::InvalidNumber);
        },
    };
    let mb: u64 = if unit == 'M' {
        n
    } else if unit == 'G' {
        if n * 1024 > 0xFFFF_FFFF {
            return Err(MemoryError::OutOfRange);
        }
        n * 1024
    } else {
        return Err(MemoryError::InvalidUnit(unit));
    };
    if 128 <= mb && mb <= 131072 {
        Ok(mb as u32)
    } else {
        Err(MemoryError::OutOfRange)
    }
}

/// Reads a memory size such as `512M`, `2g` or `1024` (megabytes) after
/// trimming whitespace; sizes run from 128M to 128G.
pub fn parse_memory_mb(s: &str) -> (r: Result<u32, MemoryError>)
    ensures
        r == memory_mb_of(trim_of(s@)),
{
    let t = trimmed(s);
    let n = t.as_str().unicode_len();
    if n == 0 {
        return Err(MemoryError::Empty);
    }
    let last = t.as_str().get_char(n - 1);
    if !('0' <= last && last <= '9') {
        let num = t.as_str().substring_char(0, n - 1);
        assert(num@ == t@.drop_last());
        if !digits_only(num) {
            return Err(MemoryError::NotANumber);
        }
        let unit = if 'a' <= last && last <= 'z' {
            (((last as u32) - 32) as u8) as char
        } else {
            last
        };
        scale_memory(num, unit)
    } else {
        if !digits_only(t.as_str()) {
            return Err(MemoryError::NotANumber);
        }
        scale_memory(t.as_str(), 'M')
    }
}

/// An environment variable given without `=`, by its position.
#[derive(Clone, Copy, Debug, PartialEq, Eq, Structural)]
pub struct EnvVarError {
    pub index: usize,
}

/// The pairs of `KEY=VALUE` texts, in order.
pub open spec fn env_pairs_match(vars: Seq<String>, pairs: Seq<(String, String)>) -> bool {
    &&& pairs.len() == vars.len()
    &&& forall|i: int|
        0 <= i < vars.len() ==> (#[trigger] split_once_of(vars[i]@, '=')) == Some(
            (pairs[i].0@, pairs[i].1@),
        )
}

/// Splits each `KEY=VALUE` text at its first `=`; fails at the first text
/// that holds none.
pub fn parse_env_vars(vars: Option<&[String]>) -> (r: Result<Option<Vec<(String, String)>>, EnvVarError>)
    ensures
        vars is None ==> r == Ok::<Option<Vec<(String, String)>>, EnvVarError>(None),
        vars matches Some(vs) ==> match r {
            Ok(Some(pairs)) => env_pairs_match(vs@, pairs@),
            Ok(None) => false,
            Err(e) => e.index < vs@.len() && split_once_of(vs@[e.index as int]@, '=') is None
                && forall|j: int| 0 <= j < e.index ==> (#[trigger] split_once_of(vs@[j]@, '=')) is Some,
        },
{
    let vs = match vars {
        Some(vs) => vs,
        None => {
            return Ok(None);
        },
    };
    let mut pairs: Vec<(String, String)> = Vec::new();
    let mut i: usize = 0;
    while i < vs.len()
        invariant
            vars == Some(vs),
            i <= vs@.len(),
            env_pairs_match(vs@.subrange(0, i as int), pairs@),
        decreases vs@.len() - i,
    {
        match split_once(vs[i].as_str(), '=') {
            Some(p) => {
                let ghost before = pairs@;
                pairs.push(p);
                assert forall|j: int| 0 <= j < i + 1 implies (#[trigger] split_once_of(
                    vs@.subrange(0, i + 1)[j]@,
                    '=',
                )) == Some((pairs@[j].0@, pairs@[j].1@)) by {
                    if j < i {
                        assert(vs@.subrange(0, i + 1)[j] == vs@.subrange(0, i as int)[j]);
                    }
                }
            },
            None => {
                assert forall|j: int| 0 <= j < i implies (#[trigger] split_once_of(vs@[j]@, '=')) is Some by {
                    assert(vs@.subrange(0, i as int)[j] == vs@[j]);
                }
                return Err(EnvVarError { index: i });
            },
        }
        i = i + 1;
    }
    assert(vs@.subrange(0, vs@.len() as int) == vs@);
    Ok(Some(pairs))
}

/// The address and network that a `[ip]@network` text names; without an
/// `@` the whole text is the network, and an empty address is none.
pub open spec fn network_join_of(s: Seq<char>) -> (Option<Seq<char>>, Seq<char>) {
    match split_once_of(s, '@') {
        None => (None, s),
        Some(parts) => (
            if parts.0.len() == 0 {
                None
            } else {
                Some(parts.0)
            },
            parts.1,
        ),
    }
}

/// Splits a `[ip]@network` join request into the optional address and the
/// network's id or name.
pub fn network_join(s: &str) -> (r: (Option<String>, String))
    ensures
        r.1@ == network_join_of(s@).1,
        match network_join_of(s@).0 {
            Some(ip) => r.0 matches Some(a) && a@ == ip,
            None => r.0 is None,
        },
{
    match split_once(s, '@') {
        None => (None, String::from_str(s)),
        Some((ip, network)) => {
            if ip.as_str().unicode_len() == 0 {
                (None, network)
            } else {
                (Some(ip), network)
            }
        },
    }
}

} // verus!
