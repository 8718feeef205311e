//! Declarations of workloads, as a declaration file holds them.
use vstd::prelude::*;
use std::collections::BTreeMap;
use crate::ids::{decimal, decimal_text};
use crate::text::{parse_unsigned, split_once, split_once_of, unsigned_value};

verus! {

/// The container a declared workload runs.
#[derive(Debug)]
pub struct InstanceContainerDeclaration {
    pub image: String,
    pub args: Option<Vec<String>>,
    pub envs: Option<BTreeMap<String, String>>,
}

/// How a declared workload is exposed as a service.
#[derive(Clone, Copy, Debug, PartialEq, Eq, Structural)]
pub enum InstanceServiceDeclaration {
    TCP(u16),
}

/// A port a workload listens on, with its protocol.
#[derive(Clone, Copy, Debug, PartialEq, Eq, Structural)]
pub enum Port {
    Tcp(u16),
    Udp(u16),
}

/// A declared workload.
#[derive(Debug)]
pub struct InstanceDeclaration {
    pub name: String,
    pub container: InstanceContainerDeclaration,
    pub ports: Vec<Port>,
    pub network: Option<String>,
    pub service: Option<InstanceServiceDeclaration>,
}

/// A declaration file: the workloads it declares.
#[derive(Debug)]
pub struct UnisrvFile {
    pub instances: Vec<InstanceDeclaration>,
}

/// Why a port text was refused.
#[derive(Clone, Copy, Debug, PartialEq, Eq, Structural)]
pub enum PortError {
    /// Neither a number nor `protocol:number`.
    InvalidFormat,
    /// The number after the protocol is not a port.
    InvalidPort,
    /// The protocol is neither `tcp` nor `udp`.
    UnknownProtocol,
}

/// The ASCII lower case of `c`.
pub open spec fn ascii_lower(c: char) -> char {
    if 'A' <= c && c <= 'Z' {
        (((c as u32) + 32) as u8) as char
    } else {
        c
    }
}

/// Whether `s`, in ASCII lower case, is `lit`.
pub open spec fn lower_is(s: Seq<char>, lit: Seq<char>) -> bool {
    s.len() == lit.len() && forall|i: int| 0 <= i < s.len() ==> ascii_lower(#[trigger] s[i]) == lit[i]
}

fn lower_equals(s: &str, lit: &str) -> (r: bool)
    ensures
        r == lower_is(s@, lit@),
{
    let n = s.unicode_len();
    if n != lit.unicode_len() {
        return false;
    }
    let mut i: usize = 0;
    while i < n
        invariant
            n == s@.len(),
            n == lit@.len(),
            i <= n,
            forall|j: int| 0 <= j < i ==> ascii_lower(#[trigger] s@[j]) == lit@[j],
        decreases n - i,
    {
        let c = s.get_char(i);
        let lower = if 'A' <= c && c <= 'Z' {
            (((c as u32) + 32) as u8) as char
        } else {
            c
        };
        if lower != lit.get_char(i) {
            return false;
        }
        i = i + 1;
    }
    true
}

/// The port a text gives: a bare number is TCP; else `protocol:number`
/// with the protocol `tcp` or `udp` in any case.
pub open spec fn port_of(s: Seq<char>) -> Result<Port, PortError> {
    match unsigned_value(s, 65535) {
        Some(p) => Ok(Port::Tcp(p as u16)),
        None => match split_once_of(s, ':') {
            None => Err(PortError::InvalidFormat),
            Some(pp) => match unsigned_value(pp.1, 65535) {
                None => Err(PortError::InvalidPort),
                Some(p) => if lower_is(pp.0, seq!['t', 'c', 'p']) {
                    Ok(Port::Tcp(p as u16))
                } else if lower_is(pp.0, seq!['u', 'd', 'p']) {
                    Ok(Port::Udp(p as u16))
                } else {
                    Err(PortError::UnknownProtocol)
                },
            },
        },
    }
}

/// The text form of a port: `tcp:N` or `udp:N`.
pub open spec fn port_text(p: Port) -> Seq<char> {
    match p {
        Port::Tcp(n) => seq!['t', 'c', 'p', ':'] + decimal(n as nat),
        Port::Udp(n) => seq!['u', 'd', 'p', ':'] + decimal(n as nat),
    }
}

impl Port {
    /// Reads a port from its text form, or from a bare number (TCP).
    pub fn parse(s: &str) -> (r: Result<Port, PortError>)
        ensures
            r == port_of(s@),
    {
        proof {
            reveal_strlit("tcp");
            reveal_strlit("udp");
            assert("tcp"@ =~= seq!['t', 'c', 'p']);
            assert("udp"@ =~= seq!['u', 'd', 'p']);
        }
        if let Some(p) = parse_unsigned(s, 65535) {
            return Ok(Port::Tcp(p as u16));
        }
        let (proto, number) = match split_once(s, ':') {
            Some(pp) => pp,
            None => {
                return Err(PortError::InvalidFormat);
            },
        };
        let p = match parse_unsigned(number.as_str(), 65535) {
            Some(p) => p as u16,
            None => {
                return Err(PortError::InvalidPort);
            },
        };
        if lower_equals(proto.as_str(), "tcp") {
            Ok(Port::Tcp(p))
        } else if lower_equals(proto.as_str(), "udp") {
            Ok(Port::Udp(p))
        } else {
            Err(PortError::UnknownProtocol)
        }
    }

    /// The text form of the port.
    pub fn text(&self) -> (r: String)
        ensures
            r@ == port_text(*self),
    {
        proof {
            reveal_strlit("tcp:");
            reveal_strlit("udp:");
            assert("tcp:"@ =~= seq!['t', 'c', 'p', ':']);
            assert("udp:"@ =~= seq!['u', 'd', 'p', ':']);
        }
        let (mut s, n) = match self {
            Port::Tcp(n) => (String::from_str("tcp:"), *n),
            Port::Udp(n) => (String::from_str("udp:"), *n),
        };
        let digits = decimal_text(n as usize);
        s.append(digits.as_str());
        s
    }
}

} // verus!
