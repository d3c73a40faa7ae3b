//! `host:port` addresses and decimal port numbers.
use vstd::prelude::*;

verus! {

/// A resolved (address, port) pair that a remote session is opened to.
pub struct ExecutionTarget {
    pub host: String,
    pub port: u16,
}

/// Why an address or a port could not be understood.
#[derive(Debug, Clone, Copy, PartialEq, Eq, Structural)]
pub enum AddressError {
    /// The text holds no `:` separating host from port.
    MissingColon,
    /// The port is not a decimal number in `0..=65535`.
    InvalidPort,
}

pub open spec fn is_digit(c: char) -> bool {
    '0' <= c && c <= '9'
}

pub open spec fn digit_value(c: char) -> nat {
    (c as nat - '0' as nat) as nat
}

pub open spec fn all_digits(s: Seq<char>) -> bool {
    forall|i: int| 0 <= i < s.len() ==> is_digit(#[trigger] s[i])
}

/// The number written by a string of decimal digits.
pub open spec fn decimal_value(s: Seq<char>) -> nat
    decreases s.len(),
{
    if s.len() == 0 {
        0
    } else {
        decimal_value(s.drop_last()) * 10 + digit_value(s.last())
    }
}

/// The port that `s` denotes: one or more decimal digits, at most 65535.
pub open spec fn port_of(s: Seq<char>) -> Option<u16> {
    if s.len() > 0 && all_digits(s) && decimal_value(s) <= 65535 {
        Some(decimal_value(s) as u16)
    } else {
        None
    }
}

/// Reads a port number written in decimal.
pub fn parse_port(s: &str) -> (r: Option<u16>)
    ensures
        r == port_of(s@),
{
    let n = s.unicode_len();
    if n == 0 {
        return None;
    }
    // `v` is the value read so far, held at 65536 once it exceeds a port.
    let mut v: u32 = 0;
    let mut i: usize = 0;
    while i < n
        invariant
            n == s@.len(),
            i <= n,
            all_digits(s@.subrange(0, i as int)),
            v as nat == if decimal_value(s@.subrange(0, i as int)) <= 65535 {
                decimal_value(s@.subrange(0, i as int))
            } else {
                65536
            },
        decreases n - i,
    {
        let c = s.get_char(i);
        if !('0' <= c && c <= '9') {
            assert(!all_digits(s@)) by {
                assert(!is_digit(s@[i as int]));
            }
            return None;
        }
        let d: u32 = (c as u32) - ('0' as u32);
        let ghost pre = s@.subrange(0, i as int);
        let ghost next = s@.subrange(0, i as int + 1);
        assert(next.drop_last() =~= pre);
        assert(next.last() == c);
        assert(all_digits(next)) by {
            assert forall|j: int| 0 <= j < next.len() implies is_digit(#[trigger] next[j]) by {
                if j < i {
                    assert(next[j] == pre[j]);
                }
            }
        }
        if v == 65536 {
            assert(decimal_value(next) >= decimal_value(pre));
        } else {
            let w: u32 = v * 10 + d;
            v = if w > 65535 {
                65536
            } else {
                w
            };
        }
        i = i + 1;
    }
    assert(s@.subrange(0, n as int) =~= s@);
    if v == 65536 {
        None
    } else {
        Some(v as u16)
    }
}

/// Whether `c` occurs in `s`.
pub open spec fn has_char(s: Seq<char>, c: char) -> bool {
    exists|i: int| 0 <= i < s.len() && s[i] == c
}

/// Splits `input` at its first `:` into host and port text.
pub fn split_ip_port(input: &str) -> (r: Option<(String, String)>)
    ensures
        r is None <==> !has_char(input@, ':'),
        r matches Some((h, p)) ==> h@ + seq![':'] + p@ == input@ && !has_char(h@, ':'),
{
    let n = input.unicode_len();
    let mut i: usize = 0;
    while i < n
        invariant
            n == input@.len(),
            i <= n,
            forall|j: int| 0 <= j < i ==> input@[j] != ':',
        decreases n - i,
    {
        if input.get_char(i) == ':' {
            let host = String::from_str(input.substring_char(0, i));
            let port = String::from_str(input.substring_char(i + 1, n));
            assert(host@ + seq![':'] + port@ =~= input@);
            assert(!has_char(host@, ':')) by {
                if has_char(host@, ':') {
                    let j = choose|j: int| 0 <= j < host@.len() && host@[j] == ':';
                    assert(input@[j] == ':');
                }
            }
            return Some((host, port));
        }
        i = i + 1;
    }
    None
}

/// The target that `host:port` text denotes: the host is the text before the
/// first `:`, the port the decimal number after it.
pub open spec fn address_of(s: Seq<char>) -> Result<(Seq<char>, u16), AddressError> {
    if !has_char(s, ':') {
        Err(AddressError::MissingColon)
    } else {
        let k = choose|k: int| 0 <= k < s.len() && s[k] == ':' && !has_char(s.subrange(0, k), ':');
        match port_of(s.subrange(k + 1, s.len() as int)) {
            Some(p) => Ok((s.subrange(0, k), p)),
            None => Err(AddressError::InvalidPort),
        }
    }
}

/// Parses an operator-supplied `host:port` address into one target.
pub fn parse_address(addr: &str) -> (r: Result<ExecutionTarget, AddressError>)
    ensures
        match (r, address_of(addr@)) {
            (Ok(t), Ok((h, p))) => t.host@ == h && t.port == p,
            (Err(e), Err(f)) => e == f,
            _ => false,
        },
{
    match split_ip_port(addr) {
        None => Err(AddressError::MissingColon),
        Some((host, port_text)) => {
            let ghost s = addr@;
            let ghost k = host@.len() as int;
            proof {
                assert(s[k] == ':');
                assert(s.subrange(0, k) =~= host@);
                assert(s.subrange(k + 1, s.len() as int) =~= port_text@);
                let k2 = choose|k2: int|
                    0 <= k2 < s.len() && s[k2] == ':' && !has_char(s.subrange(0, k2), ':');
                if k2 < k {
                    assert(host@[k2] == ':');
                } else if k < k2 {
                    assert(s.subrange(0, k2)[k] == ':');
                }
            }
            match parse_port(port_text.as_str()) {
                Some(port) => Ok(ExecutionTarget { host, port }),
                None => Err(AddressError::InvalidPort),
            }
        },
    }
}

} // verus!
