//! Parsing of the endpoint a provider connects to: `tcp://host:port` or
//! `serial:<path>:<baud>`.

use vstd::prelude::*;
use vstd::string::StrSliceExecFns;

verus! {

/// Where the token listens.
#[derive(Debug, PartialEq, Eq)]
pub enum Endpoint {
    /// A TCP address, `host:port`.
    Tcp { address: String },
    /// A serial port and its baud rate.
    Serial { path: String, baud: u32 },
}

/// Why an endpoint could not be parsed.
#[derive(Debug, PartialEq, Eq)]
pub enum EndpointError {
    /// Neither `tcp://` nor `serial:` starts the endpoint.
    UnknownScheme { endpoint: String },
    /// A serial endpoint without a `:` before the baud rate.
    MissingBaud { rest: String },
    /// A baud rate that is not a decimal `u32`.
    InvalidBaud { baud: String },
}

/// `tcp://`
pub open spec fn tcp_scheme() -> Seq<char> {
    seq!['t', 'c', 'p', ':', '/', '/']
}

/// `serial:`
pub open spec fn serial_scheme() -> Seq<char> {
    seq!['s', 'e', 'r', 'i', 'a', 'l', ':']
}

/// `s` starts with `prefix`.
pub open spec fn starts_with(s: Seq<char>, prefix: Seq<char>) -> bool {
    prefix.len() <= s.len() && s.take(prefix.len() as int) == prefix
}

/// The position of the last `:` in `s`.
pub open spec fn last_colon(s: Seq<char>) -> Option<int>
    decreases s.len(),
{
    if s.len() == 0 {
        None
    } else if s.last() == ':' {
        Some(s.len() - 1)
    } else {
        last_colon(s.drop_last())
    }
}

/// The last `:` lies inside the string.
proof fn lemma_last_colon_bounds(s: Seq<char>)
    ensures
        last_colon(s) matches Some(k) ==> 0 <= k < s.len() && s[k] == ':',
    decreases s.len(),
{
    if s.len() > 0 && s.last() != ':' {
        lemma_last_colon_bounds(s.drop_last());
    }
}

/// A decimal digit.
pub open spec fn is_digit(c: char) -> bool {
    48 <= (c as u32) <= 57
}

/// The value of a string of decimal digits.
pub open spec fn digits_value(s: Seq<char>) -> int
    decreases s.len(),
{
    if s.len() == 0 {
        0
    } else {
        digits_value(s.drop_last()) * 10 + ((s.last() as u32) - 48)
    }
}

/// The `u32` that `s` spells as an optional `+` and one or more decimal
/// digits, as `str::parse::<u32>` reads it.
pub open spec fn parse_u32_spec(s: Seq<char>) -> Option<u32> {
    let digits = if s.len() > 0 && s[0] == '+' {
        s.skip(1)
    } else {
        s
    };
    parse_u32_of_digits(digits)
}

/// The value of `digits` where it is a non-empty string of decimal digits that fits a `u32`.
pub open spec fn parse_u32_of_digits(digits: Seq<char>) -> Option<u32> {
    if digits.len() > 0 && (forall|i: int| 0 <= i < digits.len() ==> is_digit(#[trigger] digits[i]))
        && digits_value(digits) <= u32::MAX {
        Some(digits_value(digits) as u32)
    } else {
        None
    }
}

/// A longer string of digits has at least the value of its prefix.
proof fn lemma_digits_value_grows(s: Seq<char>, k: int)
    requires
        0 <= k <= s.len(),
        forall|i: int| 0 <= i < s.len() ==> is_digit(#[trigger] s[i]),
    ensures
        digits_value(s.take(k)) <= digits_value(s),
        0 <= digits_value(s.take(k)),
    decreases s.len() - k,
{
    if k < s.len() {
        lemma_digits_value_grows(s, k + 1);
        assert(s.take(k + 1).drop_last() =~= s.take(k));
        assert(is_digit(s[k]));
    } else {
        assert(s.take(k) =~= s);
        lemma_digits_value_nonneg(s);
    }
}

proof fn lemma_digits_value_nonneg(s: Seq<char>)
    requires
        forall|i: int| 0 <= i < s.len() ==> is_digit(#[trigger] s[i]),
    ensures
        0 <= digits_value(s),
    decreases s.len(),
{
    if s.len() > 0 {
        assert(is_digit(s[s.len() - 1]));
        lemma_digits_value_nonneg(s.drop_last());
    }
}

/// Reads a decimal `u32` as `str::parse::<u32>` does.
pub fn parse_u32(s: &str) -> (r: Option<u32>)
    ensures
        r == parse_u32_spec(s@),
{
    let n = s.unicode_len();
    let start: usize = if n > 0 && s.get_char(0) == '+' { 1 } else { 0 };
    let ghost digits = if s@.len() > 0 && s@[0] == '+' { s@.skip(1) } else { s@ };
    assert(digits =~= s@.skip(start as int));
    if start == n {
        return None;
    }
    let mut value: u64 = 0;
    let mut i = start;
    while i < n
        invariant
            n == s@.len(),
            start <= i <= n,
            start < n,
            digits =~= s@.skip(start as int),
            digits == (if s@.len() > 0 && s@[0] == '+' { s@.skip(1) } else { s@ }),
            forall|j: int| 0 <= j < i - start ==> is_digit(#[trigger] digits[j]),
            value == digits_value(digits.take(i - start)),
            value <= u32::MAX,
        decreases n - i,
    {
        let c = s.get_char(i);
        let ghost k = i - start;
        let code = c as u32;
        assert(c == digits[k]);
        if code < 48 || code > 57 {
            assert(!is_digit(digits[k]));
            assert(!(forall|j: int| 0 <= j < digits.len() ==> is_digit(#[trigger] digits[j])));
            assert(parse_u32_spec(s@) == parse_u32_of_digits(digits));
            return None;
        }
        let d = (code - 48) as u64;
        assert(digits.take(k + 1).drop_last() =~= digits.take(k));
        value = value * 10 + d;
        if value > 0xffff_ffff {
            proof {
                assert forall|j: int| 0 <= j < k + 1 implies is_digit(#[trigger] digits[j]) by {}
                assert(digits_value(digits.take(k + 1)) > u32::MAX);
                if forall|j: int| 0 <= j < digits.len() ==> is_digit(#[trigger] digits[j]) {
                    lemma_digits_value_grows(digits, k + 1);
                }
            }
            return None;
        }
        i = i + 1;
    }
    assert(digits.take(n - start) =~= digits);
    Some(value as u32)
}


/// Whether `s` starts with `prefix`.
fn has_prefix(s: &str, prefix: &str) -> (r: bool)
    ensures
        r == starts_with(s@, prefix@),
{
    let n = s.unicode_len();
    let m = prefix.unicode_len();
    if m > n {
        return false;
    }
    let mut i: usize = 0;
    while i < m
        invariant
            n == s@.len(),
            m == prefix@.len(),
            m <= n,
            i <= m,
            forall|j: int| 0 <= j < i ==> s@[j] == prefix@[j],
        decreases m - i,
    {
        if s.get_char(i) != prefix.get_char(i) {
            assert(s@.take(m as int)[i as int] != prefix@[i as int]);
            return false;
        }
        i = i + 1;
    }
    assert(s@.take(m as int) =~= prefix@);
    true
}

/// The position of the last `:` in `s`, if any.
fn find_last_colon(s: &str) -> (r: Option<usize>)
    ensures
        r matches Some(k) ==> k < s@.len(),
        match last_colon(s@) {
            Some(k) => r == Some(k as usize),
            None => r is None,
        },
{
    let mut i = s.unicode_len();
    assert(s@.take(i as int) =~= s@);
    while i > 0
        invariant
            i <= s@.len(),
            last_colon(s@) == last_colon(s@.take(i as int)),
        decreases i,
    {
        let ghost t = s@.take(i as int);
        assert(t.drop_last() =~= s@.take(i - 1));
        if s.get_char(i - 1) == ':' {
            return Some(i - 1);
        }
        i = i - 1;
    }
    None
}

/// Parses an endpoint: `tcp://<address>` or `serial:<path>:<baud>`, where the
/// last `:` separates the path from the baud rate.
pub fn parse_endpoint(endpoint: &str) -> (r: Result<Endpoint, EndpointError>)
    ensures
        starts_with(endpoint@, tcp_scheme()) ==> (r matches Ok(Endpoint::Tcp { address })
            && address@ == endpoint@.skip(6)),
        !starts_with(endpoint@, tcp_scheme()) && starts_with(endpoint@, serial_scheme()) ==> {
            let rest = endpoint@.skip(7);
            match last_colon(rest) {
                None => r matches Err(EndpointError::MissingBaud { rest: x }) && x@ == rest,
                Some(k) => match parse_u32_spec(rest.skip(k + 1)) {
                    None => r matches Err(EndpointError::InvalidBaud { baud }) && baud@ == rest.skip(
                        k + 1,
                    ),
                    Some(b) => r matches Ok(Endpoint::Serial { path, baud }) && path@ == rest.take(
                        k,
                    ) && baud == b,
                },
            }
        },
        !starts_with(endpoint@, tcp_scheme()) && !starts_with(endpoint@, serial_scheme()) ==> (
        r matches Err(EndpointError::UnknownScheme { endpoint: e }) && e@ == endpoint@),
{
    proof {
        reveal_strlit("tcp://");
        reveal_strlit("serial:");
    }
    assert("tcp://"@ =~= tcp_scheme());
    assert("serial:"@ =~= serial_scheme());
    let n = endpoint.unicode_len();
    if has_prefix(endpoint, "tcp://") {
        let address = endpoint.substring_char(6, n).to_owned();
        return Ok(Endpoint::Tcp { address });
    }
    if has_prefix(endpoint, "serial:") {
        let rest = endpoint.substring_char(7, n);
        proof {
            lemma_last_colon_bounds(rest@);
        }
        match find_last_colon(rest) {
            None => Err(EndpointError::MissingBaud { rest: rest.to_owned() }),
            Some(k) => {
                let rn = rest.unicode_len();
                let baud_text = rest.substring_char(k + 1, rn);
                match parse_u32(baud_text) {
                    Some(baud) => {
                        let path = rest.substring_char(0, k).to_owned();
                        Ok(Endpoint::Serial { path, baud })
                    },
                    None => Err(EndpointError::InvalidBaud { baud: baud_text.to_owned() }),
                }
            },
        }
    } else {
        Err(EndpointError::UnknownScheme { endpoint: endpoint.to_owned() })
    }
}

} // verus!
