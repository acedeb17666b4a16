//! The addresses a server can be bound to, and how the text that names one
//! is read: `unix://<name>` for an abstract UNIX domain socket,
//! `vsock://<cid>:<port>` for a VSOCK socket.

use crate::error::{Error, ErrorView};
use nix::sys::socket::UnixAddr;
use vstd::prelude::*;
use vstd::string::*;
use vstd::utf8::*;

verus! {

/// An address to bind a listening socket to.
#[derive(Clone, Debug, PartialEq, Eq)]
pub enum SocketAddress {
    /// An abstract UNIX domain socket: to the kernel its address is a NUL
    /// byte followed by the bytes of `name`.
    Unix { name: String },
    /// A VSOCK socket.
    Vsock { cid: u32, port: u32 },
}

/// What a `SocketAddress` holds, as mathematical values.
pub enum SocketAddressView {
    Unix { name: Seq<char> },
    Vsock { cid: u32, port: u32 },
}

impl View for SocketAddress {
    type V = SocketAddressView;

    open spec fn view(&self) -> SocketAddressView {
        match self {
            SocketAddress::Unix { name } => SocketAddressView::Unix { name: name@ },
            SocketAddress::Vsock { cid, port } => SocketAddressView::Vsock {
                cid: *cid,
                port: *port,
            },
        }
    }
}

/// The context id that stands for any address of the machine.
pub const VMADDR_CID_ANY: u32 = 0xFFFF_FFFF;

/// The longest name of an abstract socket, in bytes.
pub const UNIX_NAME_MAX: usize = 107;

/// Whether `c` is white space, as Unicode defines it.
pub open spec fn is_white_space(c: char) -> bool {
    let n = c as u32;
    ||| 0x09 <= n <= 0x0d
    ||| n == 0x20
    ||| n == 0x85
    ||| n == 0xa0
    ||| n == 0x1680
    ||| 0x2000 <= n <= 0x200a
    ||| n == 0x2028
    ||| n == 0x2029
    ||| n == 0x202f
    ||| n == 0x205f
    ||| n == 0x3000
}

/// `s` without the white space at its start.
pub open spec fn trim_start(s: Seq<char>) -> Seq<char>
    decreases s.len(),
{
    if s.len() > 0 && is_white_space(s[0]) {
        trim_start(s.drop_first())
    } else {
        s
    }
}

/// `s` without the white space at its end.
pub open spec fn trim_end(s: Seq<char>) -> Seq<char>
    decreases s.len(),
{
    if s.len() > 0 && is_white_space(s.last()) {
        trim_end(s.drop_last())
    } else {
        s
    }
}

/// `s` without the white space at either end.
pub open spec fn trimmed(s: Seq<char>) -> Seq<char> {
    trim_end(trim_start(s))
}

/// Where `pat` first stands in `s` at or after `from`.
pub open spec fn first_match(s: Seq<char>, pat: Seq<char>, from: nat) -> Option<nat>
    decreases s.len() - from,
{
    if from + pat.len() > s.len() {
        None
    } else if pat.len() == 0 || s.subrange(from as int, (from + pat.len()) as int) == pat {
        Some(from)
    } else {
        first_match(s, pat, from + 1)
    }
}

/// The two parts of `s` around `pat`, when `pat` stands in `s` once and not
/// again after that.
pub open spec fn split_in_two(s: Seq<char>, pat: Seq<char>) -> Option<(Seq<char>, Seq<char>)> {
    match first_match(s, pat, 0) {
        Some(i) => {
            let rest = s.subrange((i + pat.len()) as int, s.len() as int);
            if first_match(rest, pat, 0) is None {
                Some((s.subrange(0, i as int), rest))
            } else {
                None
            }
        },
        None => None,
    }
}

/// Whether `c` is one of the digits 0 to 9.
pub open spec fn is_digit(c: char) -> bool {
    0x30 <= c as u32 <= 0x39
}

/// The number that the digit `c` stands for.
pub open spec fn digit_value(c: char) -> nat {
    (c as u32 - 0x30) as nat
}

/// The number that the digits `s` write in base ten; `None` when `s` is
/// empty or holds anything but digits.
pub open spec fn digits_value(s: Seq<char>) -> Option<nat>
    decreases s.len(),
{
    if s.len() == 0 || !is_digit(s.last()) {
        None
    } else if s.len() == 1 {
        Some(digit_value(s.last()))
    } else {
        match digits_value(s.drop_last()) {
            Some(v) => Some(v * 10 + digit_value(s.last())),
            None => None,
        }
    }
}

/// The port that `s` writes: digits in base ten, after a plus sign or none,
/// for a number that fits in 32 bits.
pub open spec fn port_of(s: Seq<char>) -> Option<u32> {
    let digits = if s.len() > 0 && s[0] == '+' {
        s.drop_first()
    } else {
        s
    };
    match digits_value(digits) {
        Some(v) => if v <= u32::MAX {
            Some(v as u32)
        } else {
            None
        },
        None => None,
    }
}

/// The lower-case form of a text, as Unicode defines it.
pub uninterp spec fn lowercase(s: Seq<char>) -> Seq<char>;

/// Turns a text to lower case with `str::to_lowercase`. The contract claims
/// only that the result is a function of the text.
#[verifier::external_body]
fn to_lowercase(s: &str) -> (lower: String)
    ensures
        lower@ == lowercase(s@),
{
    s.to_lowercase()
}

/// Asks `nix::sys::socket::UnixAddr::new_abstract` whether it makes an
/// address of `name`. The contract claims that it does for every name that
/// leaves room for the leading NUL byte in the 108 bytes of a socket path.
#[verifier::external_body]
fn is_abstract_name(name: &[u8]) -> (fits: bool)
    ensures
        fits == (name@.len() <= UNIX_NAME_MAX),
{
    UnixAddr::new_abstract(name).is_ok()
}

/// The context id that stands for any address of the machine, from `libc`.
#[verifier::external_body]
fn vmaddr_cid_any() -> (cid: u32)
    ensures
        cid == VMADDR_CID_ANY,
{
    libc::VMADDR_CID_ANY
}

/// The text of the error for a second address.
pub open spec fn one_host_text() -> Seq<char> {
    "ttrpc-rust just support 1 host now"@
}

/// The text of the error for a host that is not a scheme and an address.
pub open spec fn bad_host_text(host: Seq<char>) -> Seq<char> {
    "Host "@ + host + " is not right"@
}

/// The text of the error for a VSOCK host that is not a context id and a
/// port.
pub open spec fn bad_vsock_text(host: Seq<char>) -> Seq<char> {
    "Host "@ + host + " is not right for vsock"@
}

/// The text of the error for a VSOCK port that is no number.
pub open spec fn bad_port_text() -> Seq<char> {
    "the vsock port is not an number"@
}

/// The text of the error for a scheme that is not known.
pub open spec fn bad_scheme_text(scheme: Seq<char>) -> Seq<char> {
    "Scheme "@ + scheme + " is not supported"@
}

/// The text of the error for a name that does not fit a socket path.
pub open spec fn long_name_text() -> Seq<char> {
    "socket name is too long"@
}

/// The address that a scheme, already in lower case, and what follows it
/// name; `host` is the text they were taken from, for the error. A UNIX name
/// has to fit a socket path; of a VSOCK address only the port is read, and
/// the context id is the one for any address.
pub open spec fn address_for(scheme: Seq<char>, rest: Seq<char>, host: Seq<char>) -> Result<
    SocketAddressView,
    ErrorView,
> {
    if scheme == "unix"@ {
        if encode_utf8(rest).len() <= UNIX_NAME_MAX {
            Ok(SocketAddressView::Unix { name: rest })
        } else {
            Err(ErrorView::Others(long_name_text()))
        }
    } else if scheme == "vsock"@ {
        match split_in_two(rest, ":"@) {
            None => Err(ErrorView::Others(bad_vsock_text(host))),
            Some((cid, port)) => match port_of(port) {
                Some(port) => Ok(SocketAddressView::Vsock { cid: VMADDR_CID_ANY, port }),
                None => Err(ErrorView::Others(bad_port_text())),
            },
        }
    } else {
        Err(ErrorView::Others(bad_scheme_text(scheme)))
    }
}

/// The address that `host` names: around it white space is dropped; what
/// stands before the one `://` is the scheme, in any case of letters; what
/// stands after it is the address in that scheme.
pub open spec fn host_address(host: Seq<char>) -> Result<SocketAddressView, ErrorView> {
    match split_in_two(trimmed(host), "://"@) {
        None => Err(ErrorView::Others(bad_host_text(host))),
        Some((scheme, rest)) => address_for(lowercase(scheme), rest, host),
    }
}

/// What the outcome of reading an address holds, as mathematical values.
pub open spec fn address_view(r: Result<SocketAddress, Error>) -> Result<
    SocketAddressView,
    ErrorView,
> {
    match r {
        Ok(a) => Ok(a@),
        Err(e) => Err(e@),
    }
}

/// A match that is found lies within the text.
pub proof fn lemma_first_match_bounds(s: Seq<char>, pat: Seq<char>, from: nat)
    ensures
        first_match(s, pat, from) matches Some(i) ==> from <= i && i + pat.len() <= s.len(),
    decreases s.len() - from,
{
    if from + pat.len() <= s.len() && pat.len() != 0 && s.subrange(
        from as int,
        (from + pat.len()) as int,
    ) != pat {
        lemma_first_match_bounds(s, pat, from + 1);
    }
}

/// Digits with anything else among them write no number.
pub proof fn lemma_digits_value_none(s: Seq<char>, k: int)
    requires
        0 <= k < s.len(),
        !is_digit(s[k]),
    ensures
        digits_value(s) is None,
    decreases s.len(),
{
    if k < s.len() - 1 && is_digit(s.last()) {
        lemma_digits_value_none(s.drop_last(), k);
    }
}

/// The digits at the start of a number write a number that is no greater.
pub proof fn lemma_digits_value_prefix(s: Seq<char>, k: int)
    requires
        1 <= k <= s.len(),
        digits_value(s) is Some,
    ensures
        digits_value(s.subrange(0, k)) matches Some(v) && v <= digits_value(s)->0,
    decreases s.len(),
{
    if k == s.len() {
        assert(s.subrange(0, k) =~= s);
    } else {
        assert(s.drop_last().subrange(0, k) =~= s.subrange(0, k));
        lemma_digits_value_prefix(s.drop_last(), k);
    }
}

/// Whether `c` is white space.
fn is_space(c: char) -> (b: bool)
    ensures
        b == is_white_space(c),
{
    let n: u32 = c as u32;
    (0x09 <= n && n <= 0x0d) || n == 0x20 || n == 0x85 || n == 0xa0 || n == 0x1680 || (0x2000 <= n
        && n <= 0x200a) || n == 0x2028 || n == 0x2029 || n == 0x202f || n == 0x205f || n == 0x3000
}

/// `s` without the white space at either end.
pub fn trim(s: &str) -> (t: &str)
    ensures
        t@ == trimmed(s@),
{
    let n = s.unicode_len();
    let mut start: usize = 0;
    assert(s@.subrange(0, n as int) =~= s@);
    while start < n && is_space(s.get_char(start))
        invariant
            start <= n,
            n == s@.len(),
            trim_start(s@) == trim_start(s@.subrange(start as int, n as int)),
        decreases n - start,
    {
        proof {
            let sub = s@.subrange(start as int, n as int);
            assert(sub[0] == s@[start as int]);
            assert(sub.drop_first() =~= s@.subrange(start + 1, n as int));
        }
        start = start + 1;
    }
    proof {
        let sub = s@.subrange(start as int, n as int);
        assert(s@.subrange(0, n as int) =~= s@);
        if start < n {
            assert(sub[0] == s@[start as int]);
        }
        assert(trim_start(s@) == sub);
    }
    let mut end: usize = n;
    while end > start && is_space(s.get_char(end - 1))
        invariant
            start <= end <= n,
            n == s@.len(),
            trim_end(s@.subrange(start as int, n as int)) == trim_end(
                s@.subrange(start as int, end as int),
            ),
        decreases end - start,
    {
        proof {
            let sub = s@.subrange(start as int, end as int);
            assert(sub.last() == s@[end - 1]);
            assert(sub.drop_last() =~= s@.subrange(start as int, end - 1));
        }
        end = end - 1;
    }
    proof {
        let sub = s@.subrange(start as int, end as int);
        if end > start {
            assert(sub.last() == s@[end - 1]);
        }
        assert(trim_end(sub) == sub);
    }
    s.substring_char(start, end)
}

/// Whether `pat`, of `m` characters, stands in `s`, of `n`, at `at`.
fn matches_here(s: &str, n: usize, pat: &str, m: usize, at: usize) -> (b: bool)
    requires
        n == s@.len(),
        m == pat@.len(),
        at + m <= n,
    ensures
        b == (s@.subrange(at as int, at + m) == pat@),
{
    let mut k: usize = 0;
    while k < m
        invariant
            k <= m,
            n == s@.len(),
            m == pat@.len(),
            at + m <= n,
            forall|j: int| 0 <= j < k ==> s@[at + j] == pat@[j],
        decreases m - k,
    {
        if s.get_char(at + k) != pat.get_char(k) {
            assert(s@.subrange(at as int, at + m)[k as int] == s@[at + k]);
            return false;
        }
        k = k + 1;
    }
    assert(s@.subrange(at as int, at + m) =~= pat@);
    true
}

/// Where `pat` first stands in `s` at or after `from`.
pub fn find(s: &str, pat: &str, from: usize) -> (r: Option<usize>)
    ensures
        match first_match(s@, pat@, from as nat) {
            Some(i) => r == Some(i as usize) && from <= i && i + pat@.len() <= s@.len(),
            None => r is None,
        },
{
    let n = s.unicode_len();
    let m = pat.unicode_len();
    proof {
        lemma_first_match_bounds(s@, pat@, from as nat);
    }
    if m > n || from > n - m {
        return None;
    }
    let last: usize = n - m;
    let mut i: usize = from;
    loop
        invariant
            from <= i <= last,
            last == n - m,
            m <= n,
            n == s@.len(),
            m == pat@.len(),
            first_match(s@, pat@, from as nat) == first_match(s@, pat@, i as nat),
        decreases last - i,
    {
        if matches_here(s, n, pat, m, i) {
            return Some(i);
        }
        assert(m > 0) by {
            if m == 0 {
                assert(s@.subrange(i as int, i + m) =~= pat@);
            }
        }
        if i == last {
            assert(first_match(s@, pat@, (i + 1) as nat) is None);
            return None;
        }
        i = i + 1;
    }
}

/// The two parts of `s` around `pat`, when `pat` stands in `s` once and not
/// again after that.
pub fn split_once_only<'a>(s: &'a str, pat: &str) -> (r: Option<(&'a str, &'a str)>)
    ensures
        match split_in_two(s@, pat@) {
            Some((before, after)) => r matches Some(parts) && parts.0@ == before && parts.1@
                == after,
            None => r is None,
        },
{
    let n = s.unicode_len();
    let m = pat.unicode_len();
    match find(s, pat, 0) {
        None => None,
        Some(i) => {
            let rest = s.substring_char(i + m, n);
            match find(rest, pat, 0) {
                None => Some((s.substring_char(0, i), rest)),
                Some(_) => None,
            }
        },
    }
}

/// The port that `s` writes, if it writes one.
pub fn parse_port(s: &str) -> (r: Option<u32>)
    ensures
        r == port_of(s@),
{
    let n = s.unicode_len();
    if n == 0 {
        return None;
    }
    let start: usize = if s.get_char(0) == '+' {
        1
    } else {
        0
    };
    let ghost digits = s@.subrange(start as int, n as int);
    proof {
        if start == 1 {
            assert(digits =~= s@.drop_first());
        } else {
            assert(digits =~= s@);
        }
    }
    if start == n {
        return None;
    }
    let mut acc: u64 = 0;
    let mut i: usize = start;
    while i < n
        invariant
            start <= i <= n,
            start < n,
            n == s@.len(),
            digits == s@.subrange(start as int, n as int),
            digits == if s@.len() > 0 && s@[0] == '+' {
                s@.drop_first()
            } else {
                s@
            },
            acc <= u32::MAX,
            i == start ==> acc == 0,
            i > start ==> digits_value(digits.subrange(0, i - start)) == Some(acc as nat),
        decreases n - i,
    {
        let c = s.get_char(i);
        let code: u32 = c as u32;
        assert(digits[i - start] == c);
        if code < 0x30 || code > 0x39 {
            proof {
                lemma_digits_value_none(digits, i - start);
            }
            return None;
        }
        let ghost shorter = digits.subrange(0, i - start);
        let ghost longer = digits.subrange(0, i - start + 1);
        proof {
            assert(longer.last() == c);
            assert(longer.drop_last() =~= shorter);
        }
        acc = acc * 10 + (code - 0x30) as u64;
        assert(digits_value(longer) == Some(acc as nat));
        if acc > u32::MAX as u64 {
            proof {
                if digits_value(digits) is Some {
                    lemma_digits_value_prefix(digits, i - start + 1);
                }
            }
            return None;
        }
        i = i + 1;
    }
    assert(digits.subrange(0, n - start) =~= digits);
    Some(acc as u32)
}

/// The address that a scheme, already in lower case, and what follows it
/// name; `host` is the text they were taken from, for the error.
pub fn address_of(scheme: &str, rest: &str, host: &str) -> (r: Result<SocketAddress, Error>)
    ensures
        address_view(r) == address_for(scheme@, rest@, host@),
{
    let scheme = String::from_str(scheme);
    if scheme == String::from_str("unix") {
        if is_abstract_name(rest.as_bytes()) {
            Ok(SocketAddress::Unix { name: String::from_str(rest) })
        } else {
            Err(Error::Others(String::from_str("socket name is too long")))
        }
    } else if scheme == String::from_str("vsock") {
        match split_once_only(rest, ":") {
            None => {
                let mut text = String::from_str("Host ");
                text.append(host);
                text.append(" is not right for vsock");
                Err(Error::Others(text))
            },
            Some((_, port)) => match parse_port(port) {
                Some(port) => Ok(SocketAddress::Vsock { cid: vmaddr_cid_any(), port }),
                None => Err(Error::Others(String::from_str("the vsock port is not an number"))),
            },
        }
    } else {
        let mut text = String::from_str("Scheme ");
        text.append(scheme.as_str());
        text.append(" is not supported");
        Err(Error::Others(text))
    }
}

/// The address that `host` names, or why it names none.
pub fn parse_host(host: &str) -> (r: Result<SocketAddress, Error>)
    ensures
        address_view(r) == host_address(host@),
{
    match split_once_only(trim(host), "://") {
        None => {
            let mut text = String::from_str("Host ");
            text.append(host);
            text.append(" is not right");
            Err(Error::Others(text))
        },
        Some((scheme, rest)) => {
            let lower = to_lowercase(scheme);
            address_of(lower.as_str(), rest, host)
        },
    }
}

} // verus!
