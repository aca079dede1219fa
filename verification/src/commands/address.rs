//! Which address a server is asked at.
//!
//! A server reports its address as text: a literal address, a host name, or
//! the loopback name, for which the hoster's own address stands in. Parsing a
//! literal and asking the name resolver are left to the caller; what is
//! decided on their answers is decided here.

use crate::text::{chars_of, string_of};
use vstd::prelude::*;

verus! {

/// An internet address, by its parts.
#[derive(Debug, Clone, Copy, PartialEq, Eq)]
pub enum IpAddress {
    /// The four octets of an IPv4 address.
    V4([u8; 4]),
    /// The eight segments of an IPv6 address.
    V6([u16; 8]),
}

impl IpAddress {
    /// The address that stands for "any": `0.0.0.0` or `::`.
    pub open spec fn unspecified(self) -> bool {
        match self {
            IpAddress::V4(octets) => forall|i: int| 0 <= i < 4 ==> octets[i] == 0,
            IpAddress::V6(segments) => forall|i: int| 0 <= i < 8 ==> segments[i] == 0,
        }
    }

    /// Whether this is the address that stands for "any".
    pub fn is_unspecified(&self) -> (any: bool)
        ensures
            any == self.unspecified(),
    {
        match self {
            IpAddress::V4(octets) => {
                octets[0] == 0 && octets[1] == 0 && octets[2] == 0 && octets[3] == 0
            },
            IpAddress::V6(segments) => {
                segments[0] == 0 && segments[1] == 0 && segments[2] == 0 && segments[3] == 0
                    && segments[4] == 0 && segments[5] == 0 && segments[6] == 0 && segments[7]
                    == 0
            },
        }
    }
}

/// Why no address was found.
#[derive(Debug, Clone, Copy, PartialEq, Eq)]
pub enum AddressError {
    /// Invalid address: nothing is left of the text once it is trimmed.
    Empty,
    /// Invalid address: the text names the address that stands for "any".
    Unspecified(IpAddress),
    /// Invalid address: the web-front URL has no host before its port.
    Unparsable,
    /// The name resolver knows no address for the text.
    Unresolved,
}

impl AddressError {
    /// The errors that say that the text itself is no usable address.
    pub open spec fn invalid_address(self) -> bool {
        !(self is Unresolved)
    }

    /// Whether the text itself is no usable address.
    pub fn is_invalid_address(&self) -> (invalid: bool)
        ensures
            invalid == self.invalid_address(),
    {
        match self {
            AddressError::Unresolved => false,
            _ => true,
        }
    }

    /// What the error says. The any-address is written as its family writes
    /// it: `0.0.0.0` or `::`.
    pub open spec fn message_of(self) -> Seq<char> {
        match self {
            AddressError::Empty => "Ip can not be empty"@,
            AddressError::Unspecified(IpAddress::V4(_)) => "Addr: 0.0.0.0, is not valid"@,
            AddressError::Unspecified(IpAddress::V6(_)) => "Addr: ::, is not valid"@,
            AddressError::Unparsable => "Failed to parse ip"@,
            AddressError::Unresolved => "Hostname could not be resolved"@,
        }
    }

    /// What the error says, for the log.
    pub fn message(&self) -> (message: &'static str)
        ensures
            message@ == self.message_of(),
    {
        match self {
            AddressError::Empty => "Ip can not be empty",
            AddressError::Unspecified(IpAddress::V4(_)) => "Addr: 0.0.0.0, is not valid",
            AddressError::Unspecified(IpAddress::V6(_)) => "Addr: ::, is not valid",
            AddressError::Unparsable => "Failed to parse ip",
            AddressError::Unresolved => "Hostname could not be resolved",
        }
    }
}

/// What the system says of a text that may name an address. The literal is
/// tried first, on the text that [`literal_candidate`] gives and then on the
/// text that [`name_candidate`] gives; the name resolver is asked last, for
/// the text that [`name_candidate`] gives.
#[derive(Debug, Clone, Copy, PartialEq, Eq)]
pub enum Probe {
    /// The text is this literal address.
    Literal(IpAddress),
    /// The text is no literal; the name resolver gave this address first, or
    /// none at all.
    Name(Option<IpAddress>),
}

/// `text` without the `c`s at its start.
pub open spec fn trim_start_of(text: Seq<char>, c: char) -> Seq<char>
    decreases text.len(),
{
    if text.len() > 0 && text[0] == c {
        trim_start_of(text.skip(1), c)
    } else {
        text
    }
}

/// `text` without the `c`s at its end.
pub open spec fn trim_end_of(text: Seq<char>, c: char) -> Seq<char>
    decreases text.len(),
{
    if text.len() > 0 && text.last() == c {
        trim_end_of(text.drop_last(), c)
    } else {
        text
    }
}

/// `text` without the `c`s at its two ends.
pub open spec fn trim_both(text: Seq<char>, c: char) -> Seq<char> {
    trim_end_of(trim_start_of(text, c), c)
}

/// The text in which a literal address is looked for first: `input` as it
/// is written, without the slashes at its two ends. A literal that begins
/// or ends with colons keeps them.
pub open spec fn literal_text(input: Seq<char>) -> Seq<char> {
    trim_both(input, '/')
}

/// The text that may name a host: `input` without the slashes, and then
/// without the colons, at its two ends.
pub open spec fn name_text(input: Seq<char>) -> Seq<char> {
    trim_both(literal_text(input), ':')
}

/// The address that `input` names, given what the system says of it.
///
/// A literal address is taken as it is written, but for the address that
/// stands for "any", which is invalid. A name stands for the first address
/// that the resolver gave. A text of which nothing is left is invalid.
pub open spec fn resolved_address(input: Seq<char>, probe: Probe) -> Result<
    IpAddress,
    AddressError,
> {
    match probe {
        Probe::Literal(ip) => if literal_text(input).len() == 0 {
            Err(AddressError::Empty)
        } else if ip.unspecified() {
            Err(AddressError::Unspecified(ip))
        } else {
            Ok(ip)
        },
        Probe::Name(answer) => if name_text(input).len() == 0 {
            Err(AddressError::Empty)
        } else {
            match answer {
                Some(ip) => Ok(ip),
                None => Err(AddressError::Unresolved),
            }
        },
    }
}

/// The bounds of `chars[lo..hi]` without the `c`s at its two ends.
fn trim_range(chars: &Vec<char>, lo: usize, hi: usize, c: char) -> (r: (usize, usize))
    requires
        lo <= hi <= chars.len(),
    ensures
        lo <= r.0 <= r.1 <= hi,
        chars@.subrange(r.0 as int, r.1 as int) == trim_both(
            chars@.subrange(lo as int, hi as int),
            c,
        ),
{
    let mut from: usize = lo;
    while from < hi && chars[from] == c
        invariant
            lo <= from <= hi <= chars.len(),
            trim_start_of(chars@.subrange(lo as int, hi as int), c) == trim_start_of(
                chars@.subrange(from as int, hi as int),
                c,
            ),
        decreases hi - from,
    {
        assert(chars@.subrange(from as int, hi as int).skip(1) == chars@.subrange(
            from + 1,
            hi as int,
        ));
        from += 1;
    }
    let mut to: usize = hi;
    while from < to && chars[to - 1] == c
        invariant
            from <= to <= hi <= chars.len(),
            trim_end_of(chars@.subrange(from as int, hi as int), c) == trim_end_of(
                chars@.subrange(from as int, to as int),
                c,
            ),
        decreases to - from,
    {
        assert(chars@.subrange(from as int, to as int).drop_last() == chars@.subrange(
            from as int,
            to - 1,
        ));
        to -= 1;
    }
    (from, to)
}

/// The text in which a literal address is looked for first: `input`
/// without the slashes at its two ends, or nothing where nothing is left.
pub fn literal_candidate(input: &str) -> (candidate: Option<String>)
    ensures
        candidate is None <==> literal_text(input@).len() == 0,
        candidate matches Some(text) ==> text@ == literal_text(input@),
{
    let chars = chars_of(input);
    assert(chars@.subrange(0, chars.len() as int) == chars@);
    let (from, to) = trim_range(&chars, 0, chars.len(), '/');
    if from == to {
        None
    } else {
        Some(string_of(&chars, from, to))
    }
}

/// The text that the name resolver is asked about, and in which a literal
/// address is looked for second: `input` without the slashes, and then
/// without the colons, at its two ends, or nothing where nothing is left.
pub fn name_candidate(input: &str) -> (candidate: Option<String>)
    ensures
        candidate is None <==> name_text(input@).len() == 0,
        candidate matches Some(text) ==> text@ == name_text(input@),
{
    let chars = chars_of(input);
    assert(chars@.subrange(0, chars.len() as int) == chars@);
    let (from, to) = trim_range(&chars, 0, chars.len(), '/');
    let (from, to) = trim_range(&chars, from, to, ':');
    if from == to {
        None
    } else {
        Some(string_of(&chars, from, to))
    }
}

/// The address that `input` names. `probe` is what the system says of the
/// texts that [`literal_candidate`] and [`name_candidate`] give for
/// `input`.
///
/// A text of which nothing is left and the address that stands for "any"
/// are invalid addresses. A literal address is taken as it is written, a
/// name stands for the first address that the resolver gave.
pub fn resolve_address(input: &str, probe: Probe) -> (address: Result<IpAddress, AddressError>)
    ensures
        address == resolved_address(input@, probe),
{
    match probe {
        Probe::Literal(ip) => {
            if literal_candidate(input).is_none() {
                Err(AddressError::Empty)
            } else if ip.is_unspecified() {
                Err(AddressError::Unspecified(ip))
            } else {
                Ok(ip)
            }
        },
        Probe::Name(answer) => {
            if name_candidate(input).is_none() {
                Err(AddressError::Empty)
            } else {
                match answer {
                    Some(ip) => Ok(ip),
                    None => Err(AddressError::Unresolved),
                }
            }
        },
    }
}

/// Where the first `//` of `url` stands, looking from `from` on.
pub open spec fn scheme_separator(url: Seq<char>, from: int) -> Option<int>
    decreases url.len() - from,
{
    if from < 0 || from + 1 >= url.len() {
        None
    } else if url[from] == '/' && url[from + 1] == '/' {
        Some(from)
    } else {
        scheme_separator(url, from + 1)
    }
}

/// Where the last `:` of `text` stands.
pub open spec fn port_separator(text: Seq<char>) -> Option<int>
    decreases text.len(),
{
    if text.len() == 0 {
        None
    } else if text.last() == ':' {
        Some(text.len() - 1)
    } else {
        port_separator(text.drop_last())
    }
}

/// The host that a web-front URL names.
#[derive(Debug, Clone, PartialEq, Eq)]
pub enum WebfrontHost {
    /// The URL has no `//`.
    NoScheme,
    /// The last `:` follows the `//` at once: there is no host before the
    /// port.
    NoHost,
    /// What stands between the `//` and the last `:` behind it, or the end
    /// of the URL where no `:` follows. An IPv6 literal without brackets
    /// keeps its own colons.
    Host(String),
}

/// Mathematical model of a [`WebfrontHost`].
pub enum WebfrontHostView {
    NoScheme,
    NoHost,
    Host(Seq<char>),
}

impl View for WebfrontHost {
    type V = WebfrontHostView;

    open spec fn view(&self) -> WebfrontHostView {
        match self {
            WebfrontHost::NoScheme => WebfrontHostView::NoScheme,
            WebfrontHost::NoHost => WebfrontHostView::NoHost,
            WebfrontHost::Host(text) => WebfrontHostView::Host(text@),
        }
    }
}

/// The host that `url` names: what follows the first `//`, up to the last
/// `:` behind it.
pub open spec fn webfront_host_of(url: Seq<char>) -> WebfrontHostView {
    match scheme_separator(url, 0) {
        None => WebfrontHostView::NoScheme,
        Some(i) => {
            let rest = url.skip(i + 2);
            match port_separator(rest) {
                Some(j) => if j == 0 {
                    WebfrontHostView::NoHost
                } else {
                    WebfrontHostView::Host(rest.take(j))
                },
                None => WebfrontHostView::Host(rest),
            }
        },
    }
}

/// The host that `url` names.
pub fn webfront_host(url: &str) -> (host: WebfrontHost)
    ensures
        host@ == webfront_host_of(url@),
{
    let chars = chars_of(url);
    let len = chars.len();
    let mut i: usize = 0;
    let mut start: Option<usize> = None;
    while start.is_none() && i < len && i + 1 < len
        invariant
            len == chars.len(),
            i <= len,
            match start {
                Some(at) => scheme_separator(chars@, 0) == Some(at as int) && at + 2 <= len,
                None => scheme_separator(chars@, 0) == scheme_separator(chars@, i as int),
            },
        decreases (if start is None { 1int } else { 0int }), len - i,
    {
        if chars[i] == '/' && chars[i + 1] == '/' {
            start = Some(i);
        } else {
            i += 1;
        }
    }
    let host_start: usize = match start {
        Some(at) => at + 2,
        None => {
            return WebfrontHost::NoScheme;
        },
    };
    let ghost rest = chars@.skip(host_start as int);
    let mut end: usize = len;
    assert(rest.take(len - host_start) == rest);
    while end > host_start && chars[end - 1] != ':'
        invariant
            host_start <= end <= len == chars.len(),
            rest == chars@.skip(host_start as int),
            port_separator(rest) == port_separator(rest.take(end - host_start)),
        decreases end,
    {
        assert(rest.take(end - host_start).drop_last() == rest.take(end - host_start - 1));
        end -= 1;
    }
    if end == host_start {
        // no colon behind the separator
        assert(rest.take(0).len() == 0);
        let host = string_of(&chars, host_start, len);
        assert(chars@.subrange(host_start as int, len as int) == rest);
        WebfrontHost::Host(host)
    } else {
        let colon: usize = end - 1;
        assert(rest.take(end - host_start).last() == ':');
        if colon == host_start {
            WebfrontHost::NoHost
        } else {
            let host = string_of(&chars, host_start, colon);
            assert(chars@.subrange(host_start as int, colon as int) == rest.take(
                colon - host_start,
            ));
            WebfrontHost::Host(host)
        }
    }
}

/// What is left to do to find a hoster's address.
#[derive(Debug, PartialEq, Eq)]
pub enum HostAddress {
    /// The search is over, with this result.
    Settled(Result<IpAddress, AddressError>),
    /// The address is that of this host, which the hoster's web-front URL
    /// names: resolve it, and take what comes of that.
    AskWebfront(String),
}

/// Mathematical model of a [`HostAddress`].
pub enum HostAddressView {
    Settled(Result<IpAddress, AddressError>),
    AskWebfront(Seq<char>),
}

impl View for HostAddress {
    type V = HostAddressView;

    open spec fn view(&self) -> HostAddressView {
        match self {
            HostAddress::Settled(result) => HostAddressView::Settled(*result),
            HostAddress::AskWebfront(host) => HostAddressView::AskWebfront(host@),
        }
    }
}

/// How a hoster's address is found: the address that the hoster reports
/// where that resolves; else the host of the web-front URL where it names
/// one; else the first error, or the error that the URL has no host.
pub open spec fn host_address_of(
    ip: Seq<char>,
    probe: Probe,
    webfront_url: Seq<char>,
) -> HostAddressView {
    match resolved_address(ip, probe) {
        Ok(address) => HostAddressView::Settled(Ok(address)),
        Err(first) => match webfront_host_of(webfront_url) {
            WebfrontHostView::NoScheme => HostAddressView::Settled(Err(first)),
            WebfrontHostView::NoHost => HostAddressView::Settled(Err(AddressError::Unparsable)),
            WebfrontHostView::Host(host) => HostAddressView::AskWebfront(host),
        },
    }
}

/// Finds a hoster's public address, for a server that reports the loopback
/// name. `probe` is what the system says of the texts that
/// [`literal_candidate`] and [`name_candidate`] give for `ip`.
pub fn parse_possible_ipv6(ip: &str, probe: Probe, webfront_url: &str) -> (next: HostAddress)
    ensures
        next@ == host_address_of(ip@, probe, webfront_url@),
{
    match resolve_address(ip, probe) {
        Ok(address) => HostAddress::Settled(Ok(address)),
        Err(first) => match webfront_host(webfront_url) {
            WebfrontHost::NoScheme => HostAddress::Settled(Err(first)),
            WebfrontHost::NoHost => HostAddress::Settled(Err(AddressError::Unparsable)),
            WebfrontHost::Host(host) => HostAddress::AskWebfront(host),
        },
    }
}

} // verus!
