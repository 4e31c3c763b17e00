//! Network security: private-address classification and URL target checks.
//!
//! Resolving a hostname is I/O and stays with the caller; this module parses
//! the URL, classifies addresses and decides what a resolution result means.

use vstd::prelude::*;

use crate::text::{push_decimal, push_hex, push_str, spec_decimal, spec_hex, str_eq, string_of};

verus! {

/// An IP address as the checks see it: four octets or eight 16-bit segments.
#[derive(Debug, Clone, Copy, PartialEq, Eq)]
pub enum IpAddress {
    V4([u8; 4]),
    V6([u16; 8]),
}

/// Why a URL target was refused.
#[derive(Debug, Clone, PartialEq, Eq)]
pub enum NetworkError {
    /// Only http/https allowed; carries the scheme that was found.
    InvalidScheme(String),
    /// The URL could not be parsed.
    MissingDomain,
    /// The URL has no host.
    MissingHostname,
    /// The hostname did not resolve.
    UnresolvableHostname(String),
    /// The hostname resolves to a private/internal address.
    PrivateAddress(String, IpAddress),
}

/// The IPv4 ranges that are refused, each written as its CIDR block.
pub open spec fn v4_blocked(o: Seq<u8>) -> bool {
    ||| o[0] == 0                                   // 0.0.0.0/8
    ||| o[0] == 10                                  // 10.0.0.0/8
    ||| o[0] == 100 && 64 <= o[1] && o[1] < 128     // 100.64.0.0/10
    ||| o[0] == 127                                 // 127.0.0.0/8
    ||| o[0] == 169 && o[1] == 254                  // 169.254.0.0/16
    ||| o[0] == 172 && 16 <= o[1] && o[1] < 32      // 172.16.0.0/12
    ||| o[0] == 192 && o[1] == 168                  // 192.168.0.0/16
}

/// The IPv6 ranges that are refused.
pub open spec fn v6_blocked(s: Seq<u16>) -> bool {
    // ::1/128
    ||| (s[0] == 0 && s[1] == 0 && s[2] == 0 && s[3] == 0 && s[4] == 0 && s[5] == 0
        && s[6] == 0 && s[7] == 1)
    // fc00::/7
    ||| 0xfc00 <= s[0] && s[0] <= 0xfdff
    // fe80::/10
    ||| 0xfe80 <= s[0] && s[0] <= 0xfebf
}

pub open spec fn spec_is_blocked_private(addr: IpAddress) -> bool {
    match addr {
        IpAddress::V4(o) => v4_blocked(o@),
        IpAddress::V6(s) => v6_blocked(s@),
    }
}

/// Checks if the given IP address falls within a blocked private/internal network.
pub fn is_blocked_private(addr: &IpAddress) -> (res: bool)
    ensures
        res == spec_is_blocked_private(*addr),
{
    match addr {
        IpAddress::V4(octets) => {
            let a: u8 = octets[0];
            let b: u8 = octets[1];
            proof {
                assert((b & 0b11000000u8) == 0b01000000u8 <==> (64 <= b && b < 128)) by (bit_vector);
                assert((b & 0b11110000u8) == 0b00010000u8 <==> (16 <= b && b < 32)) by (bit_vector);
            }
            if a == 0 {
                return true;
            }
            if a == 10 {
                return true;
            }
            if a == 100 && (b & 0b11000000u8) == 0b01000000u8 {
                return true;
            }
            if a == 127 {
                return true;
            }
            if a == 169 && b == 254 {
                return true;
            }
            if a == 172 && (b & 0b11110000u8) == 0b00010000u8 {
                return true;
            }
            if a == 192 && b == 168 {
                return true;
            }
            false
        },
        IpAddress::V6(segments) => {
            let first: u16 = segments[0];
            proof {
                assert((first & 0xfe00u16) == 0xfc00u16 <==> (0xfc00 <= first && first <= 0xfdff))
                    by (bit_vector);
                assert((first & 0xffc0u16) == 0xfe80u16 <==> (0xfe80 <= first && first <= 0xfebf))
                    by (bit_vector);
            }
            if segments[0] == 0 && segments[1] == 0 && segments[2] == 0 && segments[3] == 0
                && segments[4] == 0 && segments[5] == 0 && segments[6] == 0 && segments[7] == 1 {
                return true;
            }
            if (first & 0xfe00u16) == 0xfc00u16 {
                return true;
            }
            if (first & 0xffc0u16) == 0xfe80u16 {
                return true;
            }
            false
        },
    }
}


/// The 32-bit value of an IPv4 address, first octet most significant.
pub open spec fn v4_value(a: u8, b: u8, c: u8, d: u8) -> u32 {
    ((a as u32) << 24u32) | ((b as u32) << 16u32) | ((c as u32) << 8u32) | (d as u32)
}

/// The address `addr` lies in the CIDR block `net/prefix` (for a prefix of
/// 1 to 32 bits): its first `prefix` bits are those of `net`.
pub open spec fn in_v4_block(addr: u32, net: u32, prefix: u32) -> bool {
    (addr >> (32u32 - prefix)) == (net >> (32u32 - prefix))
}

/// The first segment `first` of an IPv6 address lies in the block
/// `net/prefix`, for a prefix of 1 to 16 bits (which only the first segment
/// decides).
pub open spec fn in_v6_block(first: u16, net: u16, prefix: u16) -> bool {
    (first >> (16u16 - prefix)) == (net >> (16u16 - prefix))
}

proof fn lemma_v4_block_bits(a: u8, b: u8, c: u8, d: u8)
    ensures
        in_v4_block(v4_value(a, b, c, d), 0x0000_0000u32, 8) <==> a == 0,
        in_v4_block(v4_value(a, b, c, d), 0x0a00_0000u32, 8) <==> a == 10,
        in_v4_block(v4_value(a, b, c, d), 0x6440_0000u32, 10) <==> (a == 100 && 64 <= b && b < 128),
        in_v4_block(v4_value(a, b, c, d), 0x7f00_0000u32, 8) <==> a == 127,
        in_v4_block(v4_value(a, b, c, d), 0xa9fe_0000u32, 16) <==> (a == 169 && b == 254),
        in_v4_block(v4_value(a, b, c, d), 0xac10_0000u32, 12) <==> (a == 172 && 16 <= b && b < 32),
        in_v4_block(v4_value(a, b, c, d), 0xc0a8_0000u32, 16) <==> (a == 192 && b == 168),
{
    let v = v4_value(a, b, c, d);
    assert(v >> 24u32 == a as u32) by (bit_vector)
        requires
            v == ((a as u32) << 24u32) | ((b as u32) << 16u32) | ((c as u32) << 8u32) | (d as u32),
    ;
    assert(v >> 16u32 == (a as u32) * 256 + (b as u32)) by (bit_vector)
        requires
            v == ((a as u32) << 24u32) | ((b as u32) << 16u32) | ((c as u32) << 8u32) | (d as u32),
    ;
    assert(v >> 22u32 == (a as u32) * 4 + (b as u32) / 64) by (bit_vector)
        requires
            v == ((a as u32) << 24u32) | ((b as u32) << 16u32) | ((c as u32) << 8u32) | (d as u32),
    ;
    assert(v >> 20u32 == (a as u32) * 16 + (b as u32) / 16) by (bit_vector)
        requires
            v == ((a as u32) << 24u32) | ((b as u32) << 16u32) | ((c as u32) << 8u32) | (d as u32),
    ;
    assert(0x0a00_0000u32 >> 24u32 == 10) by (bit_vector);
    assert(0x6440_0000u32 >> 22u32 == 401) by (bit_vector);
    assert(0x7f00_0000u32 >> 24u32 == 127) by (bit_vector);
    assert(0xa9fe_0000u32 >> 16u32 == 43518) by (bit_vector);
    assert(0xac10_0000u32 >> 20u32 == 2753) by (bit_vector);
    assert(0xc0a8_0000u32 >> 16u32 == 49320) by (bit_vector);
    assert(0x0000_0000u32 >> 24u32 == 0) by (bit_vector);
}

/// The IPv4 addresses refused are exactly those of the blocks 0.0.0.0/8,
/// 10.0.0.0/8, 100.64.0.0/10, 127.0.0.0/8, 169.254.0.0/16, 172.16.0.0/12
/// and 192.168.0.0/16, whatever their remaining octets.
pub proof fn law_v4_refused_blocks(o: [u8; 4])
    ensures
        spec_is_blocked_private(IpAddress::V4(o)) <==> {
            let v = v4_value(o@[0], o@[1], o@[2], o@[3]);
            ||| in_v4_block(v, 0x0000_0000u32, 8)
            ||| in_v4_block(v, 0x0a00_0000u32, 8)
            ||| in_v4_block(v, 0x6440_0000u32, 10)
            ||| in_v4_block(v, 0x7f00_0000u32, 8)
            ||| in_v4_block(v, 0xa9fe_0000u32, 16)
            ||| in_v4_block(v, 0xac10_0000u32, 12)
            ||| in_v4_block(v, 0xc0a8_0000u32, 16)
        },
{
    lemma_v4_block_bits(o@[0], o@[1], o@[2], o@[3]);
}

/// The IPv6 addresses refused are exactly the loopback `::1` and those of
/// the blocks fc00::/7 and fe80::/10, whatever their remaining bits.
pub proof fn law_v6_refused_blocks(s: [u16; 8])
    ensures
        spec_is_blocked_private(IpAddress::V6(s)) <==> {
            ||| s@ == seq![0u16, 0, 0, 0, 0, 0, 0, 1]
            ||| in_v6_block(s@[0], 0xfc00u16, 7)
            ||| in_v6_block(s@[0], 0xfe80u16, 10)
        },
{
    let f = s@[0];
    assert(in_v6_block(f, 0xfc00u16, 7) <==> (0xfc00 <= f && f <= 0xfdff)) by (bit_vector);
    assert(in_v6_block(f, 0xfe80u16, 10) <==> (0xfe80 <= f && f <= 0xfebf)) by (bit_vector);
    if s@ == seq![0u16, 0, 0, 0, 0, 0, 0, 1] {
        assert(s@[7] == 1);
    }
    if s@[0] == 0 && s@[1] == 0 && s@[2] == 0 && s@[3] == 0 && s@[4] == 0 && s@[5] == 0 && s@[6]
        == 0 && s@[7] == 1 {
        assert(s@ =~= seq![0u16, 0, 0, 0, 0, 0, 0, 1]);
    }
}

/// Four octets in dotted decimal, as an IPv4 address is displayed.
pub open spec fn spec_dotted(a: nat, b: nat, c: nat, d: nat) -> Seq<char> {
    spec_decimal(a) + seq!['.'] + spec_decimal(b) + seq!['.'] + spec_decimal(c) + seq!['.']
        + spec_decimal(d)
}

/// Segments in hexadecimal, separated by colons.
pub open spec fn spec_hex_groups(s: Seq<u16>) -> Seq<char>
    decreases s.len(),
{
    if s.len() == 0 {
        Seq::empty()
    } else if s.len() == 1 {
        spec_hex(s[0] as nat)
    } else {
        spec_hex_groups(s.drop_last()).push(':') + spec_hex(s.last() as nat)
    }
}

/// The first longest run of zero segments of `s`, as `(start, length)`:
/// scanning from `i` with the run in progress at `cur_start` of `cur_len`
/// segments and the best run so far, which a later run replaces only when
/// it is strictly longer.
pub open spec fn zero_run_from(
    s: Seq<u16>,
    i: int,
    cur_start: int,
    cur_len: int,
    best_start: int,
    best_len: int,
) -> (int, int)
    decreases s.len() - i,
{
    if i >= s.len() {
        (best_start, best_len)
    } else if s[i] == 0 {
        let start = if cur_len == 0 {
            i
        } else {
            cur_start
        };
        if cur_len + 1 > best_len {
            zero_run_from(s, i + 1, start, cur_len + 1, start, cur_len + 1)
        } else {
            zero_run_from(s, i + 1, start, cur_len + 1, best_start, best_len)
        }
    } else {
        zero_run_from(s, i + 1, 0, 0, best_start, best_len)
    }
}

pub open spec fn longest_zero_run(s: Seq<u16>) -> (int, int) {
    zero_run_from(s, 0, 0, 0, 0, 0)
}

/// The segments of an IPv4-mapped address `::ffff:a.b.c.d`.
pub open spec fn is_v4_mapped(s: Seq<u16>) -> bool {
    s[0] == 0 && s[1] == 0 && s[2] == 0 && s[3] == 0 && s[4] == 0 && s[5] == 0xffff
}

/// An IPv6 address in the canonical form of RFC 5952: an IPv4-mapped address
/// as `::ffff:` and its dotted decimal, otherwise hexadecimal segments with
/// the first longest run of two or more zero segments written as `::`.
pub open spec fn spec_v6_text(s: Seq<u16>) -> Seq<char> {
    if is_v4_mapped(s) {
        seq![':', ':', 'f', 'f', 'f', 'f', ':'] + spec_dotted(
            (s[6] / 256) as nat,
            (s[6] % 256) as nat,
            (s[7] / 256) as nat,
            (s[7] % 256) as nat,
        )
    } else {
        let (start, len) = longest_zero_run(s);
        if len > 1 {
            spec_hex_groups(s.subrange(0, start)) + seq![':', ':'] + spec_hex_groups(
                s.subrange(start + len, s.len() as int),
            )
        } else {
            spec_hex_groups(s)
        }
    }
}

/// An address as it is displayed.
pub open spec fn spec_ip_text(addr: IpAddress) -> Seq<char> {
    match addr {
        IpAddress::V4(o) => spec_dotted(o[0] as nat, o[1] as nat, o[2] as nat, o[3] as nat),
        IpAddress::V6(s) => spec_v6_text(s@),
    }
}

fn push_dotted(buf: &mut Vec<char>, a: u64, b: u64, c: u64, d: u64)
    ensures
        final(buf)@ == old(buf)@ + spec_dotted(a as nat, b as nat, c as nat, d as nat),
{
    let ghost pre = buf@;
    push_decimal(buf, a);
    buf.push('.');
    push_decimal(buf, b);
    buf.push('.');
    push_decimal(buf, c);
    buf.push('.');
    push_decimal(buf, d);
    assert(buf@ =~= pre + spec_dotted(a as nat, b as nat, c as nat, d as nat));
}

/// Appends the segments `from..to` of `s` in hexadecimal, colon-separated.
fn push_hex_groups(buf: &mut Vec<char>, s: &[u16; 8], from: usize, to: usize)
    requires
        from <= to <= 8,
    ensures
        final(buf)@ == old(buf)@ + spec_hex_groups(s@.subrange(from as int, to as int)),
{
    let ghost pre = buf@;
    let mut i: usize = from;
    assert(s@.subrange(from as int, from as int) =~= Seq::<u16>::empty());
    while i < to
        invariant
            from <= i <= to <= 8,
            s@.len() == 8,
            buf@ == pre + spec_hex_groups(s@.subrange(from as int, i as int)),
        decreases to - i,
    {
        let ghost before = buf@;
        if i > from {
            buf.push(':');
        }
        push_hex(buf, s[i] as u32);
        proof {
            let sub = s@.subrange(from as int, i as int + 1);
            assert(sub.drop_last() =~= s@.subrange(from as int, i as int));
            assert(sub.last() == s@[i as int]);
            if i == from {
                assert(sub.len() == 1);
                assert(buf@ =~= pre + spec_hex_groups(sub));
            } else {
                assert(buf@ =~= pre + spec_hex_groups(sub));
            }
        }
        i = i + 1;
    }
}

/// The first longest run of zero segments, as `(start, length)`.
fn find_zero_run(s: &[u16; 8]) -> (res: (usize, usize))
    ensures
        res.0 as int == longest_zero_run(s@).0,
        res.1 as int == longest_zero_run(s@).1,
        res.0 + res.1 <= 8,
{
    let mut cur_start: usize = 0;
    let mut cur_len: usize = 0;
    let mut best_start: usize = 0;
    let mut best_len: usize = 0;
    let mut i: usize = 0;
    while i < 8
        invariant
            i <= 8,
            s@.len() == 8,
            cur_start + cur_len == i || cur_len == 0,
            best_start + best_len <= i,
            longest_zero_run(s@) == zero_run_from(
                s@,
                i as int,
                cur_start as int,
                cur_len as int,
                best_start as int,
                best_len as int,
            ),
        decreases 8 - i,
    {
        if s[i] == 0 {
            let start = if cur_len == 0 {
                i
            } else {
                cur_start
            };
            cur_start = start;
            cur_len = cur_len + 1;
            if cur_len > best_len {
                best_start = cur_start;
                best_len = cur_len;
            }
        } else {
            cur_start = 0;
            cur_len = 0;
        }
        i = i + 1;
    }
    (best_start, best_len)
}

/// An address as it is displayed: dotted decimal for IPv4, the canonical
/// RFC 5952 text for IPv6.
pub fn ip_text(addr: &IpAddress) -> (res: String)
    ensures
        res@ == spec_ip_text(*addr),
{
    let mut buf: Vec<char> = Vec::new();
    match addr {
        IpAddress::V4(o) => {
            push_dotted(&mut buf, o[0] as u64, o[1] as u64, o[2] as u64, o[3] as u64);
        },
        IpAddress::V6(s) => {
            if s[0] == 0 && s[1] == 0 && s[2] == 0 && s[3] == 0 && s[4] == 0 && s[5] == 0xffff {
                buf.push(':');
                buf.push(':');
                buf.push('f');
                buf.push('f');
                buf.push('f');
                buf.push('f');
                buf.push(':');
                push_dotted(
                    &mut buf,
                    (s[6] / 256) as u64,
                    (s[6] % 256) as u64,
                    (s[7] / 256) as u64,
                    (s[7] % 256) as u64,
                );
            } else {
                let (start, len) = find_zero_run(s);
                if len > 1 {
                    push_hex_groups(&mut buf, s, 0, start);
                    buf.push(':');
                    buf.push(':');
                    push_hex_groups(&mut buf, s, start + len, 8);
                } else {
                    push_hex_groups(&mut buf, s, 0, 8);
                    assert(s@.subrange(0, 8) =~= s@);
                }
            }
        },
    }
    assert(buf@ =~= spec_ip_text(*addr));
    string_of(&buf)
}

impl NetworkError {
    /// The text of the error, as it is displayed.
    pub open spec fn spec_message(&self) -> Seq<char> {
        match self {
            NetworkError::InvalidScheme(s) => "Only http/https allowed, got '"@ + s@ + "'"@,
            NetworkError::MissingDomain => "Missing domain"@,
            NetworkError::MissingHostname => "Missing hostname"@,
            NetworkError::UnresolvableHostname(h) => "Cannot resolve hostname: "@ + h@,
            NetworkError::PrivateAddress(h, ip) => "Blocked: "@ + h@
                + " resolves to private/internal address "@ + spec_ip_text(*ip),
        }
    }

    /// The text of the error.
    pub fn message(&self) -> (res: String)
        ensures
            res@ == self.spec_message(),
    {
        let mut buf: Vec<char> = Vec::new();
        match self {
            NetworkError::InvalidScheme(s) => {
                push_str(&mut buf, "Only http/https allowed, got '");
                push_str(&mut buf, s.as_str());
                push_str(&mut buf, "'");
            },
            NetworkError::MissingDomain => {
                push_str(&mut buf, "Missing domain");
            },
            NetworkError::MissingHostname => {
                push_str(&mut buf, "Missing hostname");
            },
            NetworkError::UnresolvableHostname(h) => {
                push_str(&mut buf, "Cannot resolve hostname: ");
                push_str(&mut buf, h.as_str());
            },
            NetworkError::PrivateAddress(h, ip) => {
                push_str(&mut buf, "Blocked: ");
                push_str(&mut buf, h.as_str());
                push_str(&mut buf, " resolves to private/internal address ");
                let t = ip_text(ip);
                push_str(&mut buf, t.as_str());
            },
        }
        assert(buf@ =~= self.spec_message());
        string_of(&buf)
    }
}

/// What `url::Url::parse` accepts.
pub uninterp spec fn spec_url_parses(input: Seq<char>) -> bool;

/// The scheme of the URL that `url::Url::parse` builds from `input`.
pub uninterp spec fn spec_url_scheme(input: Seq<char>) -> Seq<char>;

/// The host string (`url::Url::host_str`) of the URL parsed from `input`.
pub uninterp spec fn spec_url_host(input: Seq<char>) -> Option<Seq<char>>;

/// The host of the URL parsed from `input` read as an IP address
/// (`url::Url::host` giving `Host::Ipv4` or `Host::Ipv6`), when it is one.
pub uninterp spec fn spec_url_host_ip(input: Seq<char>) -> Option<IpAddress>;

/// Calls `url::Url::parse` and reads `scheme()`, `host_str()` and `host()` of
/// the result (the host is an address exactly when `host()` is `Ipv4` or
/// `Ipv6`, and then `host_str()` is set). All are functions of the input
/// string alone; they are named, not stated.
#[verifier::external_body]
fn parse_url_parts(input: &str) -> (res: Option<(String, Option<String>, Option<IpAddress>)>)
    ensures
        res is Some <==> spec_url_parses(input@),
        res matches Some((scheme, host, ip)) ==> {
            &&& scheme@ == spec_url_scheme(input@)
            &&& host.is_some() == spec_url_host(input@).is_some()
            &&& host matches Some(h) ==> spec_url_host(input@) == Some(h@)
            &&& ip == spec_url_host_ip(input@)
            &&& ip is Some ==> host is Some
        },
{
    let parsed = url::Url::parse(input).ok()?;
    let ip = match parsed.host() {
        Some(url::Host::Ipv4(a)) => Some(IpAddress::V4(a.octets())),
        Some(url::Host::Ipv6(a)) => Some(IpAddress::V6(a.segments())),
        _ => None,
    };
    Some((parsed.scheme().to_string(), parsed.host_str().map(|h| h.to_string()), ip))
}

pub open spec fn is_web_scheme(scheme: Seq<char>) -> bool {
    scheme == "http"@ || scheme == "https"@
}

/// Parses `url` and checks its scheme and host: the part of URL target
/// validation that needs no name resolution. Returns the hostname to resolve.
pub fn url_target_host(url: &str) -> (res: Result<String, NetworkError>)
    ensures
        !spec_url_parses(url@) ==> res == Err::<String, NetworkError>(NetworkError::MissingDomain),
        spec_url_parses(url@) && !is_web_scheme(spec_url_scheme(url@)) ==> (res matches Err(
            NetworkError::InvalidScheme(s),
        ) && s@ == spec_url_scheme(url@)),
        spec_url_parses(url@) && is_web_scheme(spec_url_scheme(url@)) ==> match spec_url_host(url@) {
            None => res == Err::<String, NetworkError>(NetworkError::MissingHostname),
            Some(h) => res matches Ok(host) && host@ == h,
        },
{
    proof {
        reveal_strlit("http");
        reveal_strlit("https");
    }
    match parse_url_parts(url) {
        None => Err(NetworkError::MissingDomain),
        Some((scheme, host, _ip)) => {
            if !(str_eq(scheme.as_str(), "http") || str_eq(scheme.as_str(), "https")) {
                return Err(NetworkError::InvalidScheme(scheme));
            }
            match host {
                None => Err(NetworkError::MissingHostname),
                Some(h) => Ok(h),
            }
        },
    }
}

/// `addrs[i]` is the first private address in `addrs`.
pub open spec fn is_first_blocked(addrs: Seq<IpAddress>, i: int) -> bool {
    &&& 0 <= i < addrs.len()
    &&& spec_is_blocked_private(addrs[i])
    &&& forall|j: int| 0 <= j < i ==> !spec_is_blocked_private(#[trigger] addrs[j])
}

pub open spec fn none_blocked(addrs: Seq<IpAddress>) -> bool {
    forall|i: int| 0 <= i < addrs.len() ==> !spec_is_blocked_private(#[trigger] addrs[i])
}

/// A resolution passes exactly when none of its addresses is private: one
/// private address among any number of public ones is enough to refuse, and
/// the first private one is the one reported.
pub proof fn law_one_private_address_refuses(addrs: Seq<IpAddress>)
    ensures
        none_blocked(addrs) <==> !(exists|i: int| 0 <= i < addrs.len() && spec_is_blocked_private(
            #[trigger] addrs[i],
        )),
        !none_blocked(addrs) ==> exists|i: int| #[trigger] is_first_blocked(addrs, i),
{
    if !none_blocked(addrs) {
        let k = choose|k: int| 0 <= k < addrs.len() && spec_is_blocked_private(#[trigger] addrs[k]);
        lemma_first_blocked_exists(addrs, k);
    }
}

proof fn lemma_first_blocked_exists(addrs: Seq<IpAddress>, k: int)
    requires
        0 <= k < addrs.len(),
        spec_is_blocked_private(addrs[k]),
    ensures
        exists|i: int| #[trigger] is_first_blocked(addrs, i),
    decreases k,
{
    if forall|j: int| 0 <= j < k ==> !spec_is_blocked_private(#[trigger] addrs[j]) {
        assert(is_first_blocked(addrs, k));
    } else {
        let j = choose|j: int| 0 <= j < k && spec_is_blocked_private(#[trigger] addrs[j]);
        lemma_first_blocked_exists(addrs, j);
    }
}

/// Only `http` and `https` URLs are fetched.
pub proof fn law_only_web_schemes(scheme: Seq<char>)
    ensures
        is_web_scheme(scheme) <==> (scheme == "http"@ || scheme == "https"@),
{
}

/// `e` reports `host` resolving to the private address `addr`.
pub open spec fn reports_private(e: NetworkError, host: Seq<char>, addr: IpAddress) -> bool {
    e matches NetworkError::PrivateAddress(h, a) && h@ == host && a == addr
}

/// Decides the outcome of `validate_url_target` once `hostname` has been
/// resolved: `None` when resolution failed, else the addresses in the order
/// the resolver returned them. The first private address found is reported.
pub fn check_resolved_addresses(hostname: &str, resolved: Option<&Vec<IpAddress>>) -> (res: Result<
    (),
    NetworkError,
>)
    ensures
        resolved is None ==> (res matches Err(NetworkError::UnresolvableHostname(h)) && h@
            == hostname@),
        resolved matches Some(addrs) ==> {
            &&& res is Ok <==> none_blocked(addrs@)
            &&& res matches Err(e) ==> exists|i: int|
                is_first_blocked(addrs@, i) && #[trigger] reports_private(e, hostname@, addrs@[i])
        },
{
    match resolved {
        None => Err(NetworkError::UnresolvableHostname(hostname.to_string())),
        Some(addrs) => first_private(hostname, addrs),
    }
}

/// Reports the first private address of `addrs` for `hostname`.
fn first_private(hostname: &str, addrs: &Vec<IpAddress>) -> (res: Result<(), NetworkError>)
    ensures
        res is Ok <==> none_blocked(addrs@),
        res matches Err(e) ==> exists|i: int|
            is_first_blocked(addrs@, i) && #[trigger] reports_private(e, hostname@, addrs@[i]),
{
    let mut k: usize = 0;
    while k < addrs.len()
        invariant
            k <= addrs@.len(),
            forall|j: int| 0 <= j < k ==> !spec_is_blocked_private(#[trigger] addrs@[j]),
        decreases addrs@.len() - k,
    {
        if is_blocked_private(&addrs[k]) {
            let e = NetworkError::PrivateAddress(hostname.to_string(), addrs[k]);
            assert(is_first_blocked(addrs@, k as int));
            assert(reports_private(e, hostname@, addrs@[k as int]));
            assert(!none_blocked(addrs@));
            return Err(e);
        }
        k = k + 1;
    }
    Ok(())
}

/// The hostname that `validate_resolved_url` checks: `None` when the URL does
/// not parse or has no host, in which case the URL is let through.
pub fn resolved_url_host(url: &str) -> (res: Option<String>)
    ensures
        !spec_url_parses(url@) ==> res is None,
        spec_url_parses(url@) ==> match spec_url_host(url@) {
            None => res is None,
            Some(h) => res matches Some(host) && host@ == h,
        },
{
    match parse_url_parts(url) {
        None => None,
        Some((_scheme, host, _ip)) => host,
    }
}

/// The host of `url` read as an IP address, when the URL parses and its
/// host is one (an IPv6 host is written in brackets in the URL).
pub fn url_host_address(url: &str) -> (res: Option<IpAddress>)
    ensures
        res == (if spec_url_parses(url@) {
            spec_url_host_ip(url@)
        } else {
            None
        }),
{
    match parse_url_parts(url) {
        None => None,
        Some((_scheme, _host, ip)) => ip,
    }
}

/// Decides `validate_resolved_url` for `hostname`: `literal` is the host read
/// as an IP address, if it is one; `resolved` is the resolution of the host
/// otherwise (`None` when it failed, which lets the URL through).
pub fn check_resolved_url(
    hostname: &str,
    literal: Option<IpAddress>,
    resolved: Option<&Vec<IpAddress>>,
) -> (res: Result<(), NetworkError>)
    ensures
        literal matches Some(ip) ==> {
            &&& res is Ok <==> !spec_is_blocked_private(ip)
            &&& res matches Err(e) ==> reports_private(e, hostname@, ip)
        },
        literal is None && resolved is None ==> res is Ok,
        literal is None && resolved.is_some() ==> {
            let addrs = resolved.unwrap()@;
            &&& res is Ok <==> none_blocked(addrs)
            &&& res matches Err(e) ==> exists|i: int|
                is_first_blocked(addrs, i) && #[trigger] reports_private(e, hostname@, addrs[i])
        },
{
    match literal {
        Some(ip) => {
            if is_blocked_private(&ip) {
                Err(NetworkError::PrivateAddress(hostname.to_string(), ip))
            } else {
                Ok(())
            }
        },
        None => match resolved {
            None => Ok(()),
            Some(addrs) => first_private(hostname, addrs),
        },
    }
}

/// The pattern of URLs looked for in text.
pub open spec fn url_pattern() -> Seq<char> {
    r#"https?://[^\s"'`;|<>]+"#@
}

/// Decides `validate_url_target` for `url`: the URL must parse with an
/// http or https scheme and a host; an IPv4 host is its own resolution and
/// is checked itself; an IPv6 host, written in brackets, is a name that no
/// lookup resolves; any other host is checked by `resolved`, the addresses
/// it resolves to (`None` when the lookup failed).
pub fn check_target(url: &str, resolved: Option<&Vec<IpAddress>>) -> (res: Result<(), NetworkError>)
    ensures
        !spec_url_parses(url@) ==> res == Err::<(), NetworkError>(NetworkError::MissingDomain),
        spec_url_parses(url@) && !is_web_scheme(spec_url_scheme(url@)) ==> (res matches Err(
            NetworkError::InvalidScheme(s),
        ) && s@ == spec_url_scheme(url@)),
        spec_url_parses(url@) && is_web_scheme(spec_url_scheme(url@)) ==> match spec_url_host(url@) {
            None => res == Err::<(), NetworkError>(NetworkError::MissingHostname),
            Some(h) => match spec_url_host_ip(url@) {
                Some(IpAddress::V4(o)) => {
                    &&& res is Ok <==> !spec_is_blocked_private(IpAddress::V4(o))
                    &&& res matches Err(e) ==> reports_private(e, h, IpAddress::V4(o))
                },
                Some(IpAddress::V6(_)) => res matches Err(NetworkError::UnresolvableHostname(n)) && n@
                    == h,
                None => match resolved {
                    None => res matches Err(NetworkError::UnresolvableHostname(n)) && n@ == h,
                    Some(addrs) => {
                        &&& res is Ok <==> none_blocked(addrs@)
                        &&& res matches Err(e) ==> exists|i: int|
                            is_first_blocked(addrs@, i) && #[trigger] reports_private(e, h, addrs@[i])
                    },
                },
            },
        },
{
    let host = url_target_host(url)?;
    match url_host_address(url) {
        Some(IpAddress::V4(o)) => {
            let ip = IpAddress::V4(o);
            if is_blocked_private(&ip) {
                Err(NetworkError::PrivateAddress(host, ip))
            } else {
                Ok(())
            }
        },
        Some(IpAddress::V6(_)) => Err(NetworkError::UnresolvableHostname(host)),
        None => check_resolved_addresses(host.as_str(), resolved),
    }
}

/// Decides `validate_resolved_url` for the final URL of a fetch: a URL that
/// does not parse or has no host passes; a host that is an IP address is
/// checked itself, any other host by `resolved`, the addresses it resolves
/// to (`None` when the lookup failed, which lets the URL through).
pub fn check_redirect(url: &str, resolved: Option<&Vec<IpAddress>>) -> (res: Result<(), NetworkError>)
    ensures
        !spec_url_parses(url@) ==> res is Ok,
        spec_url_parses(url@) ==> match spec_url_host(url@) {
            None => res is Ok,
            Some(h) => match spec_url_host_ip(url@) {
                Some(ip) => {
                    &&& res is Ok <==> !spec_is_blocked_private(ip)
                    &&& res matches Err(e) ==> reports_private(e, h, ip)
                },
                None => match resolved {
                    None => res is Ok,
                    Some(addrs) => {
                        &&& res is Ok <==> none_blocked(addrs@)
                        &&& res matches Err(e) ==> exists|i: int|
                            is_first_blocked(addrs@, i) && #[trigger] reports_private(e, h, addrs@[i])
                    },
                },
            },
        },
{
    match parse_url_parts(url) {
        None => Ok(()),
        Some((_scheme, host, ip)) => match host {
            None => Ok(()),
            Some(h) => {
                let res = check_resolved_url(h.as_str(), ip, resolved);
                proof {
                    let hv = spec_url_host(url@)->0;
                    assert(h@ == hv);
                    if ip is None && resolved is Some && res is Err {
                        let addrs = resolved.unwrap()@;
                        let e = res->Err_0;
                        let i = choose|i: int|
                            is_first_blocked(addrs, i) && #[trigger] reports_private(e, h@, addrs[i]);
                        assert(reports_private(e, hv, addrs[i]));
                    }
                }
                res
            },
        },
    }
}

/// Whether any of the checks of the URLs found in a text refused its URL
/// (`contains_internal_url`).
pub fn any_refused(verdicts: &Vec<Result<(), NetworkError>>) -> (res: bool)
    ensures
        res == exists|i: int| 0 <= i < verdicts@.len() && (#[trigger] verdicts@[i]) is Err,
{
    let mut i: usize = 0;
    while i < verdicts.len()
        invariant
            i <= verdicts@.len(),
            forall|j: int| 0 <= j < i ==> !((#[trigger] verdicts@[j]) is Err),
        decreases verdicts@.len() - i,
    {
        if verdicts[i].is_err() {
            assert(verdicts@[i as int] is Err);
            return true;
        }
        i = i + 1;
    }
    false
}

/// The URLs in `text` that `contains_internal_url` checks, in order; `None`
/// where the pattern does not compile.
pub fn url_candidates(text: &str) -> (res: Option<Vec<String>>)
    ensures
        res is Some <==> crate::pattern::spec_regex_valid(url_pattern()),
        res matches Some(v) ==> v@.map_values(|s: String| s@) == crate::pattern::spec_regex_matches(
            url_pattern(),
            text@,
        ),
{
    crate::pattern::regex_find_all(r#"https?://[^\s"'`;|<>]+"#, text)
}

} // verus!
