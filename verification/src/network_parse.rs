//! IPv4 address parsing and the selection of the machine's LAN address from
//! the output of `ipconfig getifaddr`, `route print` and `ifconfig`.
use vstd::prelude::*;

use crate::text::{
    all_digits, chars_eq_str, chars_of, digits_value, is_digit, lines, lines_of, parse_unsigned_chars,
    split_chars, split_on, starts_with, string_from, strip_prefix_str, trim, trim_chars,
    unsigned_digits, views, words, words_of,
};

verus! {

broadcast use vstd::string::group_string_axioms;

/// One dotted part of an IPv4 address: one to three ASCII digits worth at most 255.
pub open spec fn octet_part_ok(p: Seq<char>) -> bool {
    0 < p.len() <= 3 && all_digits(p) && digits_value(p) <= 255
}

/// The four octets of a dotted-quad IPv4 address, or `None` when `s` is not one.
pub open spec fn ipv4_octets_spec(s: Seq<char>) -> Option<Seq<u8>> {
    let parts = split_on(s, '.');
    if parts.len() == 4 && (forall|i: int| 0 <= i < 4 ==> octet_part_ok(#[trigger] parts[i])) {
        Some(
            seq![
                digits_value(parts[0]) as u8,
                digits_value(parts[1]) as u8,
                digits_value(parts[2]) as u8,
                digits_value(parts[3]) as u8,
            ],
        )
    } else {
        None
    }
}

/// `s` is a dotted-quad IPv4 address.
pub open spec fn is_valid_ipv4_spec(s: Seq<char>) -> bool {
    ipv4_octets_spec(s) is Some
}

/// `s` is an address in Tailscale's CGNAT range 100.64.0.0/10.
pub open spec fn is_tailscale_ipv4_spec(s: Seq<char>) -> bool {
    match ipv4_octets_spec(s) {
        Some(o) => o[0] == 100 && 64 <= o[1] <= 127,
        None => false,
    }
}

/// `s` is an address in the RFC 2544 benchmark range 198.18.0.0/15 (used by fake-IP proxies).
pub open spec fn is_rfc2544_benchmark_ipv4_spec(s: Seq<char>) -> bool {
    match ipv4_octets_spec(s) {
        Some(o) => o[0] == 198 && 18 <= o[1] <= 19,
        None => false,
    }
}

/// `s` is an RFC 1918 private address: 10/8, 172.16/12 or 192.168/16.
pub open spec fn is_private_lan_ipv4_spec(s: Seq<char>) -> bool {
    match ipv4_octets_spec(s) {
        Some(o) => o[0] == 10 || (o[0] == 172 && 16 <= o[1] <= 31) || (o[0] == 192 && o[1]
            == 168),
        None => false,
    }
}

/// The first of `ls`, trimmed, that is an IPv4 address outside the benchmark range.
pub open spec fn first_ipv4_line(ls: Seq<Seq<char>>) -> Option<Seq<char>>
    decreases ls.len(),
{
    if ls.len() == 0 {
        None
    } else {
        let t = trim(ls[0]);
        if is_valid_ipv4_spec(t) && !is_rfc2544_benchmark_ipv4_spec(t) {
            Some(t)
        } else {
            first_ipv4_line(ls.drop_first())
        }
    }
}

/// The interface address of a `route print` line, when the line is a default route
/// (`0.0.0.0 0.0.0.0 gateway interface metric`) through a private LAN address.
pub open spec fn default_route_interface(line: Seq<char>) -> Option<Seq<char>> {
    let cols = words(line);
    if cols.len() < 4 || cols[0] != "0.0.0.0"@ || cols[1] != "0.0.0.0"@ {
        None
    } else if is_private_lan_ipv4_spec(cols[3]) {
        Some(cols[3])
    } else {
        None
    }
}

/// The first line of `ls` that names a private default-route interface.
pub open spec fn first_default_route(ls: Seq<Seq<char>>) -> Option<Seq<char>>
    decreases ls.len(),
{
    if ls.len() == 0 {
        None
    } else {
        match default_route_interface(ls[0]) {
            Some(ip) => Some(ip),
            None => first_default_route(ls.drop_first()),
        }
    }
}

/// The address of an `ifconfig` line `inet <address> ...` when it is a Tailscale address.
pub open spec fn inet_tailscale_address(line: Seq<char>) -> Option<Seq<char>> {
    let t = trim(line);
    if !starts_with(t, "inet "@) {
        None
    } else {
        let ws = words(t.skip(5));
        if ws.len() > 0 && is_tailscale_ipv4_spec(ws[0]) {
            Some(ws[0])
        } else {
            None
        }
    }
}

/// The first line of `ls` that holds a Tailscale `inet` address.
pub open spec fn first_inet_tailscale(ls: Seq<Seq<char>>) -> Option<Seq<char>>
    decreases ls.len(),
{
    if ls.len() == 0 {
        None
    } else {
        match inet_tailscale_address(ls[0]) {
            Some(ip) => Some(ip),
            None => first_inet_tailscale(ls.drop_first()),
        }
    }
}

/// A dotted part of an address, checked and converted.
fn octet_of(part: &Vec<char>) -> (res: Option<u8>)
    ensures
        match res {
            Some(v) => octet_part_ok(part@) && v as nat == digits_value(part@),
            None => !octet_part_ok(part@),
        },
{
    if part.len() == 0 || part.len() > 3 {
        return None;
    }
    let mut i: usize = 0;
    while i < part.len()
        invariant
            i <= part.len(),
            forall|j: int| 0 <= j < i ==> is_digit(#[trigger] part@[j]),
        decreases part.len() - i,
    {
        let c = part[i];
        if !('0' <= c && c <= '9') {
            return None;
        }
        i += 1;
    }
    assert(unsigned_digits(part@) == part@);
    match parse_unsigned_chars(part, 255) {
        Some(v) => Some(v as u8),
        None => None,
    }
}

/// The four octets of a dotted-quad IPv4 address.
pub fn ipv4_octets(s: &str) -> (res: Option<[u8; 4]>)
    ensures
        match res {
            Some(o) => ipv4_octets_spec(s@) == Some(o@),
            None => ipv4_octets_spec(s@) is None,
        },
{
    let chars = chars_of(s);
    let parts = split_chars(&chars, '.');
    let ghost ps = views(parts@);
    assert(ps.len() == parts.len());
    if parts.len() != 4 {
        return None;
    }
    let mut octets: [u8; 4] = [0u8; 4];
    let mut index: usize = 0;
    while index < 4
        invariant
            parts.len() == 4,
            ps == views(parts@),
            ps == split_on(s@, '.'),
            index <= 4,
            forall|j: int| 0 <= j < index ==> octet_part_ok(#[trigger] ps[j]),
            forall|j: int| 0 <= j < index ==> octets@[j] as nat == digits_value(#[trigger] ps[j]),
        decreases 4 - index,
    {
        assert(ps[index as int] == parts[index as int]@);
        match octet_of(&parts[index]) {
            Some(v) => {
                octets.set(index, v);
            },
            None => {
                return None;
            },
        }
        index += 1;
    }
    assert(octets@ =~= seq![
        digits_value(ps[0]) as u8,
        digits_value(ps[1]) as u8,
        digits_value(ps[2]) as u8,
        digits_value(ps[3]) as u8,
    ]);
    Some(octets)
}

/// `s` is a dotted-quad IPv4 address.
pub fn is_valid_ipv4(s: &str) -> (res: bool)
    ensures
        res == is_valid_ipv4_spec(s@),
{
    ipv4_octets(s).is_some()
}

/// `s` is an address in 100.64.0.0/10.
pub fn is_tailscale_ipv4(s: &str) -> (res: bool)
    ensures
        res == is_tailscale_ipv4_spec(s@),
{
    match ipv4_octets(s) {
        Some(o) => o[0] == 100 && 64 <= o[1] && o[1] <= 127,
        None => false,
    }
}

/// `s` is an address in 198.18.0.0/15.
pub fn is_rfc2544_benchmark_ipv4(s: &str) -> (res: bool)
    ensures
        res == is_rfc2544_benchmark_ipv4_spec(s@),
{
    match ipv4_octets(s) {
        Some(o) => o[0] == 198 && 18 <= o[1] && o[1] <= 19,
        None => false,
    }
}

/// `s` is an RFC 1918 private address.
pub fn is_private_lan_ipv4(s: &str) -> (res: bool)
    ensures
        res == is_private_lan_ipv4_spec(s@),
{
    match ipv4_octets(s) {
        Some(o) => o[0] == 10 || (o[0] == 172 && 16 <= o[1] && o[1] <= 31) || (o[0] == 192
            && o[1] == 168),
        None => false,
    }
}

/// The first line of command output that, trimmed, is an IPv4 address outside the
/// benchmark range 198.18.0.0/15 (which fake-IP proxies hand out).
pub fn parse_first_ipv4_line(output: &str) -> (res: Option<String>)
    ensures
        match res {
            Some(ip) => first_ipv4_line(lines(output@)) == Some(ip@),
            None => first_ipv4_line(lines(output@)) is None,
        },
{
    let chars = chars_of(output);
    let ls = lines_of(&chars);
    let ghost all = views(ls@);
    let mut i: usize = 0;
    assert(all.skip(0) =~= all);
    while i < ls.len()
        invariant
            all == views(ls@),
            all == lines(output@),
            i <= ls.len(),
            first_ipv4_line(all) == first_ipv4_line(all.skip(i as int)),
        decreases ls.len() - i,
    {
        let t = trim_chars(&ls[i]);
        let ts = string_from(&t);
        assert(all.skip(i as int)[0] == ls[i as int]@);
        assert(all.skip(i as int).drop_first() =~= all.skip(i + 1));
        if is_valid_ipv4(ts.as_str()) && !is_rfc2544_benchmark_ipv4(ts.as_str()) {
            return Some(ts);
        }
        i += 1;
    }
    assert(all.skip(i as int) =~= seq![]);
    None
}

/// The interface address of a `route print` default route through a private LAN address.
fn default_route_interface_of(line: &Vec<char>) -> (res: Option<String>)
    ensures
        match res {
            Some(ip) => default_route_interface(line@) == Some(ip@),
            None => default_route_interface(line@) is None,
        },
{
    let cols = words_of(line);
    let ghost cs = views(cols@);
    if cols.len() < 4 {
        return None;
    }
    assert(cs[0] == cols[0]@ && cs[1] == cols[1]@ && cs[3] == cols[3]@);
    if !chars_eq_str(&cols[0], "0.0.0.0") || !chars_eq_str(&cols[1], "0.0.0.0") {
        return None;
    }
    let ip = string_from(&cols[3]);
    if is_private_lan_ipv4(ip.as_str()) {
        Some(ip)
    } else {
        None
    }
}

/// The interface address of the first default route (`0.0.0.0 0.0.0.0 ...`) in
/// `route print` output whose interface is a private LAN address.
pub fn parse_windows_private_default_route_ipv4(output: &str) -> (res: Option<String>)
    ensures
        match res {
            Some(ip) => first_default_route(lines(output@)) == Some(ip@),
            None => first_default_route(lines(output@)) is None,
        },
{
    let chars = chars_of(output);
    let ls = lines_of(&chars);
    let ghost all = views(ls@);
    let mut i: usize = 0;
    assert(all.skip(0) =~= all);
    while i < ls.len()
        invariant
            all == views(ls@),
            all == lines(output@),
            i <= ls.len(),
            first_default_route(all) == first_default_route(all.skip(i as int)),
        decreases ls.len() - i,
    {
        assert(all.skip(i as int)[0] == ls[i as int]@);
        assert(all.skip(i as int).drop_first() =~= all.skip(i + 1));
        match default_route_interface_of(&ls[i]) {
            Some(ip) => {
                return Some(ip);
            },
            None => {},
        }
        i += 1;
    }
    assert(all.skip(i as int) =~= seq![]);
    None
}

/// The Tailscale address of an `ifconfig` line `inet <address> ...`.
fn inet_tailscale_address_of(line: &Vec<char>) -> (res: Option<String>)
    ensures
        match res {
            Some(ip) => inet_tailscale_address(line@) == Some(ip@),
            None => inet_tailscale_address(line@) is None,
        },
{
    let t = trim_chars(line);
    match strip_prefix_str(&t, "inet ") {
        None => None,
        Some(value) => {
            proof {
                reveal_strlit("inet ");
            }
            let ws = words_of(&value);
            if ws.len() == 0 {
                return None;
            }
            let ghost wv = views(ws@);
            assert(wv[0] == ws[0]@);
            let ip = string_from(&ws[0]);
            if is_tailscale_ipv4(ip.as_str()) {
                Some(ip)
            } else {
                None
            }
        },
    }
}

/// The first Tailscale address (100.64.0.0/10) on an `inet` line of `ifconfig` output.
pub fn parse_first_tailscale_ipv4_from_ifconfig(output: &str) -> (res: Option<String>)
    ensures
        match res {
            Some(ip) => first_inet_tailscale(lines(output@)) == Some(ip@),
            None => first_inet_tailscale(lines(output@)) is None,
        },
{
    let chars = chars_of(output);
    let ls = lines_of(&chars);
    let ghost all = views(ls@);
    let mut i: usize = 0;
    assert(all.skip(0) =~= all);
    while i < ls.len()
        invariant
            all == views(ls@),
            all == lines(output@),
            i <= ls.len(),
            first_inet_tailscale(all) == first_inet_tailscale(all.skip(i as int)),
        decreases ls.len() - i,
    {
        assert(all.skip(i as int)[0] == ls[i as int]@);
        assert(all.skip(i as int).drop_first() =~= all.skip(i + 1));
        match inet_tailscale_address_of(&ls[i]) {
            Some(ip) => {
                return Some(ip);
            },
            None => {},
        }
        i += 1;
    }
    assert(all.skip(i as int) =~= seq![]);
    None
}

} // verus!
