//! URLs as an HTTP client needs them.
use vstd::prelude::*;

use crate::parse::lexer::spec_bytes_len;
use crate::text::{
    chars_of, digit_char, format_radix, index_from, index_from_exec, lemma_index_from,
    parse_unsigned, parse_unsigned_exec, radix_digits, to_ascii_lowercase, ascii_lower,
};
use vstd::string::{StrSliceExecFns, StringExecFns};

verus! {

/// Represents protocols supported by wowser. Future additions to include HTTPS, FTP, FILE, etc.
#[derive(Debug, Clone, Copy, PartialEq, Eq, Structural)]
pub enum UrlProtocol {
    Http,
}

/// The protocol that a name stands for, whatever its case.
pub open spec fn protocol_of(name: Seq<char>) -> Option<UrlProtocol> {
    if name.map_values(|c: char| ascii_lower(c)) == "http"@ {
        Some(UrlProtocol::Http)
    } else {
        None
    }
}

impl UrlProtocol {
    /// The protocol that a name stands for, whatever its case.
    pub fn parse(protocol: &str) -> (res: Option<UrlProtocol>)
        ensures
            res == protocol_of(protocol@),
    {
        let lower = to_ascii_lowercase(protocol);
        if lower == String::from_str("http") {
            Some(UrlProtocol::Http)
        } else {
            None
        }
    }

    /// The name of the protocol.
    pub fn to_string(&self) -> (res: String)
        ensures
            res@ == "http"@,
    {
        String::from_str("http")
    }
}

/// An IP address: four octets, or eight 16-bit segments.
#[derive(Debug, Clone, Copy, PartialEq, Eq)]
pub enum IpAddress {
    V4(u8, u8, u8, u8),
    V6([u16; 8]),
}

/// Represents the host portion of a URL.
#[derive(Debug, PartialEq)]
pub enum UrlHost {
    IP(IpAddress),
    DomainName(String),
}

pub enum UrlHostView {
    IP(IpAddress),
    DomainName(Seq<char>),
}

impl View for UrlHost {
    type V = UrlHostView;

    open spec fn view(&self) -> UrlHostView {
        match self {
            UrlHost::IP(ip) => UrlHostView::IP(*ip),
            UrlHost::DomainName(d) => UrlHostView::DomainName(d@),
        }
    }
}

/// The parts of a text between the separator `c`, from position `pos` on.
pub open spec fn split_from(s: Seq<char>, c: char, pos: int) -> Seq<Seq<char>>
    decreases s.len() - pos,
{
    if pos < 0 || pos > s.len() {
        Seq::empty()
    } else {
        let i = index_from(s, c, pos);
        if i < 0 {
            seq![s.subrange(pos, s.len() as int)]
        } else {
            proof {
                lemma_index_from(s, c, pos);
            }
            seq![s.subrange(pos, i)] + split_from(s, c, i + 1)
        }
    }
}

/// An octet of a dotted IPv4 address: one to three decimal digits, without a leading zero
/// unless it is the only digit, of at most 255.
pub open spec fn octet_of(t: Seq<char>) -> Option<int> {
    if t.len() < 1 || t.len() > 3 || t[0] == '+' || (t.len() > 1 && t[0] == '0') {
        None
    } else {
        parse_unsigned(t, 10, 255)
    }
}

/// The IPv4 address that a text writes: four octets separated by dots.
pub open spec fn ipv4_of(s: Seq<char>) -> Option<IpAddress> {
    let p = split_from(s, '.', 0);
    if p.len() != 4 {
        None
    } else {
        match (octet_of(p[0]), octet_of(p[1]), octet_of(p[2]), octet_of(p[3])) {
            (Some(a), Some(b), Some(c), Some(d)) => Some(IpAddress::V4(a as u8, b as u8, c as u8, d as u8)),
            _ => None,
        }
    }
}

/// A group of an IPv6 address: one to four hexadecimal digits.
pub open spec fn hex_group_of(t: Seq<char>) -> Option<int> {
    if t.len() < 1 || t.len() > 4 || t[0] == '+' {
        None
    } else {
        parse_unsigned(t, 16, 65535)
    }
}

/// The groups that parts write, each one group, in order; `None` if a part writes none.
pub open spec fn hex_groups_of(parts: Seq<Seq<char>>) -> Option<Seq<u16>>
    decreases parts.len(),
{
    if parts.len() == 0 {
        Some(Seq::empty())
    } else {
        match (hex_groups_of(parts.drop_last()), hex_group_of(parts.last())) {
            (Some(g), Some(v)) => Some(g.push(v as u16)),
            _ => None,
        }
    }
}

/// The two groups that an IPv4 address stands for inside an IPv6 address.
pub open spec fn v4_groups(ip: IpAddress) -> Seq<u16> {
    match ip {
        IpAddress::V4(a, b, c, d) => seq![
            (a as int * 256 + b as int) as u16,
            (c as int * 256 + d as int) as u16,
        ],
        IpAddress::V6(_) => Seq::empty(),
    }
}

/// The groups that one side of an IPv6 address writes: nothing for an empty text, else
/// groups separated by colons, where the last may be a dotted IPv4 address (two groups)
/// when `allow_v4`.
pub open spec fn side_groups(t: Seq<char>, allow_v4: bool) -> Option<Seq<u16>> {
    if t.len() == 0 {
        Some(Seq::empty())
    } else {
        let parts = split_from(t, ':', 0);
        if allow_v4 && ipv4_of(parts.last()) is Some {
            match hex_groups_of(parts.drop_last()) {
                Some(g) => Some(g + v4_groups(ipv4_of(parts.last())->0)),
                None => None,
            }
        } else {
            hex_groups_of(parts)
        }
    }
}

/// Where the first `::` of a text starts, from position `from` on; -1 if there is none.
pub open spec fn double_colon_from(s: Seq<char>, from: int) -> int
    decreases s.len() - from,
{
    if from < 0 || from + 1 >= s.len() {
        -1
    } else if s[from] == ':' && s[from + 1] == ':' {
        from
    } else {
        double_colon_from(s, from + 1)
    }
}

/// The eight groups of the IPv6 address that a text writes: eight groups (the last two may
/// be a dotted IPv4 address), or the groups before a `::` and those after it (an IPv4
/// address may end them), with zero groups for the `::`, which stands for at least one.
pub open spec fn ipv6_of(s: Seq<char>) -> Option<Seq<u16>> {
    let k = double_colon_from(s, 0);
    if k < 0 {
        match side_groups(s, true) {
            Some(g) => if g.len() == 8 {
                Some(g)
            } else {
                None
            },
            None => None,
        }
    } else {
        match (side_groups(s.subrange(0, k), false), side_groups(s.subrange(k + 2, s.len() as int), true)) {
            (Some(h), Some(t)) => if h.len() + t.len() <= 7 {
                Some(h + Seq::new((8 - h.len() - t.len()) as nat, |i: int| 0u16) + t)
            } else {
                None
            },
            _ => None,
        }
    }
}

/// Eight groups as an array.
pub open spec fn groups_array(g: Seq<u16>) -> [u16; 8] {
    [g[0], g[1], g[2], g[3], g[4], g[5], g[6], g[7]]
}

/// The host that a text names: an IPv4 address or an IPv6 address where it writes one, else
/// a domain name.
pub open spec fn host_of(s: Seq<char>) -> UrlHostView {
    match ipv4_of(s) {
        Some(ip) => UrlHostView::IP(ip),
        None => match ipv6_of(s) {
            Some(g) => UrlHostView::IP(IpAddress::V6(groups_array(g))),
            None => UrlHostView::DomainName(s),
        },
    }
}

fn octet_exec(chars: &Vec<char>, from: usize, to: usize) -> (r: Option<u8>)
    requires
        from <= to <= chars@.len(),
    ensures
        match octet_of(chars@.subrange(from as int, to as int)) {
            Some(v) => r == Some(v as u8),
            None => r is None,
        },
{
    let ghost t = chars@.subrange(from as int, to as int);
    let len = to - from;
    if len < 1 || len > 3 || chars[from] == '+' || (len > 1 && chars[from] == '0') {
        return None;
    }
    let part = &chars.as_slice()[from..to];
    assert(part@ =~= t);
    match parse_unsigned_exec(part, 10, 255) {
        Some(v) => Some(v as u8),
        None => None,
    }
}

/// Reads a dotted IPv4 address, as `ipv4_of` states.
pub fn parse_ipv4(host: &str) -> (res: Option<IpAddress>)
    ensures
        res == ipv4_of(host@),
{
    let chars = chars_of(host);
    parse_ipv4_chars(&chars)
}

/// Reads a dotted IPv4 address from characters, as `ipv4_of` states.
fn parse_ipv4_chars(chars: &Vec<char>) -> (res: Option<IpAddress>)
    ensures
        res == ipv4_of(chars@),
{
    let n = chars.len();
    let mut bounds: Vec<(usize, usize)> = Vec::new();
    let mut pos: usize = 0;
    let mut done = false;
    while !done
        invariant
            n == chars@.len(),
            pos <= n,
            !done ==> split_from(chars@, '.', 0) == bounds@.map_values(
                |b: (usize, usize)| chars@.subrange(b.0 as int, b.1 as int),
            ) + split_from(chars@, '.', pos as int),
            done ==> split_from(chars@, '.', 0) == bounds@.map_values(
                |b: (usize, usize)| chars@.subrange(b.0 as int, b.1 as int),
            ),
            forall|k: int| 0 <= k < bounds@.len() ==> #[trigger] bounds@[k].0 <= bounds@[k].1 <= n,
        decreases n - pos + (if done {
            0int
        } else {
            1int
        }),
    {
        let ghost before = bounds@;
        let found = index_from_exec(chars, '.', pos);
        proof {
            lemma_index_from(chars@, '.', pos as int);
        }
        match found {
            None => {
                bounds.push((pos, n));
                assert(bounds@.map_values(|b: (usize, usize)| chars@.subrange(b.0 as int, b.1 as int))
                    =~= before.map_values(|b: (usize, usize)| chars@.subrange(b.0 as int, b.1 as int))
                    + seq![chars@.subrange(pos as int, n as int)]);
                done = true;
            },
            Some(i) => {
                if bounds.len() == 4 {
                    assert(split_from(chars@, '.', i + 1).len() >= 1);
                    assert(split_from(chars@, '.', 0).len() > 4);
                    return None;
                }
                bounds.push((pos, i));
                assert(forall|k: int| 0 <= k < before.len() ==> bounds@[k] == before[k]);
                assert(bounds@[before.len() as int] == (pos, i));
                assert(bounds@.map_values(|b: (usize, usize)| chars@.subrange(b.0 as int, b.1 as int))
                    =~= before.map_values(|b: (usize, usize)| chars@.subrange(b.0 as int, b.1 as int))
                    + seq![chars@.subrange(pos as int, i as int)]);
                pos = i + 1;
            },
        }
    }
    let ghost parts = split_from(chars@, '.', 0);
    if bounds.len() != 4 {
        return None;
    }
    let (a0, a1) = bounds[0];
    let (b0, b1) = bounds[1];
    let (c0, c1) = bounds[2];
    let (d0, d1) = bounds[3];
    let a = match octet_exec(&chars, a0, a1) {
        Some(v) => v,
        None => return None,
    };
    let b = match octet_exec(&chars, b0, b1) {
        Some(v) => v,
        None => return None,
    };
    let c = match octet_exec(&chars, c0, c1) {
        Some(v) => v,
        None => return None,
    };
    let d = match octet_exec(&chars, d0, d1) {
        Some(v) => v,
        None => return None,
    };
    Some(IpAddress::V4(a, b, c, d))
}

/// The characters of `s` from `from` to `to`.
fn sub_chars(s: &Vec<char>, from: usize, to: usize) -> (r: Vec<char>)
    requires
        from <= to <= s@.len(),
    ensures
        r@ == s@.subrange(from as int, to as int),
{
    let mut r: Vec<char> = Vec::new();
    let mut i = from;
    while i < to
        invariant
            from <= i <= to,
            to <= s@.len(),
            r@ == s@.subrange(from as int, i as int),
        decreases to - i,
    {
        r.push(s[i]);
        i = i + 1;
        assert(r@ =~= s@.subrange(from as int, i as int));
    }
    r
}

/// The views of parts.
pub open spec fn parts_view(ps: Seq<Vec<char>>) -> Seq<Seq<char>> {
    ps.map_values(|p: Vec<char>| p@)
}

/// The parts of `s` between the separator `c`, as `split_from` states.
fn split_parts(s: &Vec<char>, c: char) -> (r: Vec<Vec<char>>)
    ensures
        parts_view(r@) == split_from(s@, c, 0),
{
    let n = s.len();
    let mut parts: Vec<Vec<char>> = Vec::new();
    let mut pos: usize = 0;
    assert(parts_view(parts@) + split_from(s@, c, 0) =~= split_from(s@, c, 0));
    loop
        invariant
            n == s@.len(),
            pos <= n,
            split_from(s@, c, 0) == parts_view(parts@) + split_from(s@, c, pos as int),
        decreases n - pos,
    {
        let found = index_from_exec(s, c, pos);
        proof {
            lemma_index_from(s@, c, pos as int);
        }
        let ghost before = parts@;
        match found {
            None => {
                parts.push(sub_chars(s, pos, n));
                assert(parts_view(parts@) =~= parts_view(before) + seq![s@.subrange(pos as int, n as int)]);
                return parts;
            },
            Some(i) => {
                parts.push(sub_chars(s, pos, i));
                assert(parts_view(parts@) =~= parts_view(before) + seq![s@.subrange(pos as int, i as int)]);
                assert(split_from(s@, c, pos as int) == seq![s@.subrange(pos as int, i as int)]
                    + split_from(s@, c, i + 1));
                assert(parts_view(before) + split_from(s@, c, pos as int) =~= parts_view(parts@)
                    + split_from(s@, c, i + 1));
                pos = i + 1;
            },
        }
    }
}

/// Reads a group of an IPv6 address, as `hex_group_of` states.
fn hex_group_exec(t: &Vec<char>) -> (r: Option<u16>)
    ensures
        match hex_group_of(t@) {
            Some(v) => r == Some(v as u16),
            None => r is None,
        },
{
    let n = t.len();
    if n < 1 || n > 4 || t[0] == '+' {
        return None;
    }
    match parse_unsigned_exec(t.as_slice(), 16, 65535) {
        Some(v) => Some(v as u16),
        None => None,
    }
}

proof fn lemma_hex_groups_none(ps: Seq<Seq<char>>, i: int, j: int)
    requires
        0 <= i <= j <= ps.len(),
        hex_groups_of(ps.take(i)) is None,
    ensures
        hex_groups_of(ps.take(j)) is None,
    decreases j - i,
{
    if j > i {
        lemma_hex_groups_none(ps, i, j - 1);
        assert(ps.take(j).drop_last() =~= ps.take(j - 1));
    }
}

/// Reads the first `count` parts as groups, as `hex_groups_of` states.
fn hex_groups_exec(parts: &Vec<Vec<char>>, count: usize) -> (r: Option<Vec<u16>>)
    requires
        count <= parts@.len(),
    ensures
        match hex_groups_of(parts_view(parts@).take(count as int)) {
            Some(g) => r matches Some(v) && v@ == g,
            None => r is None,
        },
{
    let ghost pv = parts_view(parts@);
    let mut out: Vec<u16> = Vec::new();
    let mut i: usize = 0;
    assert(pv.take(0) =~= Seq::<Seq<char>>::empty());
    while i < count
        invariant
            count <= parts@.len(),
            pv == parts_view(parts@),
            i <= count,
            hex_groups_of(pv.take(i as int)) == Some(out@),
        decreases count - i,
    {
        assert(pv.take(i + 1).drop_last() =~= pv.take(i as int));
        assert(pv.take(i + 1).last() == parts@[i as int]@);
        match hex_group_exec(&parts[i]) {
            Some(v) => {
                out.push(v);
            },
            None => {
                proof {
                    lemma_hex_groups_none(pv, i + 1, count as int);
                }
                return None;
            },
        }
        i = i + 1;
    }
    Some(out)
}

/// Reads one side of an IPv6 address, as `side_groups` states.
fn side_groups_exec(t: &Vec<char>, allow_v4: bool) -> (r: Option<Vec<u16>>)
    ensures
        match side_groups(t@, allow_v4) {
            Some(g) => r matches Some(v) && v@ == g,
            None => r is None,
        },
{
    if t.len() == 0 {
        return Some(Vec::new());
    }
    let parts = split_parts(t, ':');
    let ghost pv = parts_view(parts@);
    assert(pv.len() >= 1);
    let k = parts.len();
    assert(pv.take(k as int) =~= pv);
    assert(pv.take(k - 1) =~= pv.drop_last());
    assert(pv.last() == parts@[k - 1]@);
    if allow_v4 {
        match parse_ipv4_chars(&parts[k - 1]) {
            Some(IpAddress::V4(a, b, c, d)) => {
                match hex_groups_exec(&parts, k - 1) {
                    Some(g) => {
                        let mut g = g;
                        let ghost before = g@;
                        g.push((a as u16) * 256 + (b as u16));
                        g.push((c as u16) * 256 + (d as u16));
                        assert(g@ =~= before + v4_groups(IpAddress::V4(a, b, c, d)));
                        return Some(g);
                    },
                    None => {
                        return None;
                    },
                }
            },
            _ => {},
        }
    }
    hex_groups_exec(&parts, k)
}

/// Where the first `::` of `s` starts, as `double_colon_from` states.
fn double_colon_exec(s: &Vec<char>) -> (r: Option<usize>)
    ensures
        match r {
            Some(k) => k == double_colon_from(s@, 0) && k + 1 < s@.len(),
            None => double_colon_from(s@, 0) < 0,
        },
{
    let n = s.len();
    let mut i: usize = 0;
    while n > 0 && i < n - 1
        invariant
            n == s@.len(),
            double_colon_from(s@, 0) == double_colon_from(s@, i as int),
        decreases n - i,
    {
        if s[i] == ':' && s[i + 1] == ':' {
            return Some(i);
        }
        i = i + 1;
    }
    None
}

/// Eight groups as an array.
fn to_array(g: &Vec<u16>) -> (r: [u16; 8])
    requires
        g@.len() == 8,
    ensures
        r == groups_array(g@),
{
    [g[0], g[1], g[2], g[3], g[4], g[5], g[6], g[7]]
}

/// Reads an IPv6 address, as `ipv6_of` states.
fn parse_ipv6_chars(s: &Vec<char>) -> (r: Option<[u16; 8]>)
    ensures
        match ipv6_of(s@) {
            Some(g) => r == Some(groups_array(g)),
            None => r is None,
        },
{
    let n = s.len();
    match double_colon_exec(s) {
        None => match side_groups_exec(s, true) {
            Some(g) => if g.len() == 8 {
                Some(to_array(&g))
            } else {
                None
            },
            None => None,
        },
        Some(k) => {
            let head = sub_chars(s, 0, k);
            let tail = sub_chars(s, k + 2, n);
            let h = match side_groups_exec(&head, false) {
                Some(h) => h,
                None => return None,
            };
            let t = match side_groups_exec(&tail, true) {
                Some(t) => t,
                None => return None,
            };
            if h.len() > 7 || t.len() > 7 - h.len() {
                return None;
            }
            let zeros = 8 - h.len() - t.len();
            let mut g = h;
            let ghost hv = g@;
            let mut j: usize = 0;
            while j < zeros
                invariant
                    j <= zeros,
                    g@ == hv + Seq::new(j as nat, |i: int| 0u16),
                decreases zeros - j,
            {
                g.push(0u16);
                j = j + 1;
                assert(g@ =~= hv + Seq::new(j as nat, |i: int| 0u16));
            }
            let ghost gz = g@;
            let mut i: usize = 0;
            while i < t.len()
                invariant
                    i <= t@.len(),
                    g@ == gz + t@.take(i as int),
                decreases t@.len() - i,
            {
                g.push(t[i]);
                i = i + 1;
                assert(g@ =~= gz + t@.take(i as int));
            }
            assert(t@.take(t@.len() as int) =~= t@);
            Some(to_array(&g))
        },
    }
}

impl UrlHost {
    /// The host that a text names: an IPv4 or IPv6 address where it writes one, else a
    /// domain name.
    pub fn from_text(host: &str) -> (res: UrlHost)
        ensures
            res@ == host_of(host@),
    {
        match parse_ipv4(host) {
            Some(ip) => UrlHost::IP(ip),
            None => match parse_ipv6_chars(&chars_of(host)) {
                Some(groups) => UrlHost::IP(IpAddress::V6(groups)),
                None => UrlHost::DomainName(String::from_str(host)),
            },
        }
    }
}

/// A dotted IPv4 address in text.
pub open spec fn ipv4_text(a: u8, b: u8, c: u8, d: u8) -> Seq<char> {
    radix_digits(a as nat, 10) + seq!['.'] + radix_digits(b as nat, 10) + seq!['.'] + radix_digits(
        c as nat,
        10,
    ) + seq!['.'] + radix_digits(d as nat, 10)
}

/// Segments in lower-case hexadecimal, separated by colons.
pub open spec fn hex_groups(segs: Seq<u16>) -> Seq<char>
    decreases segs.len(),
{
    if segs.len() == 0 {
        Seq::empty()
    } else if segs.len() == 1 {
        radix_digits(segs[0] as nat, 16)
    } else {
        hex_groups(segs.drop_last()) + seq![':'] + radix_digits(segs.last() as nat, 16)
    }
}

/// The number of zero segments from `start` on, up to the first other one.
pub open spec fn zero_run(segs: Seq<u16>, start: int) -> int
    decreases segs.len() - start,
{
    if start < 0 || start >= segs.len() || segs[start] != 0 {
        0
    } else {
        1 + zero_run(segs, start + 1)
    }
}

/// The start and length of the first longest run of zero segments starting before `k`.
pub open spec fn longest_zero_run(segs: Seq<u16>, k: int) -> (int, int)
    decreases k,
{
    if k <= 0 {
        (0, 0)
    } else {
        let best = longest_zero_run(segs, k - 1);
        if zero_run(segs, k - 1) > best.1 {
            (k - 1, zero_run(segs, k - 1))
        } else {
            best
        }
    }
}

/// An IPv6 address in text: an IPv4-mapped address as `::ffff:` and the dotted IPv4 form;
/// otherwise the segments in hexadecimal, with the first longest run of two or more zero
/// segments written as `::`.
pub open spec fn ipv6_text(segs: Seq<u16>) -> Seq<char> {
    if segs[0] == 0 && segs[1] == 0 && segs[2] == 0 && segs[3] == 0 && segs[4] == 0 && segs[5]
        == 0xffff {
        "::ffff:"@ + ipv4_text(
            (segs[6] / 256) as u8,
            (segs[6] % 256) as u8,
            (segs[7] / 256) as u8,
            (segs[7] % 256) as u8,
        )
    } else {
        let run = longest_zero_run(segs, 8);
        if run.1 > 1 {
            hex_groups(segs.take(run.0)) + "::"@ + hex_groups(segs.skip(run.0 + run.1))
        } else {
            hex_groups(segs)
        }
    }
}

/// A host in text.
pub open spec fn host_text(h: UrlHostView) -> Seq<char> {
    match h {
        UrlHostView::IP(IpAddress::V4(a, b, c, d)) => ipv4_text(a, b, c, d),
        UrlHostView::IP(IpAddress::V6(segs)) => ipv6_text(segs@),
        UrlHostView::DomainName(d) => d,
    }
}

fn ipv4_string(a: u8, b: u8, c: u8, d: u8) -> (r: String)
    ensures
        r@ == ipv4_text(a, b, c, d),
{
    proof {
        reveal_strlit(".");
    }
    let mut r = format_radix(a as u64, 10);
    r.append(".");
    r.append(format_radix(b as u64, 10).as_str());
    r.append(".");
    r.append(format_radix(c as u64, 10).as_str());
    r.append(".");
    r.append(format_radix(d as u64, 10).as_str());
    r
}

fn hex_groups_string(segs: &[u16; 8], from: usize, to: usize) -> (r: String)
    requires
        from <= to <= 8,
    ensures
        r@ == hex_groups(segs@.subrange(from as int, to as int)),
{
    let mut r = String::new();
    let mut i = from;
    while i < to
        invariant
            from <= i <= to <= 8,
            r@ == hex_groups(segs@.subrange(from as int, i as int)),
        decreases to - i,
    {
        let ghost prev = segs@.subrange(from as int, i as int);
        proof {
            reveal_strlit(":");
        }
        if i > from {
            r.append(":");
        }
        r.append(format_radix(segs[i] as u64, 16).as_str());
        i = i + 1;
        proof {
            let cur = segs@.subrange(from as int, i as int);
            assert(cur.drop_last() =~= prev);
            if prev.len() == 0 {
                assert(r@ =~= hex_groups(cur));
            } else {
                assert(r@ =~= hex_groups(cur));
            }
        }
    }
    r
}

fn ipv6_string(segs: &[u16; 8]) -> (r: String)
    ensures
        r@ == ipv6_text(segs@),
{
    if segs[0] == 0 && segs[1] == 0 && segs[2] == 0 && segs[3] == 0 && segs[4] == 0 && segs[5]
        == 0xffff {
        let mut r = String::from_str("::ffff:");
        let v4 = ipv4_string(
            (segs[6] / 256) as u8,
            (segs[6] % 256) as u8,
            (segs[7] / 256) as u8,
            (segs[7] % 256) as u8,
        );
        r.append(v4.as_str());
        return r;
    }
    let mut best_start: usize = 0;
    let mut best_len: usize = 0;
    let mut k: usize = 0;
    while k < 8
        invariant
            k <= 8,
            longest_zero_run(segs@, k as int) == (best_start as int, best_len as int),
            best_start + best_len <= 8,
        decreases 8 - k,
    {
        let mut run: usize = 0;
        while k + run < 8 && segs[k + run] == 0
            invariant
                k < 8,
                k + run <= 8,
                zero_run(segs@, k as int) == run + zero_run(segs@, (k + run) as int),
            decreases 8 - k - run,
        {
            run = run + 1;
        }
        if run > best_len {
            best_start = k;
            best_len = run;
        }
        k = k + 1;
    }
    if best_len > 1 {
        let mut r = hex_groups_string(segs, 0, best_start);
        r.append("::");
        r.append(hex_groups_string(segs, best_start + best_len, 8).as_str());
        assert(segs@.subrange(0, best_start as int) =~= segs@.take(best_start as int));
        assert(segs@.subrange((best_start + best_len) as int, 8) =~= segs@.skip(
            (best_start + best_len) as int,
        ));
        r
    } else {
        let r = hex_groups_string(segs, 0, 8);
        assert(segs@.subrange(0, 8) =~= segs@);
        r
    }
}

impl UrlHost {
    /// The host in text: an address in its usual form, or the domain name.
    pub fn to_string(&self) -> (res: String)
        ensures
            res@ == host_text(self@),
    {
        match self {
            UrlHost::IP(IpAddress::V4(a, b, c, d)) => ipv4_string(*a, *b, *c, *d),
            UrlHost::IP(IpAddress::V6(segs)) => ipv6_string(segs),
            UrlHost::DomainName(d) => d.clone(),
        }
    }
}

/// Represents an entire URL in a way helpful for an HTTP library. The querystring is intentionally
/// not a represented as a map because it's simply a string for the purposes of the protocol.
#[derive(Debug, PartialEq)]
pub struct Url {
    pub protocol: UrlProtocol,
    pub host: UrlHost,
    pub port: u16,
    pub path: String,
    pub query_string: String,
    pub fragment: String,
}

pub struct UrlView {
    pub protocol: UrlProtocol,
    pub host: UrlHostView,
    pub port: u16,
    pub path: Seq<char>,
    pub query_string: Seq<char>,
    pub fragment: Seq<char>,
}

impl View for Url {
    type V = UrlView;

    open spec fn view(&self) -> UrlView {
        UrlView {
            protocol: self.protocol,
            host: self.host@,
            port: self.port,
            path: self.path@,
            query_string: self.query_string@,
            fragment: self.fragment@,
        }
    }
}

/// A URL in text: protocol, `://`, host, `:`, port, then the path, `?` and the query
/// string, and `#` and the fragment, each of the last three only when it is not empty.
pub open spec fn url_text(u: UrlView) -> Seq<char> {
    "http"@ + "://"@ + host_text(u.host) + ":"@ + radix_digits(u.port as nat, 10) + u.path + (
    if u.query_string.len() == 0 {
        Seq::empty()
    } else {
        "?"@ + u.query_string
    }) + (if u.fragment.len() == 0 {
        Seq::empty()
    } else {
        "#"@ + u.fragment
    })
}

/// The path to send in HTTP requests: the path (`/` when it is empty), then `?` and the
/// query string when that is not empty.
pub open spec fn request_path(u: UrlView) -> Seq<char> {
    (if u.path.len() == 0 {
        "/"@
    } else {
        u.path
    }) + (if u.query_string.len() == 0 {
        Seq::empty()
    } else {
        "?"@ + u.query_string
    })
}

/// The text of a URL with a fragment ends with `#` and the fragment, whatever its query
/// string.
pub proof fn lemma_url_text_ends_with_fragment(u: UrlView)
    requires
        u.fragment.len() > 0,
    ensures
        url_text(u).len() > u.fragment.len(),
        url_text(u).skip(url_text(u).len() - u.fragment.len() - 1) == seq!['#'] + u.fragment,
{
    reveal_strlit("#");
    let t = url_text(u);
    let tail = seq!['#'] + u.fragment;
    let head = t.take(t.len() - tail.len());
    assert(t =~= head + tail);
}

/// The text of a URL without a fragment but with a query string ends with `?` and the query
/// string.
pub proof fn lemma_url_text_ends_with_query(u: UrlView)
    requires
        u.fragment.len() == 0,
        u.query_string.len() > 0,
    ensures
        url_text(u).len() > u.query_string.len(),
        url_text(u).skip(url_text(u).len() - u.query_string.len() - 1) == seq!['?'] + u.query_string,
{
    reveal_strlit("?");
    let t = url_text(u);
    let tail = seq!['?'] + u.query_string;
    let head = t.take(t.len() - tail.len());
    assert(t =~= head + tail);
}

/// The text of a URL starts with its protocol, `://`, its host, `:` and its port, followed
/// by its path.
pub proof fn lemma_url_text_starts_with_origin(u: UrlView)
    ensures
        ({
            let origin = "http://"@ + host_text(u.host) + seq![':'] + radix_digits(u.port as nat, 10);
            &&& url_text(u).len() >= origin.len() + u.path.len()
            &&& url_text(u).take(origin.len() + u.path.len() as int) == origin + u.path
        }),
{
    reveal_strlit("http");
    reveal_strlit("://");
    reveal_strlit(":");
    reveal_strlit("http://");
    let origin = "http://"@ + host_text(u.host) + seq![':'] + radix_digits(u.port as nat, 10);
    assert("http"@ + "://"@ =~= "http://"@);
    let t = url_text(u);
    let rest = t.skip(origin.len() + u.path.len() as int);
    assert(t =~= origin + u.path + rest);
}

/// The path of a request starts with the URL's path when that is not empty (with `/` when
/// it is), whatever the query string.
pub proof fn lemma_request_path_starts_with_path(u: UrlView)
    ensures
        u.path.len() > 0 ==> request_path(u).len() >= u.path.len() && request_path(u).take(
            u.path.len() as int,
        ) == u.path,
        u.path.len() == 0 ==> request_path(u).len() >= 1 && request_path(u)[0] == '/',
{
    reveal_strlit("/");
    let p = if u.path.len() == 0 {
        "/"@
    } else {
        u.path
    };
    let r = request_path(u);
    assert(r.take(p.len() as int) =~= p);
}

/// The path of a request ends with `?` and the query string when that is not empty, and is
/// just the path (or `/`) when it is; the fragment never takes part.
pub proof fn lemma_request_path_query(u: UrlView, fragment: Seq<char>)
    ensures
        u.query_string.len() > 0 ==> request_path(u).len() > u.query_string.len() && request_path(
            u,
        ).skip(request_path(u).len() - u.query_string.len() - 1) == seq!['?'] + u.query_string,
        u.query_string.len() == 0 ==> request_path(u) == (if u.path.len() == 0 {
            seq!['/']
        } else {
            u.path
        }),
        request_path(UrlView { fragment, ..u }) == request_path(u),
{
    reveal_strlit("/");
    reveal_strlit("?");
    let r = request_path(u);
    if u.query_string.len() > 0 {
        let tail = seq!['?'] + u.query_string;
        let head = r.take(r.len() - tail.len());
        assert(r =~= head + tail);
    } else {
        assert(r =~= (if u.path.len() == 0 {
            seq!['/']
        } else {
            u.path
        }));
    }
}

/// The pattern of the URLs that `Url::parse` reads: protocol, `://`, host, an optional port,
/// path, query string and fragment.
pub const URL_PATTERN: &'static str =
    r"(\w+)://([a-zA-Z\d]+([\w\d\-\.]*[a-zA-Z\d]+)?)(:(\d+))?(/[^\?]*)?(\?([^#]*))?(#(.*))?";

/// What the `regex` crate finds for a pattern in a text: `Err` when the pattern does not
/// compile, `Ok(None)` without a match, otherwise the text of each capture group of the first
/// match (group 0 being the whole match), `None` for a group that did not take part.
pub uninterp spec fn regex_captures(pattern: Seq<char>, text: Seq<char>) -> Result<
    Option<Seq<Option<Seq<char>>>>,
    (),
>;

/// The view of capture groups.
pub open spec fn groups_view(gs: Seq<Option<&str>>) -> Seq<Option<Seq<char>>> {
    gs.map_values(
        |g: Option<&str>|
            match g {
                Some(s) => Some(s@),
                None => None,
            },
    )
}

/// The view of what `regex` finds.
pub open spec fn regex_result_view(r: Result<Option<Vec<Option<&str>>>, ()>) -> Result<
    Option<Seq<Option<Seq<char>>>>,
    (),
> {
    match r {
        Err(()) => Err(()),
        Ok(None) => Ok(None),
        Ok(Some(gs)) => Ok(Some(groups_view(gs@))),
    }
}

/// `regex::Regex::new` on the pattern, then `Regex::captures` on the text, with
/// `Captures::get` for every group. What it finds is named `regex_captures`; of it, only
/// what the crate documents is stated: group 0, the whole match, is always there.
#[verifier::external_body]
fn captures_of<'a>(pattern: &str, text: &'a str) -> (r: Result<Option<Vec<Option<&'a str>>>, ()>)
    ensures
        regex_result_view(r) == regex_captures(pattern@, text@),
        r matches Ok(Some(gs)) ==> gs@.len() >= 1 && gs@[0] is Some,
{
    let re = match regex::Regex::new(pattern) {
        Ok(re) => re,
        Err(_) => return Err(()),
    };
    match re.captures(text) {
        None => Ok(None),
        Some(c) => Ok(Some((0..c.len()).map(|i| c.get(i).map(|m| m.as_str())).collect())),
    }
}

/// Capture group `i`, `None` where there is none.
pub open spec fn group(gs: Seq<Option<Seq<char>>>, i: int) -> Option<Seq<char>> {
    if 0 <= i < gs.len() {
        gs[i]
    } else {
        None
    }
}

/// A capture group, or a default where it did not take part.
pub open spec fn group_or(gs: Seq<Option<Seq<char>>>, i: int, default: Seq<char>) -> Seq<char> {
    match group(gs, i) {
        Some(s) => s,
        None => default,
    }
}

/// The URL that the capture groups of the URL pattern describe. The whole match must cover
/// the whole text; the protocol must be `http` (in any case) and the port a decimal `u16`.
/// The port defaults to 80 and the path to `/`.
pub open spec fn url_of_captures(url: Seq<char>, r: Result<Option<Seq<Option<Seq<char>>>>, ()>) -> Option<
    UrlView,
> {
    match r {
        Err(()) => None,
        Ok(None) => None,
        Ok(Some(gs)) => match (group(gs, 0), group(gs, 1), group(gs, 2)) {
            (Some(whole), Some(protocol), Some(host)) => if spec_bytes_len(whole) != spec_bytes_len(
                url,
            ) {
                None
            } else {
                match (protocol_of(protocol), parse_unsigned(group_or(gs, 5, "80"@), 10, 65535)) {
                    (Some(p), Some(port)) => Some(
                        UrlView {
                            protocol: p,
                            host: host_of(host),
                            port: port as u16,
                            path: group_or(gs, 6, "/"@),
                            query_string: group_or(gs, 8, ""@),
                            fragment: group_or(gs, 10, ""@),
                        },
                    ),
                    _ => None,
                }
            },
            _ => None,
        },
    }
}

fn group_exec<'a>(gs: &Vec<Option<&'a str>>, i: usize) -> (r: Option<&'a str>)
    ensures
        match r {
            Some(s) => group(groups_view(gs@), i as int) == Some(s@),
            None => group(groups_view(gs@), i as int) is None,
        },
{
    if i < gs.len() {
        gs[i]
    } else {
        None
    }
}

fn group_or_exec<'a>(gs: &Vec<Option<&'a str>>, i: usize, default: &'a str) -> (r: &'a str)
    ensures
        r@ == group_or(groups_view(gs@), i as int, default@),
{
    match group_exec(gs, i) {
        Some(s) => s,
        None => default,
    }
}

impl Url {
    /// A URL of the given parts; an empty path becomes `/`.
    pub fn new(
        protocol: UrlProtocol,
        host: UrlHost,
        port: u16,
        path: &str,
        query_string: &str,
        fragment: &str,
    ) -> (res: Url)
        ensures
            res@ == (UrlView {
                protocol,
                host: host@,
                port,
                path: if path@.len() == 0 {
                    "/"@
                } else {
                    path@
                },
                query_string: query_string@,
                fragment: fragment@,
            }),
    {
        let path_string = if path.is_empty() {
            String::from_str("/")
        } else {
            String::from_str(path)
        };
        Url {
            protocol,
            host,
            port,
            path: path_string,
            query_string: String::from_str(query_string),
            fragment: String::from_str(fragment),
        }
    }

    /// The URL that the capture groups of the URL pattern describe, as `url_of_captures`
    /// states.
    pub fn from_captures<'a>(url: &str, captures: Result<Option<Vec<Option<&'a str>>>, ()>) -> (res:
        Option<Url>)
        ensures
            match url_of_captures(url@, regex_result_view(captures)) {
                Some(u) => res matches Some(r) && r@ == u,
                None => res is None,
            },
    {
        let gs = match captures {
            Err(()) => return None,
            Ok(None) => return None,
            Ok(Some(gs)) => gs,
        };
        let whole = match group_exec(&gs, 0) {
            Some(w) => w,
            None => return None,
        };
        let protocol = match group_exec(&gs, 1) {
            Some(p) => p,
            None => return None,
        };
        let host = match group_exec(&gs, 2) {
            Some(h) => h,
            None => return None,
        };
        if whole.as_bytes().len() != url.as_bytes().len() {
            return None;
        }
        let port_text = group_or_exec(&gs, 5, "80");
        let path = group_or_exec(&gs, 6, "/");
        let query_string = group_or_exec(&gs, 8, "");
        let fragment = group_or_exec(&gs, 10, "");
        let protocol = match UrlProtocol::parse(protocol) {
            Some(p) => p,
            None => return None,
        };
        let port_chars = chars_of(port_text);
        let port = match parse_unsigned_exec(port_chars.as_slice(), 10, 65535) {
            Some(p) => p as u16,
            None => return None,
        };
        Some(
            Url {
                protocol,
                host: UrlHost::from_text(host),
                port,
                path: String::from_str(path),
                query_string: String::from_str(query_string),
                fragment: String::from_str(fragment),
            },
        )
    }

    /// Reads a URL of the form `protocol://host[:port][/path][?query][#fragment]`, where
    /// the whole text must match; see `url_of_captures`.
    pub fn parse(url: &str) -> (res: Option<Url>)
        ensures
            match url_of_captures(url@, regex_captures(URL_PATTERN@, url@)) {
                Some(u) => res matches Some(r) && r@ == u,
                None => res is None,
            },
    {
        let captures = captures_of(URL_PATTERN, url);
        Self::from_captures(url, captures)
    }

    /// The representation of the path to send in HTTP requests
    pub fn http_request_path(&self) -> (ret: String)
        ensures
            ret@ == request_path(self@),
    {
        proof {
            reveal_strlit("/");
            reveal_strlit("?");
        }
        let mut ret = String::new();
        if self.path.as_str().is_empty() {
            ret.append("/");
        } else {
            ret.append(self.path.as_str());
        }
        if !self.query_string.as_str().is_empty() {
            ret.append("?");
            ret.append(self.query_string.as_str());
        }
        assert(ret@ =~= request_path(self@));
        ret
    }

    /// The URL in text, as `url_text` states.
    pub fn to_string(&self) -> (ret: String)
        ensures
            ret@ == url_text(self@),
    {
        let mut ret = self.protocol.to_string();
        ret.append("://");
        ret.append(self.host.to_string().as_str());
        ret.append(":");
        ret.append(format_radix(self.port as u64, 10).as_str());
        ret.append(self.path.as_str());
        if !self.query_string.as_str().is_empty() {
            ret.append("?");
            ret.append(self.query_string.as_str());
        }
        if !self.fragment.as_str().is_empty() {
            ret.append("#");
            ret.append(self.fragment.as_str());
        }
        assert(ret@ =~= url_text(self@));
        ret
    }
}

} // verus!
