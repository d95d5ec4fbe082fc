//! Socket addresses in text: `192.0.2.1:80` and `[2001:db8::1%2]:80`.

use crate::addr::{
    ipv6_of, make_segment, segment_of, Ipv4Addr, Ipv6Addr, SocketAddr, SocketAddrV4, SocketAddrV6,
};
use crate::number::{number_at, read_number, NumberForm};
use vstd::prelude::*;

verus! {

/// One octet in decimal: up to three digits, no superfluous zero.
pub open spec fn octet_form() -> NumberForm {
    NumberForm { hex: false, max_digits: 3, zero_prefix: false, max: 255 }
}

/// One IPv6 group: up to four hexadecimal digits.
pub open spec fn group_form() -> NumberForm {
    NumberForm { hex: true, max_digits: 4, zero_prefix: true, max: 65535 }
}

/// A port in decimal.
pub open spec fn port_form() -> NumberForm {
    NumberForm { hex: false, max_digits: 0, zero_prefix: true, max: 65535 }
}

/// An IPv6 scope in decimal.
pub open spec fn scope_form() -> NumberForm {
    NumberForm { hex: false, max_digits: 0, zero_prefix: true, max: u32::MAX }
}

pub open spec fn char_at(s: Seq<char>, i: int, c: char) -> bool {
    0 <= i < s.len() && s[i] == c
}

/// A `c` at `i` and a number behind it.
pub open spec fn read_after(s: Seq<char>, i: int, c: char, form: NumberForm) -> Option<
    (nat, int),
> {
    if char_at(s, i, c) {
        read_number(s, i + 1, form)
    } else {
        None
    }
}

/// Four octets with dots between them, starting at `i`.
pub open spec fn read_ipv4(s: Seq<char>, i: int) -> Option<(Ipv4Addr, int)> {
    match read_number(s, i, octet_form()) {
        None => None,
        Some((a, i1)) => match read_after(s, i1, '.', octet_form()) {
            None => None,
            Some((b, i2)) => match read_after(s, i2, '.', octet_form()) {
                None => None,
                Some((c, i3)) => match read_after(s, i3, '.', octet_form()) {
                    None => None,
                    Some((d, i4)) => Some((Ipv4Addr(a as u8, b as u8, c as u8, d as u8), i4)),
                },
            },
        },
    }
}

/// What group `k` of a run of groups starts with: a colon, except for the first.
pub open spec fn group_start(s: Seq<char>, i: int, k: nat) -> Option<int> {
    if k == 0 {
        Some(i)
    } else if char_at(s, i, ':') {
        Some(i + 1)
    } else {
        None
    }
}

/// Groups `k..limit` of an IPv6 address as far as they can be read at `i`: their values,
/// where they end, and whether the last two were written as an IPv4 address.
pub open spec fn read_groups(s: Seq<char>, i: int, k: nat, limit: nat) -> (Seq<u16>, int, bool)
    decreases limit - k,
{
    if k >= limit {
        (Seq::empty(), i, false)
    } else {
        match group_start(s, i, k) {
            None => (Seq::empty(), i, false),
            Some(start) => {
                let v4 = if k + 1 < limit {
                    read_ipv4(s, start)
                } else {
                    None
                };
                match v4 {
                    Some((ip, end)) => (
                        seq![segment_of(ip.0, ip.1), segment_of(ip.2, ip.3)],
                        end,
                        true,
                    ),
                    None => match read_number(s, start, group_form()) {
                        Some((g, end)) => {
                            let rest = read_groups(s, end, k + 1, limit);
                            (seq![g as u16] + rest.0, rest.1, rest.2)
                        },
                        None => (Seq::empty(), i, false),
                    },
                }
            },
        }
    }
}

/// Zero groups.
pub open spec fn zeros(n: nat) -> Seq<u16> {
    Seq::new(n, |i: int| 0u16)
}

/// The eight groups of an IPv6 address that starts at `i`, a `::` standing for one or
/// more zero groups.
pub open spec fn read_ipv6(s: Seq<char>, i: int) -> Option<(Ipv6Addr, int)> {
    let head = read_groups(s, i, 0, 8);
    if head.0.len() == 8 {
        Some((ipv6_of(head.0), head.1))
    } else if head.2 {
        None
    } else if char_at(s, head.1, ':') && char_at(s, head.1 + 1, ':') {
        let tail = read_groups(s, head.1 + 2, 0, (7 - head.0.len()) as nat);
        let groups = head.0 + zeros((8 - head.0.len() - tail.0.len()) as nat) + tail.0;
        Some((ipv6_of(groups), tail.1))
    } else {
        None
    }
}

/// `ip:port` from the start of `s`.
pub open spec fn read_socket_v4(s: Seq<char>) -> Option<(SocketAddr, int)> {
    match read_ipv4(s, 0) {
        None => None,
        Some((ip, i)) => match read_after(s, i, ':', port_form()) {
            None => None,
            Some((port, j)) => Some(
                (SocketAddr::V4(SocketAddrV4 { ip, port: port as u16 }), j),
            ),
        },
    }
}

/// `[ip]:port` or `[ip%scope]:port` from the start of `s`.
pub open spec fn read_socket_v6(s: Seq<char>) -> Option<(SocketAddr, int)> {
    if !char_at(s, 0, '[') {
        None
    } else {
        match read_ipv6(s, 1) {
            None => None,
            Some((ip, i)) => {
                let (scope, close): (nat, int) = match read_after(s, i, '%', scope_form()) {
                    Some((scope, j)) => (scope, j),
                    None => (0, i),
                };
                if !char_at(s, close, ']') {
                    None
                } else {
                    match read_after(s, close + 1, ':', port_form()) {
                        None => None,
                        Some((port, j)) => Some(
                            (
                                SocketAddr::V6(
                                    SocketAddrV6 {
                                        ip,
                                        port: port as u16,
                                        flowinfo: 0,
                                        scope_id: scope as u32,
                                    },
                                ),
                                j,
                            ),
                        ),
                    }
                }
            },
        }
    }
}

/// The socket address that the whole of `s` spells.
pub open spec fn socket_addr_text(s: Seq<char>) -> Option<SocketAddr> {
    let read = match read_socket_v4(s) {
        Some(found) => Some(found),
        None => read_socket_v6(s),
    };
    match read {
        Some((addr, end)) => if end == s.len() {
            Some(addr)
        } else {
            None
        },
        None => None,
    }
}

fn is_char(v: &[char], i: usize, c: char) -> (r: bool)
    ensures
        r == char_at(v@, i as int, c),
        v@.len() <= usize::MAX,
{
    i < v.len() && v[i] == c
}

fn number_after(v: &[char], i: usize, c: char, form: NumberForm) -> (r: Option<(u32, usize)>)
    ensures
        r matches Some((n, j)) ==> read_after(v@, i as int, c, form) == Some(
            (n as nat, j as int),
        ) && i < j <= v@.len() && n <= form.max,
        r is None ==> read_after(v@, i as int, c, form) is None,
{
    if is_char(v, i, c) {
        number_at(v, i + 1, form)
    } else {
        None
    }
}

fn ipv4_at(v: &[char], i: usize) -> (r: Option<(Ipv4Addr, usize)>)
    requires
        i <= v@.len(),
    ensures
        r matches Some((ip, j)) ==> read_ipv4(v@, i as int) == Some((ip, j as int)) && i < j
            <= v@.len(),
        r is None ==> read_ipv4(v@, i as int) is None,
{
    let (a, i1) = match number_at(
        v,
        i,
        NumberForm { hex: false, max_digits: 3, zero_prefix: false, max: 255 },
    ) {
        Some(found) => found,
        None => return None,
    };
    let (b, i2) = match number_after(
        v,
        i1,
        '.',
        NumberForm { hex: false, max_digits: 3, zero_prefix: false, max: 255 },
    ) {
        Some(found) => found,
        None => return None,
    };
    let (c, i3) = match number_after(
        v,
        i2,
        '.',
        NumberForm { hex: false, max_digits: 3, zero_prefix: false, max: 255 },
    ) {
        Some(found) => found,
        None => return None,
    };
    let (d, i4) = match number_after(
        v,
        i3,
        '.',
        NumberForm { hex: false, max_digits: 3, zero_prefix: false, max: 255 },
    ) {
        Some(found) => found,
        None => return None,
    };
    Some((Ipv4Addr(a as u8, b as u8, c as u8, d as u8), i4))
}

/// Reads groups from `k` on behind those that `groups` already holds.
fn groups_at(v: &[char], i: usize, k: usize, limit: usize, groups: &mut Vec<u16>) -> (r: (
    usize,
    bool,
))
    requires
        i <= v@.len(),
        k <= limit <= 8,
    ensures
        final(groups)@ == old(groups)@ + read_groups(v@, i as int, k as nat, limit as nat).0,
        r.0 == read_groups(v@, i as int, k as nat, limit as nat).1,
        r.1 == read_groups(v@, i as int, k as nat, limit as nat).2,
        i <= r.0 <= v@.len(),
        read_groups(v@, i as int, k as nat, limit as nat).0.len() <= limit - k,
    decreases limit - k,
{
    if k >= limit {
        return (i, false);
    }
    let start: usize = if k == 0 {
        i
    } else if is_char(v, i, ':') {
        i + 1
    } else {
        return (i, false);
    };
    if k + 1 < limit {
        if let Some((ip, end)) = ipv4_at(v, start) {
            groups.push(make_segment(ip.0, ip.1));
            groups.push(make_segment(ip.2, ip.3));
            return (end, true);
        }
    }
    match number_at(
        v,
        start,
        NumberForm { hex: true, max_digits: 4, zero_prefix: true, max: 65535 },
    ) {
        Some((g, end)) => {
            let ghost before = groups@;
            groups.push(g as u16);
            let r = groups_at(v, end, k + 1, limit, groups);
            assert(groups@ =~= before + (seq![g as u16] + read_groups(
                v@,
                end as int,
                k as nat + 1,
                limit as nat,
            ).0));
            r
        },
        None => (i, false),
    }
}

fn ipv6_at(v: &[char], i: usize) -> (r: Option<(Ipv6Addr, usize)>)
    requires
        i <= v@.len(),
    ensures
        r matches Some((ip, j)) ==> read_ipv6(v@, i as int) == Some((ip, j as int)) && i <= j
            <= v@.len(),
        r is None ==> read_ipv6(v@, i as int) is None,
{
    let mut head: Vec<u16> = Vec::new();
    let (end, ends_in_v4) = groups_at(v, i, 0, 8, &mut head);
    let ghost read = read_groups(v@, i as int, 0, 8);
    assert(head@ =~= read.0);
    if head.len() == 8 {
        return Some(
            (
                Ipv6Addr(
                    head[0],
                    head[1],
                    head[2],
                    head[3],
                    head[4],
                    head[5],
                    head[6],
                    head[7],
                ),
                end,
            ),
        );
    }
    if ends_in_v4 {
        return None;
    }
    if !is_char(v, end, ':') {
        return None;
    }
    if !is_char(v, end + 1, ':') {
        return None;
    }
    let mut tail: Vec<u16> = Vec::new();
    let (tail_end, _) = groups_at(v, end + 2, 0, 7 - head.len(), &mut tail);
    let ghost tail_read = read_groups(v@, end as int + 2, 0, (7 - head@.len()) as nat);
    assert(tail@ =~= tail_read.0);
    let mut groups: Vec<u16> = Vec::new();
    let mut k: usize = 0;
    while k < 8
        invariant
            k <= 8,
            groups@.len() == k,
            head@.len() + tail@.len() <= 7,
            groups@ =~= (head@ + zeros((8 - head@.len() - tail@.len()) as nat) + tail@).take(
                k as int,
            ),
        decreases 8 - k,
    {
        if k < head.len() {
            groups.push(head[k]);
        } else if k < 8 - tail.len() {
            groups.push(0);
        } else {
            groups.push(tail[k - (8 - tail.len())]);
        }
        k += 1;
    }
    assert(groups@ =~= head@ + zeros((8 - head@.len() - tail@.len()) as nat) + tail@);
    Some(
        (
            Ipv6Addr(
                groups[0],
                groups[1],
                groups[2],
                groups[3],
                groups[4],
                groups[5],
                groups[6],
                groups[7],
            ),
            tail_end,
        ),
    )
}

fn socket_v4(v: &[char]) -> (r: Option<(SocketAddr, usize)>)
    ensures
        r matches Some((a, j)) ==> read_socket_v4(v@) == Some((a, j as int)),
        r is None ==> read_socket_v4(v@) is None,
{
    match ipv4_at(v, 0) {
        None => None,
        Some((ip, i)) => match number_after(
            v,
            i,
            ':',
            NumberForm { hex: false, max_digits: 0, zero_prefix: true, max: 65535 },
        ) {
            None => None,
            Some((port, j)) => Some(
                (SocketAddr::V4(SocketAddrV4 { ip, port: port as u16 }), j),
            ),
        },
    }
}

fn socket_v6(v: &[char]) -> (r: Option<(SocketAddr, usize)>)
    ensures
        r matches Some((a, j)) ==> read_socket_v6(v@) == Some((a, j as int)),
        r is None ==> read_socket_v6(v@) is None,
{
    if !is_char(v, 0, '[') {
        return None;
    }
    let (ip, i) = match ipv6_at(v, 1) {
        None => return None,
        Some(found) => found,
    };
    let (scope_id, close): (u32, usize) = match number_after(
        v,
        i,
        '%',
        NumberForm { hex: false, max_digits: 0, zero_prefix: true, max: u32::MAX },
    ) {
        Some((scope, j)) => (scope, j),
        None => (0, i),
    };
    if !is_char(v, close, ']') {
        return None;
    }
    match number_after(
        v,
        close + 1,
        ':',
        NumberForm { hex: false, max_digits: 0, zero_prefix: true, max: 65535 },
    ) {
        None => None,
        Some((port, j)) => Some(
            (
                SocketAddr::V6(
                    SocketAddrV6 { ip, port: port as u16, flowinfo: 0, scope_id },
                ),
                j,
            ),
        ),
    }
}

/// Reads a socket address; nothing may follow it.
pub fn parse_socket_addr(v: &[char]) -> (r: Option<SocketAddr>)
    ensures
        r == socket_addr_text(v@),
{
    let read = match socket_v4(v) {
        Some(found) => Some(found),
        None => socket_v6(v),
    };
    match read {
        Some((addr, end)) => if end == v.len() {
            Some(addr)
        } else {
            None
        },
        None => None,
    }
}

} // verus!
