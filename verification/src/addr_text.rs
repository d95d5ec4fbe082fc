//! How addresses are written: dotted IPv4, compressed IPv6, `ip:port` and `[ip%scope]:port`.

use crate::addr::{segment_octets, IpAddr, Ipv4Addr, Ipv6Addr, SocketAddr};
use crate::number::{decimal_text, hex_text, push_decimal, push_hex};
use crate::text::string_of;
use vstd::prelude::*;

verus! {

impl Ipv4Addr {
    /// The four octets in decimal with dots between them.
    pub open spec fn text(self) -> Seq<char> {
        decimal_text(self.0 as nat).push('.') + decimal_text(self.1 as nat).push('.')
            + decimal_text(self.2 as nat).push('.') + decimal_text(self.3 as nat)
    }
}

/// The groups in hexadecimal with colons between them.
pub open spec fn groups_text(s: Seq<u16>) -> Seq<char>
    decreases s.len(),
{
    if s.len() == 0 {
        Seq::empty()
    } else if s.len() == 1 {
        hex_text(s[0] as nat)
    } else {
        groups_text(s.drop_last()).push(':') + hex_text(s.last() as nat)
    }
}

/// How many zero groups stand in a row from `i` on.
pub open spec fn zero_run(s: Seq<u16>, i: int) -> nat
    decreases s.len() - i,
{
    if 0 <= i < s.len() && s[i] == 0 {
        1 + zero_run(s, i + 1)
    } else {
        0
    }
}

/// Start and length of the longest row of zero groups that starts before `n`; the first
/// of them where several are as long.
pub open spec fn longest_run(s: Seq<u16>, n: nat) -> (int, nat)
    decreases n,
{
    if n == 0 {
        (0, 0)
    } else {
        let best = longest_run(s, (n - 1) as nat);
        if zero_run(s, n - 1) > best.1 {
            (n - 1, zero_run(s, n - 1))
        } else {
            best
        }
    }
}

impl Ipv6Addr {
    /// An IPv4 address in IPv6 clothing: `::ffff:a.b.c.d`.
    pub open spec fn v4_mapped(self) -> bool {
        self.0 == 0 && self.1 == 0 && self.2 == 0 && self.3 == 0 && self.4 == 0 && self.5
            == 0xffff
    }

    /// The IPv4 address in the last two segments.
    pub open spec fn embedded_v4(self) -> Ipv4Addr {
        Ipv4Addr(
            segment_octets(self.6)[0],
            segment_octets(self.6)[1],
            segment_octets(self.7)[0],
            segment_octets(self.7)[1],
        )
    }

    /// The segments in hexadecimal, the longest row of two or more zero segments replaced by
    /// `::`; an IPv4-mapped address with its IPv4 part in decimal.
    pub open spec fn text(self) -> Seq<char> {
        if self.v4_mapped() {
            seq![':', ':', 'f', 'f', 'f', 'f', ':'] + self.embedded_v4().text()
        } else {
            let (start, len) = longest_run(self.segments(), 8);
            if len > 1 {
                groups_text(self.segments().subrange(0, start)) + seq![':', ':'] + groups_text(
                    self.segments().subrange(start + len, 8),
                )
            } else {
                groups_text(self.segments())
            }
        }
    }
}

impl IpAddr {
    pub open spec fn text(self) -> Seq<char> {
        match self {
            IpAddr::V4(ip) => ip.text(),
            IpAddr::V6(ip) => ip.text(),
        }
    }

    /// The address as text.
    pub fn to_string(&self) -> (r: String)
        ensures
            r@ == self.text(),
    {
        let mut v: Vec<char> = Vec::new();
        push_ip(&mut v, *self);
        string_of(v.as_slice())
    }
}

/// The scope of an IPv6 address as it stands behind the address; nothing for scope zero.
pub open spec fn scope_text(scope_id: u32) -> Seq<char> {
    if scope_id == 0 {
        Seq::empty()
    } else {
        seq!['%'] + decimal_text(scope_id as nat)
    }
}

impl SocketAddr {
    pub open spec fn text(self) -> Seq<char> {
        match self {
            SocketAddr::V4(a) => a.ip.text().push(':') + decimal_text(a.port as nat),
            SocketAddr::V6(a) => seq!['['] + a.ip.text() + scope_text(a.scope_id) + seq![']', ':']
                + decimal_text(a.port as nat),
        }
    }

    /// The address as text.
    pub fn to_string(&self) -> (r: String)
        ensures
            r@ == self.text(),
    {
        let mut v: Vec<char> = Vec::new();
        push_socket_addr(&mut v, *self);
        string_of(v.as_slice())
    }
}

fn push_ipv4(v: &mut Vec<char>, ip: Ipv4Addr)
    ensures
        final(v)@ == old(v)@ + ip.text(),
{
    let ghost before = v@;
    push_decimal(v, ip.0 as u64);
    v.push('.');
    push_decimal(v, ip.1 as u64);
    v.push('.');
    push_decimal(v, ip.2 as u64);
    v.push('.');
    push_decimal(v, ip.3 as u64);
    assert(v@ =~= before + ip.text());
}

fn push_groups(v: &mut Vec<char>, groups: &[u16])
    ensures
        final(v)@ == old(v)@ + groups_text(groups@),
{
    let ghost before = v@;
    let mut i: usize = 0;
    assert(v@ =~= before + groups_text(groups@.take(0)));
    while i < groups.len()
        invariant
            i <= groups@.len(),
            v@ == before + groups_text(groups@.take(i as int)),
        decreases groups@.len() - i,
    {
        let ghost so_far = groups_text(groups@.take(i as int));
        if i > 0 {
            v.push(':');
        }
        push_hex(v, groups[i] as u64);
        assert(groups@.take(i + 1).drop_last() =~= groups@.take(i as int));
        assert(groups@.take(i + 1).last() == groups@[i as int]);
        if i == 0 {
            assert(so_far =~= Seq::<char>::empty());
            assert(v@ =~= before + groups_text(groups@.take(1)));
        } else {
            assert(v@ =~= before + (so_far.push(':') + hex_text(groups@[i as int] as nat)));
        }
        i += 1;
    }
    assert(groups@.take(groups@.len() as int) =~= groups@);
}

proof fn lemma_zero_run_bound(s: Seq<u16>, i: int)
    requires
        0 <= i <= s.len(),
    ensures
        i + zero_run(s, i) <= s.len(),
        forall|k: int| i <= k < i + zero_run(s, i) ==> s[k] == 0,
        i + zero_run(s, i) < s.len() ==> s[i + zero_run(s, i)] != 0,
    decreases s.len() - i,
{
    if i < s.len() && s[i] == 0 {
        lemma_zero_run_bound(s, i + 1);
    }
}

/// The row of zeros found lies within the groups, consists of zeros, and no zero group
/// stands right before it.
pub proof fn lemma_longest_run(s: Seq<u16>, n: nat)
    requires
        n <= s.len(),
    ensures
        0 <= longest_run(s, n).0,
        longest_run(s, n).0 + longest_run(s, n).1 <= s.len(),
        forall|k: int|
            longest_run(s, n).0 <= k < longest_run(s, n).0 + longest_run(s, n).1 ==> s[k] == 0,
    decreases n,
{
    if n > 0 {
        lemma_longest_run(s, (n - 1) as nat);
        lemma_zero_run_bound(s, n - 1);
    }
}

fn count_zeros(s: &[u16], i: usize) -> (r: usize)
    requires
        i <= s@.len(),
    ensures
        r == zero_run(s@, i as int),
    decreases s@.len() - i,
{
    if i < s.len() && s[i] == 0 {
        proof {
            lemma_zero_run_bound(s@, i as int + 1);
        }
        1 + count_zeros(s, i + 1)
    } else {
        0
    }
}

fn find_longest_run(s: &[u16]) -> (r: (usize, usize))
    ensures
        (r.0 as int, r.1 as nat) == longest_run(s@, s@.len()),
{
    let mut start: usize = 0;
    let mut len: usize = 0;
    let mut n: usize = 0;
    while n < s.len()
        invariant
            n <= s@.len(),
            (start as int, len as nat) == longest_run(s@, n as nat),
        decreases s@.len() - n,
    {
        let run = count_zeros(s, n);
        if run > len {
            start = n;
            len = run;
        }
        n += 1;
    }
    (start, len)
}

fn push_ipv6(v: &mut Vec<char>, ip: Ipv6Addr)
    ensures
        final(v)@ == old(v)@ + ip.text(),
{
    let ghost before = v@;
    if ip.0 == 0 && ip.1 == 0 && ip.2 == 0 && ip.3 == 0 && ip.4 == 0 && ip.5 == 0xffff {
        v.push(':');
        v.push(':');
        v.push('f');
        v.push('f');
        v.push('f');
        v.push('f');
        v.push(':');
        push_ipv4(
            v,
            Ipv4Addr(
                (ip.6 / 256) as u8,
                (ip.6 % 256) as u8,
                (ip.7 / 256) as u8,
                (ip.7 % 256) as u8,
            ),
        );
        assert(v@ =~= before + ip.text());
        return;
    }
    let segments: Vec<u16> = vec![ip.0, ip.1, ip.2, ip.3, ip.4, ip.5, ip.6, ip.7];
    assert(segments@ =~= ip.segments());
    let (start, len) = find_longest_run(segments.as_slice());
    proof {
        lemma_longest_run(ip.segments(), 8);
    }
    if len > 1 {
        push_groups(v, vstd::slice::slice_subrange(segments.as_slice(), 0, start));
        v.push(':');
        v.push(':');
        push_groups(v, vstd::slice::slice_subrange(segments.as_slice(), start + len, 8));
        assert(v@ =~= before + ip.text());
    } else {
        push_groups(v, segments.as_slice());
    }
}

fn push_ip(v: &mut Vec<char>, ip: IpAddr)
    ensures
        final(v)@ == old(v)@ + ip.text(),
{
    match ip {
        IpAddr::V4(ip) => push_ipv4(v, ip),
        IpAddr::V6(ip) => push_ipv6(v, ip),
    }
}

/// Appends the address as text.
pub fn push_socket_addr(v: &mut Vec<char>, addr: SocketAddr)
    ensures
        final(v)@ == old(v)@ + addr.text(),
{
    let ghost before = v@;
    match addr {
        SocketAddr::V4(a) => {
            push_ipv4(v, a.ip);
            v.push(':');
            push_decimal(v, a.port as u64);
        },
        SocketAddr::V6(a) => {
            v.push('[');
            push_ipv6(v, a.ip);
            if a.scope_id != 0 {
                v.push('%');
                push_decimal(v, a.scope_id as u64);
            }
            v.push(']');
            v.push(':');
            push_decimal(v, a.port as u64);
        },
    }
    assert(v@ =~= before + addr.text());
}

} // verus!
