//! What is written as an address reads back as that address.

use crate::addr::{
    ipv6_of, lemma_segment_octets, segment_of, Ipv4Addr, Ipv6Addr, SocketAddr, SocketAddrV6,
};
use crate::addr_parse::{
    char_at, group_form, octet_form, port_form, read_after, read_groups, read_ipv4, read_ipv6,
    read_socket_v4, read_socket_v6, scope_form, socket_addr_text, zeros,
};
use crate::addr_text::{groups_text, lemma_longest_run, longest_run, scope_text};
use crate::number::{
    decimal_text, digit_char, digit_value, hex_text, is_digit, lemma_run_end_at,
    lemma_run_end_bounds, number_value, read_number, run_end, NumberForm,
};
use vstd::prelude::*;

verus! {

/// A number in decimal or in hexadecimal.
pub open spec fn number_text(n: nat, hex: bool) -> Seq<char> {
    if hex {
        hex_text(n)
    } else {
        decimal_text(n)
    }
}

proof fn lemma_digit_char(d: nat, hex: bool)
    requires
        d < 10 || (hex && d < 16),
    ensures
        is_digit(digit_char(d), hex),
        digit_value(digit_char(d)) == d,
        digit_char(d) == '0' ==> d == 0,
{
    if d < 10 {
        let v = ('0' as u32) + d;
        assert(48 <= v < 58);
    } else {
        let v = ('a' as u32) + d - 10;
        assert(97 <= v < 103);
    }
}

/// A number is written with digits alone, and with a leading zero only if it is zero.
proof fn lemma_number_digits(n: nat, hex: bool)
    ensures
        number_text(n, hex).len() > 0,
        forall|k: int|
            0 <= k < number_text(n, hex).len() ==> is_digit(#[trigger] number_text(n, hex)[k], hex),
        number_text(n, hex)[0] == '0' ==> number_text(n, hex).len() == 1,
        number_text(n, hex)[0] == '0' ==> n == 0,
    decreases n,
{
    let base: nat = if hex {
        16
    } else {
        10
    };
    if n < base {
        lemma_digit_char(n, hex);
    } else {
        lemma_number_digits(n / base, hex);
        lemma_digit_char(n % base, hex);
        let before = number_text(n / base, hex);
        assert(number_text(n, hex) == before.push(digit_char(n % base)));
        assert(number_text(n, hex)[0] == before[0]);
    }
}

/// What stands outside a number does not change its value.
proof fn lemma_number_value(before: Seq<char>, n: nat, hex: bool, after: Seq<char>)
    ensures
        number_value(
            before + number_text(n, hex) + after,
            before.len() as int,
            (before.len() + number_text(n, hex).len()) as int,
            hex,
        ) == n,
    decreases n,
{
    let base: nat = if hex {
        16
    } else {
        10
    };
    let text = number_text(n, hex);
    let s = before + text + after;
    let i = before.len() as int;
    let j = (before.len() + text.len()) as int;
    reveal_with_fuel(number_value, 2);
    if n < base {
        lemma_digit_char(n, hex);
        assert(s[i] == text[0]);
        assert(number_value(s, i, i, hex) == 0);
    } else {
        let d = digit_char(n % base);
        let shorter = number_text(n / base, hex);
        lemma_number_value(before, n / base, hex, seq![d] + after);
        assert(s =~= before + shorter + (seq![d] + after));
        lemma_digit_char(n % base, hex);
        assert(s[j - 1] == d);
        assert(number_value(s, i, j - 1, hex) == n / base);
        assert(base * (n / base) + n % base == n) by {
            if hex {
                assert(16 * (n / 16) + n % 16 == n);
            } else {
                assert(10 * (n / 10) + n % 10 == n);
            }
        }
    }
}

/// A number followed by something else than a digit is read as it was written.
proof fn lemma_read_number(before: Seq<char>, n: nat, after: Seq<char>, form: NumberForm)
    requires
        after.len() > 0 ==> !is_digit(after[0], form.hex),
        n <= form.max,
        form.max_digits == 0 || number_text(n, form.hex).len() <= form.max_digits,
    ensures
        read_number(before + number_text(n, form.hex) + after, before.len() as int, form) == Some(
            (n, (before.len() + number_text(n, form.hex).len()) as int),
        ),
{
    let text = number_text(n, form.hex);
    let s = before + text + after;
    let i = before.len() as int;
    let j = (before.len() + text.len()) as int;
    lemma_number_digits(n, form.hex);
    lemma_number_value(before, n, form.hex, after);
    assert forall|k: int| i <= k < j implies is_digit(#[trigger] s[k], form.hex) by {
        assert(s[k] == text[k - i]);
    }
    if j < s.len() {
        assert(s[j] == after[0]);
    }
    lemma_run_end_at(s, i, j, form.hex);
    assert(s[i] == text[0]);
}

/// How many digits a number has.
proof fn lemma_number_length(n: nat)
    ensures
        n < 256 ==> decimal_text(n).len() <= 3,
        n < 65536 ==> hex_text(n).len() <= 4,
{
    reveal_with_fuel(decimal_text, 4);
    reveal_with_fuel(hex_text, 5);
}

/// An octet, wherever it stands, is read as it was written.
proof fn lemma_read_octet(s: Seq<char>, before: Seq<char>, n: u8, after: Seq<char>)
    requires
        s == before + decimal_text(n as nat) + after,
        after.len() > 0 ==> !is_digit(after[0], false),
    ensures
        read_number(s, before.len() as int, octet_form()) == Some(
            (n as nat, (before.len() + decimal_text(n as nat).len()) as int),
        ),
{
    lemma_number_length(n as nat);
    lemma_read_number(before, n as nat, after, octet_form());
}

/// Four pieces with dots between them.
spec fn dotted(a: Seq<char>, b: Seq<char>, c: Seq<char>, d: Seq<char>) -> Seq<char> {
    a.push('.') + b.push('.') + c.push('.') + d
}

proof fn lemma_dotted_a(pre: Seq<char>, a: Seq<char>, b: Seq<char>, c: Seq<char>, d: Seq<char>, post: Seq<char>)
    ensures
        pre + dotted(a, b, c, d) + post == pre + a + (seq!['.'] + b + seq!['.'] + c + seq!['.'] + d
            + post),
{
    assert(pre + dotted(a, b, c, d) + post =~= pre + a + (seq!['.'] + b + seq!['.'] + c + seq!['.']
        + d + post));
}

proof fn lemma_dotted_b(pre: Seq<char>, a: Seq<char>, b: Seq<char>, c: Seq<char>, d: Seq<char>, post: Seq<char>)
    ensures
        pre + dotted(a, b, c, d) + post == (pre + a).push('.') + b + (seq!['.'] + c + seq!['.'] + d
            + post),
{
    assert(pre + dotted(a, b, c, d) + post =~= (pre + a).push('.') + b + (seq!['.'] + c + seq!['.']
        + d + post));
}

proof fn lemma_dotted_c(pre: Seq<char>, a: Seq<char>, b: Seq<char>, c: Seq<char>, d: Seq<char>, post: Seq<char>)
    ensures
        pre + dotted(a, b, c, d) + post == ((pre + a).push('.') + b).push('.') + c + (seq!['.'] + d
            + post),
{
    assert(pre + dotted(a, b, c, d) + post =~= ((pre + a).push('.') + b).push('.') + c + (seq!['.']
        + d + post));
}

proof fn lemma_dotted_d(pre: Seq<char>, a: Seq<char>, b: Seq<char>, c: Seq<char>, d: Seq<char>, post: Seq<char>)
    ensures
        pre + dotted(a, b, c, d) + post == (((pre + a).push('.') + b).push('.') + c).push('.') + d
            + post,
{
    assert(pre + dotted(a, b, c, d) + post =~= (((pre + a).push('.') + b).push('.') + c).push('.')
        + d + post);
}

/// An octet behind a dot is read as it was written.
proof fn lemma_read_dot_octet(s: Seq<char>, before: Seq<char>, n: u8, after: Seq<char>)
    requires
        s == before.push('.') + decimal_text(n as nat) + after,
        after.len() > 0 ==> !is_digit(after[0], false),
    ensures
        read_after(s, before.len() as int, '.', octet_form()) == Some(
            (n as nat, (before.len() + 1 + decimal_text(n as nat).len()) as int),
        ),
{
    let start = before.push('.');
    assert(s[before.len() as int] == start[before.len() as int]);
    lemma_read_octet(s, start, n, after);
}

/// An IPv4 address followed by something else than a digit is read as it was written.
pub proof fn lemma_read_ipv4(before: Seq<char>, ip: Ipv4Addr, after: Seq<char>)
    requires
        after.len() > 0 ==> !is_digit(after[0], false),
    ensures
        read_ipv4(before + ip.text() + after, before.len() as int) == Some(
            (ip, (before.len() + ip.text().len()) as int),
        ),
{
    let a = decimal_text(ip.0 as nat);
    let b = decimal_text(ip.1 as nat);
    let c = decimal_text(ip.2 as nat);
    let d = decimal_text(ip.3 as nat);
    let s = before + ip.text() + after;
    assert(s == before + dotted(a, b, c, d) + after);
    let i1 = (before.len() + a.len()) as int;
    let i2 = i1 + 1 + b.len();
    let i3 = i2 + 1 + c.len();
    let i4 = i3 + 1 + d.len();
    let rest1 = seq!['.'] + b + seq!['.'] + c + seq!['.'] + d + after;
    let rest2 = seq!['.'] + c + seq!['.'] + d + after;
    let rest3 = seq!['.'] + d + after;
    let start1 = before + a;
    let start2 = start1.push('.') + b;
    let start3 = start2.push('.') + c;
    assert(rest1[0] == '.' && rest2[0] == '.' && rest3[0] == '.');
    lemma_dotted_a(before, a, b, c, d, after);
    lemma_read_octet(s, before, ip.0, rest1);
    lemma_dotted_b(before, a, b, c, d, after);
    lemma_read_dot_octet(s, start1, ip.1, rest2);
    lemma_dotted_c(before, a, b, c, d, after);
    lemma_read_dot_octet(s, start2, ip.2, rest3);
    lemma_dotted_d(before, a, b, c, d, after);
    lemma_read_dot_octet(s, start3, ip.3, after);
    assert(start1.len() == i1 && start2.len() == i2 && start3.len() == i3);
    assert(read_number(s, before.len() as int, octet_form()) == Some((ip.0 as nat, i1)));
    assert(read_after(s, i1, '.', octet_form()) == Some((ip.1 as nat, i2)));
    assert(read_after(s, i2, '.', octet_form()) == Some((ip.2 as nat, i3)));
    assert(read_after(s, i3, '.', octet_form()) == Some((ip.3 as nat, i4)));
    assert(i4 == before.len() + ip.text().len());
}

/// A port at the end is read as it was written.
proof fn lemma_read_port(s: Seq<char>, before: Seq<char>, port: u16)
    requires
        s == before.push(':') + decimal_text(port as nat),
    ensures
        read_after(s, before.len() as int, ':', port_form()) == Some(
            (port as nat, s.len() as int),
        ),
{
    let start = before.push(':');
    assert(s =~= start + decimal_text(port as nat) + Seq::<char>::empty());
    assert(s[before.len() as int] == start[before.len() as int]);
    lemma_read_number(start, port as nat, Seq::empty(), port_form());
}

/// An IPv4 socket address is read as it was written.
proof fn lemma_read_socket_v4(addr: SocketAddr)
    requires
        addr is V4,
    ensures
        socket_addr_text(addr.text()) == Some(addr),
{
    let a = addr->V4_0;
    let s = addr.text();
    let port = seq![':'] + decimal_text(a.port as nat);
    assert(s =~= Seq::<char>::empty() + a.ip.text() + port);
    lemma_read_ipv4(Seq::empty(), a.ip, port);
    lemma_read_port(s, a.ip.text(), a.port);
}

/// Groups, each behind a colon.
spec fn tail_text(g: Seq<u16>) -> Seq<char>
    decreases g.len(),
{
    if g.len() == 0 {
        Seq::empty()
    } else {
        seq![':'] + hex_text(g[0] as nat) + tail_text(g.drop_first())
    }
}

proof fn lemma_tail_text_push(g: Seq<u16>, last: u16)
    ensures
        tail_text(g.push(last)) == tail_text(g) + seq![':'] + hex_text(last as nat),
    decreases g.len(),
{
    let all = g.push(last);
    if g.len() == 0 {
        assert(all.drop_first() =~= Seq::empty());
        assert(tail_text(all.drop_first()) =~= Seq::<char>::empty());
        assert(tail_text(all) =~= tail_text(g) + seq![':'] + hex_text(last as nat));
    } else {
        lemma_tail_text_push(g.drop_first(), last);
        assert(all.drop_first() =~= g.drop_first().push(last));
        assert(tail_text(all) =~= tail_text(g) + seq![':'] + hex_text(last as nat));
    }
}

proof fn lemma_groups_text(g: Seq<u16>)
    requires
        g.len() > 0,
    ensures
        groups_text(g) == hex_text(g[0] as nat) + tail_text(g.drop_first()),
    decreases g.len(),
{
    if g.len() == 1 {
        assert(g.drop_first() =~= Seq::empty());
        assert(tail_text(g.drop_first()) =~= Seq::<char>::empty());
        assert(groups_text(g) =~= hex_text(g[0] as nat) + tail_text(g.drop_first()));
    } else {
        let shorter = g.drop_last();
        lemma_groups_text(shorter);
        assert(g.drop_first() =~= shorter.drop_first().push(g.last()));
        lemma_tail_text_push(shorter.drop_first(), g.last());
        assert(groups_text(g) =~= hex_text(g[0] as nat) + tail_text(g.drop_first()));
    }
}

/// What may follow groups: no digit, no dot, and a colon only if another follows it.
spec fn ends_groups(after: Seq<char>) -> bool {
    &&& after.len() > 0
    &&& !is_digit(after[0], true)
    &&& after[0] != '.'
    &&& after[0] == ':' ==> after.len() > 1 && after[1] == ':'
}

/// Where no digit stands, no number and no IPv4 address is read.
proof fn lemma_nothing_to_read(s: Seq<char>, i: int)
    requires
        0 <= i <= s.len(),
        i < s.len() ==> !is_digit(s[i], true),
    ensures
        read_number(s, i, group_form()) is None,
        read_ipv4(s, i) is None,
{
    assert(run_end(s, i, true) == i);
    assert(run_end(s, i, false) == i);
}

/// A group is no IPv4 address.
proof fn lemma_group_is_no_ipv4(s: Seq<char>, i: int, j: int)
    requires
        0 <= i <= j < s.len(),
        forall|k: int| i <= k < j ==> is_digit(#[trigger] s[k], true),
        !is_digit(s[j], true),
        s[j] != '.',
    ensures
        read_ipv4(s, i) is None,
{
    lemma_run_end_bounds(s, i, false);
    let end = run_end(s, i, false);
    if end > j {
        assert(is_digit(s[j], false));
    }
    if end < j {
        assert(is_digit(s[end], true));
    }
    assert(!char_at(s, end, '.'));
    assert(read_after(s, end, '.', octet_form()) is None);
}

/// A group is read as it was written, and not as an IPv4 address.
proof fn lemma_read_group(s: Seq<char>, before: Seq<char>, g: u16, after: Seq<char>)
    requires
        s == before + hex_text(g as nat) + after,
        after.len() > 0,
        !is_digit(after[0], true),
        after[0] != '.',
    ensures
        read_number(s, before.len() as int, group_form()) == Some(
            (g as nat, (before.len() + hex_text(g as nat).len()) as int),
        ),
        read_ipv4(s, before.len() as int) is None,
{
    let text = hex_text(g as nat);
    assert(number_text(g as nat, true) == text);
    lemma_number_length(g as nat);
    lemma_read_number(before, g as nat, after, group_form());
    lemma_number_digits(g as nat, true);
    let i = before.len() as int;
    let j = i + text.len();
    assert forall|k: int| i <= k < j implies is_digit(#[trigger] s[k], true) by {
        assert(s[k] == text[k - i]);
    }
    assert(s[j] == after[0]);
    lemma_group_is_no_ipv4(s, i, j);
}

/// Groups behind colons are read as they were written.
proof fn lemma_read_tail(
    s: Seq<char>,
    before: Seq<char>,
    g: Seq<u16>,
    after: Seq<char>,
    k: nat,
    limit: nat,
)
    requires
        s == before + tail_text(g) + after,
        ends_groups(after),
        0 < k,
        k + g.len() <= limit,
    ensures
        read_groups(s, before.len() as int, k, limit) == (
            g,
            (before.len() + tail_text(g).len()) as int,
            false,
        ),
    decreases g.len(),
{
    let i = before.len() as int;
    if g.len() == 0 {
        assert(tail_text(g) =~= Seq::<char>::empty());
        assert(s =~= before + after);
        assert(s[i] == after[0]);
        if k < limit && after[0] == ':' {
            assert(s[i + 1] == after[1]);
            lemma_nothing_to_read(s, i + 1);
        }
        assert(read_groups(s, i, k, limit).0 =~= g);
    } else {
        let text = hex_text(g[0] as nat);
        let rest = g.drop_first();
        let start = before.push(':');
        let more = tail_text(rest) + after;
        assert(s =~= start + text + more);
        assert(s[i] == start[i]);
        assert(more[0] == if rest.len() > 0 {
            ':'
        } else {
            after[0]
        });
        lemma_read_group(s, start, g[0], more);
        let next = start + text;
        assert(s =~= next + tail_text(rest) + after);
        lemma_read_tail(s, next, rest, after, k + 1, limit);
        assert(seq![g[0]] + rest =~= g);
    }
}

/// Groups are read as they were written.
proof fn lemma_read_groups(
    s: Seq<char>,
    before: Seq<char>,
    g: Seq<u16>,
    after: Seq<char>,
    limit: nat,
)
    requires
        s == before + groups_text(g) + after,
        ends_groups(after),
        g.len() <= limit,
    ensures
        read_groups(s, before.len() as int, 0, limit) == (
            g,
            (before.len() + groups_text(g).len()) as int,
            false,
        ),
{
    let i = before.len() as int;
    if g.len() == 0 {
        assert(groups_text(g) =~= Seq::<char>::empty());
        assert(s =~= before + after);
        assert(s[i] == after[0]);
        lemma_nothing_to_read(s, i);
        assert(read_groups(s, i, 0, limit).0 =~= g);
    } else {
        lemma_groups_text(g);
        let text = hex_text(g[0] as nat);
        let rest = g.drop_first();
        let more = tail_text(rest) + after;
        assert(s =~= before + text + more);
        assert(more[0] == if rest.len() > 0 {
            ':'
        } else {
            after[0]
        });
        lemma_read_group(s, before, g[0], more);
        let next = before + text;
        assert(s =~= next + tail_text(rest) + after);
        lemma_read_tail(s, next, rest, after, 1, limit);
        assert(seq![g[0]] + rest =~= g);
    }
}

/// What may follow an IPv6 address.
spec fn ends_ip(after: Seq<char>) -> bool {
    after.len() > 0 && (after[0] == ']' || after[0] == '%')
}

proof fn lemma_ipv6_of_segments(ip: Ipv6Addr)
    ensures
        ip.segments().len() == 8,
        ipv6_of(ip.segments()) == ip,
{
}

/// An IPv6 address without `::` is read as it was written.
proof fn lemma_read_plain_ipv6(s: Seq<char>, before: Seq<char>, ip: Ipv6Addr, after: Seq<char>)
    requires
        s == before + groups_text(ip.segments()) + after,
        ends_ip(after),
    ensures
        read_ipv6(s, before.len() as int) == Some(
            (ip, (before.len() + groups_text(ip.segments()).len()) as int),
        ),
{
    lemma_ipv6_of_segments(ip);
    lemma_read_groups(s, before, ip.segments(), after, 8);
}

/// Groups around a `::` make the address whose other groups are zero.
proof fn lemma_join_groups(
    s: Seq<char>,
    i: int,
    head: Seq<u16>,
    at: int,
    tail: Seq<u16>,
    end: int,
    ip: Ipv6Addr,
)
    requires
        read_groups(s, i, 0, 8) == (head, at, false),
        head.len() + tail.len() < 8,
        char_at(s, at, ':'),
        char_at(s, at + 1, ':'),
        read_groups(s, at + 2, 0, (7 - head.len()) as nat).0 == tail,
        read_groups(s, at + 2, 0, (7 - head.len()) as nat).1 == end,
        head + zeros((8 - head.len() - tail.len()) as nat) + tail == ip.segments(),
    ensures
        read_ipv6(s, i) == Some((ip, end)),
{
    lemma_ipv6_of_segments(ip);
}

proof fn lemma_around_gap(pre: Seq<char>, head: Seq<char>, tail: Seq<char>, post: Seq<char>)
    ensures
        pre + head + seq![':', ':'] + tail + post == pre + head + (seq![':', ':'] + tail + post),
        (pre + head + seq![':', ':'] + tail + post)[(pre.len() + head.len()) as int] == ':',
        (pre + head + seq![':', ':'] + tail + post)[(pre.len() + head.len() + 1) as int] == ':',
        (seq![':', ':'] + tail + post)[0] == ':',
        (seq![':', ':'] + tail + post)[1] == ':',
{
    assert(pre + head + seq![':', ':'] + tail + post =~= pre + head + (seq![':', ':'] + tail
        + post));
}

/// The groups before and after a row of zeros, with zeros between them, are all groups.
proof fn lemma_fill_zeros(g: Seq<u16>, start: int, len: int)
    requires
        g.len() == 8,
        0 <= start,
        0 < len,
        start + len <= 8,
        forall|k: int| start <= k < start + len ==> g[k] == 0,
    ensures
        g.subrange(0, start) + zeros(
            (8 - g.subrange(0, start).len() - g.subrange(start + len, 8).len()) as nat,
        ) + g.subrange(start + len, 8) == g,
{
    assert(g.subrange(0, start) + zeros(len as nat) + g.subrange(start + len, 8) =~= g);
}

/// An IPv6 address with `::` is read as it was written.
proof fn lemma_read_short_ipv6(
    s: Seq<char>,
    before: Seq<char>,
    ip: Ipv6Addr,
    start: int,
    len: int,
    after: Seq<char>,
)
    requires
        ends_ip(after),
        0 <= start,
        1 < len,
        start + len <= 8,
        forall|k: int| start <= k < start + len ==> ip.segments()[k] == 0,
        s == before + groups_text(ip.segments().subrange(0, start)) + seq![':', ':'] + groups_text(
            ip.segments().subrange(start + len, 8),
        ) + after,
    ensures
        read_ipv6(s, before.len() as int) == Some((ip, s.len() - after.len())),
{
    let g = ip.segments();
    lemma_ipv6_of_segments(ip);
    let head = g.subrange(0, start);
    let tail = g.subrange(start + len, 8);
    let head_text = groups_text(head);
    let tail_text = groups_text(tail);
    let rest = seq![':', ':'] + tail_text + after;
    lemma_around_gap(before, head_text, tail_text, after);
    assert(ends_groups(rest));
    lemma_read_groups(s, before, head, rest, 8);
    let at = (before.len() + head_text.len()) as int;
    let next = before + head_text + seq![':', ':'];
    assert(ends_groups(after));
    lemma_read_groups(s, next, tail, after, (7 - start) as nat);
    lemma_fill_zeros(g, start, len);
    lemma_join_groups(s, before.len() as int, head, at, tail, s.len() - after.len(), ip);
}

proof fn lemma_mapped_text(pre: Seq<char>, v4: Seq<char>, post: Seq<char>)
    ensures
        ({
            let s = pre + (seq![':', ':', 'f', 'f', 'f', 'f', ':'] + v4) + post;
            let i = pre.len() as int;
            &&& s == pre + seq![':', ':'] + seq!['f', 'f', 'f', 'f'] + (seq![':'] + v4 + post)
            &&& s == pre + seq![':', ':', 'f', 'f', 'f', 'f', ':'] + v4 + post
            &&& s[i] == ':'
            &&& s[i + 1] == ':'
            &&& s[i + 6] == ':'
            &&& (seq![':'] + v4 + post)[0] == ':'
            &&& s.len() == i + 7 + v4.len() + post.len()
        }),
{
    let s = pre + (seq![':', ':', 'f', 'f', 'f', 'f', ':'] + v4) + post;
    assert(s =~= pre + seq![':', ':'] + seq!['f', 'f', 'f', 'f'] + (seq![':'] + v4 + post));
    assert(s =~= pre + seq![':', ':', 'f', 'f', 'f', 'f', ':'] + v4 + post);
}

/// A group and an IPv4 address behind a colon are read as three groups.
proof fn lemma_group_then_ipv4(s: Seq<char>, i: int, g: u16, v4: Ipv4Addr, end: int)
    requires
        read_number(s, i, group_form()) == Some((g as nat, i + 4)),
        read_ipv4(s, i) is None,
        char_at(s, i + 4, ':'),
        read_ipv4(s, i + 5) == Some((v4, end)),
    ensures
        read_groups(s, i, 0, 7).0 == seq![g, segment_of(v4.0, v4.1), segment_of(v4.2, v4.3)],
        read_groups(s, i, 0, 7).1 == end,
{
    let rest = read_groups(s, i + 4, 1, 7);
    assert(rest == (seq![segment_of(v4.0, v4.1), segment_of(v4.2, v4.3)], end, true));
    assert(read_groups(s, i, 0, 7).0 == seq![g] + rest.0);
    assert(seq![g] + rest.0 =~= seq![g, segment_of(v4.0, v4.1), segment_of(v4.2, v4.3)]);
}

proof fn lemma_ffff_text()
    ensures
        hex_text(0xffff) == seq!['f', 'f', 'f', 'f'],
{
    reveal_with_fuel(hex_text, 5);
    assert(hex_text(0xffff) =~= seq!['f', 'f', 'f', 'f']);
}

/// No group stands before a `::`.
proof fn lemma_no_group(s: Seq<char>, i: int)
    requires
        0 <= i < s.len(),
        s[i] == ':',
    ensures
        read_groups(s, i, 0, 8) == (Seq::<u16>::empty(), i, false),
{
    lemma_nothing_to_read(s, i);
}

proof fn lemma_read_ffff(s: Seq<char>, before: Seq<char>, text: Seq<char>, after: Seq<char>)
    requires
        s == before + (seq![':', ':', 'f', 'f', 'f', 'f', ':'] + text) + after,
    ensures
        read_number(s, before.len() as int + 2, group_form()) == Some(
            (0xffffnat, before.len() as int + 6),
        ),
        read_ipv4(s, before.len() as int + 2) is None,
        char_at(s, before.len() as int + 6, ':'),
{
    lemma_mapped_text(before, text, after);
    lemma_ffff_text();
    let next = before + seq![':', ':'];
    let more = seq![':'] + text + after;
    assert(next.len() == before.len() + 2);
    assert(s == next + hex_text(0xffff) + more);
    lemma_read_group(s, next, 0xffff, more);
}

proof fn lemma_read_mapped_v4(s: Seq<char>, before: Seq<char>, v4: Ipv4Addr, after: Seq<char>)
    requires
        s == before + (seq![':', ':', 'f', 'f', 'f', 'f', ':'] + v4.text()) + after,
        ends_ip(after),
    ensures
        read_ipv4(s, before.len() as int + 7) == Some((v4, s.len() - after.len())),
{
    lemma_mapped_text(before, v4.text(), after);
    let start = before + seq![':', ':', 'f', 'f', 'f', 'f', ':'];
    assert(start.len() == before.len() + 7);
    lemma_read_ipv4(start, v4, after);
}

/// The groups behind the `::` of an IPv4 address in IPv6 clothing.
proof fn lemma_read_mapped_tail(s: Seq<char>, before: Seq<char>, v4: Ipv4Addr, after: Seq<char>)
    requires
        s == before + (seq![':', ':', 'f', 'f', 'f', 'f', ':'] + v4.text()) + after,
        ends_ip(after),
    ensures
        read_groups(s, before.len() as int + 2, 0, 7).0 == seq![
            0xffffu16,
            segment_of(v4.0, v4.1),
            segment_of(v4.2, v4.3),
        ],
        read_groups(s, before.len() as int + 2, 0, 7).1 == s.len() - after.len(),
{
    let i = before.len() as int;
    lemma_read_ffff(s, before, v4.text(), after);
    lemma_read_mapped_v4(s, before, v4, after);
    lemma_group_then_ipv4(s, i + 2, 0xffff, v4, s.len() - after.len());
}

/// An IPv4 address in IPv6 clothing is read as it was written.
proof fn lemma_read_mapped_ipv6(s: Seq<char>, before: Seq<char>, ip: Ipv6Addr, after: Seq<char>)
    requires
        ip.v4_mapped(),
        s == before + ip.text() + after,
        ends_ip(after),
    ensures
        read_ipv6(s, before.len() as int) == Some((ip, s.len() - after.len())),
{
    let v4 = ip.embedded_v4();
    let i = before.len() as int;
    let end = s.len() - after.len();
    lemma_mapped_text(before, v4.text(), after);
    lemma_no_group(s, i);
    lemma_read_mapped_tail(s, before, v4, after);
    lemma_segment_octets(ip.6);
    lemma_segment_octets(ip.7);
    let tail = seq![0xffffu16, ip.6, ip.7];
    lemma_ipv6_of_segments(ip);
    assert(Seq::<u16>::empty() + zeros(5) + tail =~= ip.segments());
    lemma_join_groups(s, i, Seq::empty(), i, tail, end, ip);
}

/// An IPv6 address is read as it was written.
proof fn lemma_read_ipv6(s: Seq<char>, before: Seq<char>, ip: Ipv6Addr, after: Seq<char>)
    requires
        s == before + ip.text() + after,
        ends_ip(after),
    ensures
        read_ipv6(s, before.len() as int) == Some((ip, s.len() - after.len())),
{
    if ip.v4_mapped() {
        lemma_read_mapped_ipv6(s, before, ip, after);
    } else {
        let (start, len) = longest_run(ip.segments(), 8);
        lemma_longest_run(ip.segments(), 8);
        if len > 1 {
            let text = groups_text(ip.segments().subrange(0, start)) + seq![':', ':']
                + groups_text(ip.segments().subrange(start + len, 8));
            assert(s =~= before + groups_text(ip.segments().subrange(0, start)) + seq![':', ':']
                + groups_text(ip.segments().subrange(start + len, 8)) + after);
            lemma_read_short_ipv6(s, before, ip, start, len as int, after);
        } else {
            lemma_read_plain_ipv6(s, before, ip, after);
        }
    }
}

/// The parts of an IPv6 socket address make that address.
proof fn lemma_join_socket_v6(s: Seq<char>, a: SocketAddrV6, i: int, close: int)
    requires
        s.len() > 0,
        s[0] == '[',
        read_ipv6(s, 1) == Some((a.ip, i)),
        a.flowinfo == 0,
        a.scope_id == 0 ==> !char_at(s, i, '%') && close == i,
        a.scope_id != 0 ==> read_after(s, i, '%', scope_form()) == Some((a.scope_id as nat, close)),
        char_at(s, close, ']'),
        read_after(s, close + 1, ':', port_form()) == Some((a.port as nat, s.len() as int)),
    ensures
        socket_addr_text(s) == Some(SocketAddr::V6(a)),
{
    lemma_nothing_to_read(s, 0);
    assert(read_socket_v4(s) is None);
    assert(read_socket_v6(s) == Some((SocketAddr::V6(a), s.len() as int)));
}

proof fn lemma_socket_v6_text(ip: Seq<char>, scope: Seq<char>, port: Seq<char>)
    ensures
        ({
            let s = seq!['['] + ip + scope + seq![']', ':'] + port;
            let close = (1 + ip.len() + scope.len()) as int;
            &&& s == seq!['['] + ip + (scope + seq![']', ':'] + port)
            &&& s == (seq!['['] + ip + scope).push(']').push(':') + port
            &&& s == seq!['['] + ip + scope + (seq![']', ':'] + port)
            &&& s[0] == '['
            &&& s[close] == ']'
            &&& scope.len() == 0 ==> (scope + seq![']', ':'] + port)[0] == ']'
            &&& scope.len() > 0 ==> (scope + seq![']', ':'] + port)[0] == scope[0]
            &&& scope.len() > 0 ==> s[(1 + ip.len()) as int] == scope[0]
            &&& (seq![']', ':'] + port)[0] == ']'
        }),
{
    let s = seq!['['] + ip + scope + seq![']', ':'] + port;
    assert(s =~= seq!['['] + ip + (scope + seq![']', ':'] + port));
    assert(s =~= (seq!['['] + ip + scope).push(']').push(':') + port);
    assert(s =~= seq!['['] + ip + scope + (seq![']', ':'] + port));
}

/// A scope behind an IPv6 address is read as it was written.
proof fn lemma_read_scope(s: Seq<char>, before: Seq<char>, scope_id: u32, after: Seq<char>)
    requires
        s == before + (seq!['%'] + decimal_text(scope_id as nat)) + after,
        after.len() > 0,
        after[0] == ']',
    ensures
        read_after(s, before.len() as int, '%', scope_form()) == Some(
            (scope_id as nat, (before.len() + 1 + decimal_text(scope_id as nat).len()) as int),
        ),
{
    let start = before + seq!['%'];
    assert(s =~= start + decimal_text(scope_id as nat) + after);
    assert(s[before.len() as int] == start[before.len() as int]);
    lemma_read_number(start, scope_id as nat, after, scope_form());
}

/// An IPv6 socket address is read as it was written.
proof fn lemma_read_socket_v6(addr: SocketAddr)
    requires
        addr is V6,
        addr->V6_0.flowinfo == 0,
    ensures
        socket_addr_text(addr.text()) == Some(addr),
{
    let a = addr->V6_0;
    let s = addr.text();
    let ip = a.ip.text();
    let scope = scope_text(a.scope_id);
    let port = decimal_text(a.port as nat);
    lemma_socket_v6_text(ip, scope, port);
    let after = scope + seq![']', ':'] + port;
    lemma_read_ipv6(s, seq!['['], a.ip, after);
    let i = (1 + ip.len()) as int;
    let close = i + scope.len();
    assert(s.len() - after.len() == i);
    if a.scope_id != 0 {
        lemma_read_scope(s, seq!['['] + ip, a.scope_id, seq![']', ':'] + port);
    }
    lemma_read_port(s, (seq!['['] + ip + scope).push(']'), a.port);
    lemma_join_socket_v6(s, a, i, close);
}

/// A socket address reads back as it was written. The flow label of an IPv6 address is not
/// written.
pub proof fn socket_addr_round_trip(addr: SocketAddr)
    requires
        addr matches SocketAddr::V6(a) ==> a.flowinfo == 0,
    ensures
        socket_addr_text(addr.text()) == Some(addr),
{
    match addr {
        SocketAddr::V4(_) => lemma_read_socket_v4(addr),
        SocketAddr::V6(_) => lemma_read_socket_v6(addr),
    }
}

/// The characters with which addresses are written.
pub open spec fn is_addr_char(c: char) -> bool {
    is_digit(c, true) || c == '.' || c == ':' || c == '[' || c == ']' || c == '%'
}

/// Whether a text is made of such characters.
pub open spec fn addr_chars(s: Seq<char>) -> bool {
    forall|i: int| 0 <= i < s.len() ==> is_addr_char(#[trigger] s[i])
}

proof fn lemma_number_chars(n: nat, hex: bool)
    ensures
        addr_chars(number_text(n, hex)),
{
    lemma_number_digits(n, hex);
    assert forall|i: int| 0 <= i < number_text(n, hex).len() implies is_addr_char(
        #[trigger] number_text(n, hex)[i],
    ) by {
        assert(is_digit(number_text(n, hex)[i], hex));
    }
}

proof fn lemma_chars_add(a: Seq<char>, b: Seq<char>)
    requires
        addr_chars(a),
        addr_chars(b),
    ensures
        addr_chars(a + b),
{
}

proof fn lemma_chars_push(a: Seq<char>, c: char)
    requires
        addr_chars(a),
        is_addr_char(c),
    ensures
        addr_chars(a.push(c)),
{
}

proof fn lemma_ipv4_chars(ip: Ipv4Addr)
    ensures
        addr_chars(ip.text()),
{
    let a = number_text(ip.0 as nat, false);
    let b = number_text(ip.1 as nat, false);
    let c = number_text(ip.2 as nat, false);
    let d = number_text(ip.3 as nat, false);
    lemma_number_chars(ip.0 as nat, false);
    lemma_number_chars(ip.1 as nat, false);
    lemma_number_chars(ip.2 as nat, false);
    lemma_number_chars(ip.3 as nat, false);
    lemma_chars_push(a, '.');
    lemma_chars_push(b, '.');
    lemma_chars_push(c, '.');
    lemma_chars_add(a.push('.'), b.push('.'));
    lemma_chars_add(a.push('.') + b.push('.'), c.push('.'));
    lemma_chars_add(a.push('.') + b.push('.') + c.push('.'), d);
}

proof fn lemma_groups_chars(g: Seq<u16>)
    ensures
        addr_chars(groups_text(g)),
    decreases g.len(),
{
    if g.len() > 0 {
        lemma_number_chars(g.last() as nat, true);
        if g.len() > 1 {
            let shorter = groups_text(g.drop_last());
            lemma_groups_chars(g.drop_last());
            lemma_chars_push(shorter, ':');
            lemma_chars_add(shorter.push(':'), hex_text(g.last() as nat));
        }
    }
}

proof fn lemma_ipv6_chars(ip: Ipv6Addr)
    ensures
        addr_chars(ip.text()),
{
    if ip.v4_mapped() {
        lemma_ipv4_chars(ip.embedded_v4());
        lemma_chars_add(seq![':', ':', 'f', 'f', 'f', 'f', ':'], ip.embedded_v4().text());
    } else {
        let (start, len) = longest_run(ip.segments(), 8);
        if len > 1 {
            let head = groups_text(ip.segments().subrange(0, start));
            let tail = groups_text(ip.segments().subrange(start + len, 8));
            lemma_groups_chars(ip.segments().subrange(0, start));
            lemma_groups_chars(ip.segments().subrange(start + len, 8));
            lemma_chars_add(head, seq![':', ':']);
            lemma_chars_add(head + seq![':', ':'], tail);
        } else {
            lemma_groups_chars(ip.segments());
        }
    }
}

/// A socket address is written with the characters of addresses alone, starts with a digit or a
/// bracket, and has a colon.
pub proof fn lemma_socket_addr_chars(addr: SocketAddr)
    ensures
        addr_chars(addr.text()),
        addr.text().len() > 0,
        is_digit(addr.text()[0], false) || addr.text()[0] == '[',
        addr.text().contains(':'),
{
    match addr {
        SocketAddr::V4(a) => {
            let ip = a.ip.text();
            let port = number_text(a.port as nat, false);
            lemma_ipv4_chars(a.ip);
            lemma_number_chars(a.port as nat, false);
            lemma_chars_push(ip, ':');
            lemma_chars_add(ip.push(':'), port);
            lemma_number_digits(a.ip.0 as nat, false);
            assert(addr.text()[0] == number_text(a.ip.0 as nat, false)[0]);
            assert(addr.text()[ip.len() as int] == ':');
        },
        SocketAddr::V6(a) => {
            let ip = a.ip.text();
            let scope = scope_text(a.scope_id);
            let port = number_text(a.port as nat, false);
            lemma_ipv6_chars(a.ip);
            lemma_number_chars(a.port as nat, false);
            lemma_number_chars(a.scope_id as nat, false);
            assert(addr_chars(scope)) by {
                if a.scope_id != 0 {
                    lemma_chars_add(seq!['%'], number_text(a.scope_id as nat, false));
                }
            }
            lemma_chars_add(seq!['['], ip);
            lemma_chars_add(seq!['['] + ip, scope);
            lemma_chars_add(seq!['['] + ip + scope, seq![']', ':']);
            lemma_chars_add(seq!['['] + ip + scope + seq![']', ':'], port);
            lemma_socket_v6_text(ip, scope, port);
            let front = (seq!['['] + ip + scope).push(']');
            assert(addr.text()[front.len() as int] == front.push(':')[front.len() as int]);
        },
    }
}

} // verus!
