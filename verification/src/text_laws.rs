//! What splitting, joining and searching text give, and how addresses are written and read.

use crate::addr::{Ipv4Addr, Ipv6Addr, SocketAddr, SocketAddrV4, SocketAddrV6};
use crate::addr_parse::{
    group_form, octet_form, parse_socket_addr, port_form, read_after, read_ipv4, socket_addr_text,
};
use crate::addr_round_trip::socket_addr_round_trip;
use crate::addr_text::{groups_text, longest_run, scope_text, zero_run};
use crate::mapping_round_trip::{lacks, no_flow_label};
use crate::number::{
    decimal_text, digit_char, digit_value, is_digit, lemma_run_end_bounds, number_value, port_text,
    read_number,
};
use crate::number_laws::{digits_only, lemma_port_text, lemma_value_moves};
use crate::text::{blank, join, last_position, lower_char, split, white_space};
use vstd::prelude::*;

verus! {

/// Splitting loses nothing: the pieces hold no separator, there is at least one of them, and
/// joined they are the text again.
pub proof fn join_undoes_split(s: Seq<char>, sep: char)
    ensures
        split(s, sep).len() > 0,
        forall|i: int| 0 <= i < split(s, sep).len() ==> lacks(#[trigger] split(s, sep)[i], sep),
        join(split(s, sep), sep) == s,
    decreases s.len(),
{
    let pieces = split(s, sep);
    if s.len() > 0 {
        let c = s.last();
        let before = split(s.drop_last(), sep);
        join_undoes_split(s.drop_last(), sep);
        assert(s =~= s.drop_last().push(c));
        assert(before =~= before.drop_last().push(before.last()));
        if c == sep {
            assert(pieces.drop_last() =~= before);
            assert(join(pieces, sep) =~= s);
            assert forall|i: int| 0 <= i < pieces.len() implies lacks(
                #[trigger] pieces[i],
                sep,
            ) by {
                if i < before.len() {
                    assert(pieces[i] == before[i]);
                }
            }
        } else {
            assert(pieces.drop_last() =~= before.drop_last());
            assert(lacks(before[before.len() - 1], sep));
            assert forall|i: int| 0 <= i < pieces.len() implies lacks(
                #[trigger] pieces[i],
                sep,
            ) by {
                if i < before.len() - 1 {
                    assert(pieces[i] == before[i]);
                }
            }
            assert(join(pieces, sep) =~= s);
        }
    } else {
        assert(join(pieces, sep) =~= s);
    }
}

/// The last position of a character holds it, and none behind it does; there is one exactly if the
/// text has the character.
pub proof fn last_position_is_the_last(s: Seq<char>, c: char)
    ensures
        last_position(s, c) is None <==> lacks(s, c),
        last_position(s, c) matches Some(i) ==> 0 <= i < s.len() && s[i] == c && (forall|j: int|
            i < j < s.len() ==> #[trigger] s[j] != c),
    decreases s.len(),
{
    if s.len() > 0 {
        let shorter = s.drop_last();
        last_position_is_the_last(shorter, c);
        assert(s.last() == s[s.len() - 1]);
        if s.last() != c {
            assert forall|j: int| 0 <= j < shorter.len() implies shorter[j] == #[trigger] s[j] by {}
            if lacks(shorter, c) {
                assert forall|j: int| 0 <= j < s.len() implies #[trigger] s[j] != c by {
                    if j < shorter.len() {
                        assert(shorter[j] != c);
                    }
                }
            }
        }
    }
}

/// A text is blank exactly if it has no visible character. Invisible are, by their numbers in
/// Unicode, the controls from the tabulator to the carriage return, the space, the next line, the
/// no-break space, the Ogham space mark, the spaces of typography, the separators of lines and
/// paragraphs, the narrow no-break space, the space of mathematics and the ideographic space.
pub proof fn blank_has_nothing_visible(s: Seq<char>, c: char)
    ensures
        blank(Seq::empty()),
        blank(s.push(c)) <==> blank(s) && white_space(c),
        white_space(c) <==> {
            ||| 9 <= c as u32 <= 13
            ||| c as u32 == 32
            ||| c as u32 == 133
            ||| c as u32 == 160
            ||| c as u32 == 5760
            ||| 8192 <= c as u32 <= 8202
            ||| c as u32 == 8232
            ||| c as u32 == 8233
            ||| c as u32 == 8239
            ||| c as u32 == 8287
            ||| c as u32 == 12288
        },
{
    let more = s.push(c);
    if blank(more) {
        assert(white_space(more[s.len() as int]));
        assert forall|i: int| 0 <= i < s.len() implies white_space(#[trigger] s[i]) by {
            assert(more[i] == s[i]);
        }
    }
}

/// What a digit stands for: itself, or, in base sixteen, ten to fifteen for a letter in either
/// case; nothing else is a digit.
pub proof fn digits_stand_for_their_values(c: char)
    ensures
        is_digit(c, false) <==> 48 <= c as u32 <= 57,
        is_digit(c, true) <==> 48 <= c as u32 <= 57 || 65 <= c as u32 <= 70 || 97 <= c as u32
            <= 102,
        48 <= c as u32 <= 57 ==> digit_value(c) == c as u32 - 48,
        65 <= c as u32 <= 70 ==> digit_value(c) == c as u32 - 55,
        97 <= c as u32 <= 102 ==> digit_value(c) == c as u32 - 87,
{
}

/// Digits without a superfluous zero are how their number is written.
proof fn lemma_canonical(s: Seq<char>, i: int, j: int)
    requires
        0 <= i < j <= s.len(),
        forall|k: int| i <= k < j ==> is_digit(#[trigger] s[k], false),
        s[i] != '0' || j == i + 1,
    ensures
        decimal_text(number_value(s, i, j, false)) == s.subrange(i, j),
        s[i] != '0' ==> number_value(s, i, j, false) > 0,
    decreases j - i,
{
    let d = digit_value(s[j - 1]);
    assert(is_digit(s[j - 1], false));
    assert(digit_char(d) == s[j - 1]) by {
        assert(48 + d == s[j - 1] as u32);
    }
    if j == i + 1 {
        assert(number_value(s, i, i, false) == 0);
        assert(s.subrange(i, j) =~= seq![s[i]]);
    } else {
        lemma_canonical(s, i, j - 1);
        let n = number_value(s, i, j - 1, false);
        assert((10 * n + d) / 10 == n && (10 * n + d) % 10 == d);
        assert(s.subrange(i, j) =~= s.subrange(i, j - 1).push(s[j - 1]));
    }
}

proof fn lemma_octet(s: Seq<char>, i: int, n: nat, j: int)
    requires
        0 <= i <= s.len(),
        read_number(s, i, octet_form()) == Some((n, j)),
    ensures
        i < j <= s.len(),
        n <= 255,
        s.subrange(i, j) == decimal_text(n),
{
    lemma_run_end_bounds(s, i, false);
    lemma_canonical(s, i, j);
}

/// An IPv4 address is read only where it stands exactly as it is written: four octets in decimal
/// with a dot between neighbours, none above 255 and none with a superfluous zero.
pub proof fn ipv4_is_read_as_written(s: Seq<char>, i: int, ip: Ipv4Addr, end: int)
    requires
        0 <= i <= s.len(),
        read_ipv4(s, i) == Some((ip, end)),
    ensures
        i < end <= s.len(),
        s.subrange(i, end) == decimal_text(ip.0 as nat).push('.') + decimal_text(ip.1 as nat).push(
            '.',
        ) + decimal_text(ip.2 as nat).push('.') + decimal_text(ip.3 as nat),
        s.subrange(i, end) == ip.text(),
{
    let (a, i1) = read_number(s, i, octet_form())->0;
    lemma_octet(s, i, a, i1);
    let (b, i2) = read_after(s, i1, '.', octet_form())->0;
    lemma_octet(s, i1 + 1, b, i2);
    let (c, i3) = read_after(s, i2, '.', octet_form())->0;
    lemma_octet(s, i2 + 1, c, i3);
    let (d, i4) = read_after(s, i3, '.', octet_form())->0;
    lemma_octet(s, i3 + 1, d, i4);
    assert(s.subrange(i, end) =~= s.subrange(i, i1).push('.') + s.subrange(i1 + 1, i2).push('.')
        + s.subrange(i2 + 1, i3).push('.') + s.subrange(i3 + 1, i4));
}

/// A text is an IPv4 socket address exactly if it is an IPv4 address as it is written, a colon and
/// the digits of a port.
pub proof fn ipv4_socket_is_read_as_written(s: Seq<char>, addr: SocketAddrV4)
    requires
        socket_addr_text(s) == Some(SocketAddr::V4(addr)),
    ensures
        ({
            let host = addr.ip.text();
            let port = s.skip(host.len() as int + 1);
            &&& host.len() < s.len()
            &&& s == host.push(':') + port
            &&& digits_only(port)
            &&& port_text(port) == Some(addr.port)
        }),
{
    let (ip, i) = read_ipv4(s, 0)->0;
    ipv4_is_read_as_written(s, 0, ip, i);
    let (n, j) = read_after(s, i, ':', port_form())->0;
    let host = ip.text();
    let port = s.skip(i + 1);
    assert(host.len() == i);
    lemma_run_end_bounds(s, i + 1, false);
    assert(s =~= host.push(':') + port);
    assert forall|k: int| 0 <= k < port.len() implies '0' <= #[trigger] port[k] <= '9' by {
        assert(is_digit(s[i + 1 + k], false));
    }
    lemma_port_text(port);
    lemma_value_moves(host.push(':'), port, Seq::empty(), port.len() as int);
    assert(host.push(':') + port + Seq::<char>::empty() =~= s);
}

/// Addresses are written with their parts in order: the IP, a colon and the port for IPv4; the IP
/// in brackets, with a scope that is not zero behind a percent sign, for IPv6.
pub proof fn addresses_are_written_in_parts(a: SocketAddrV4, b: SocketAddrV6)
    ensures
        SocketAddr::V4(a).text() == a.ip.text().push(':') + decimal_text(a.port as nat),
        a.ip.text() == decimal_text(a.ip.0 as nat).push('.') + decimal_text(a.ip.1 as nat).push(
            '.',
        ) + decimal_text(a.ip.2 as nat).push('.') + decimal_text(a.ip.3 as nat),
        SocketAddr::V6(b).text() == seq!['['] + b.ip.text() + scope_text(b.scope_id) + seq![
            ']',
            ':',
        ] + decimal_text(b.port as nat),
        b.scope_id == 0 ==> scope_text(b.scope_id).len() == 0,
        b.scope_id != 0 ==> scope_text(b.scope_id) == seq!['%'] + decimal_text(b.scope_id as nat),
{
}

/// The row of zero groups that is left out of an IPv6 address is a longest one, and the first of
/// those that are.
pub proof fn longest_row_is_left_out(g: Seq<u16>, n: nat, i: int, len: nat)
    requires
        n <= g.len(),
        0 <= i < n,
        i + len <= g.len(),
        forall|k: int| i <= k < i + len ==> #[trigger] g[k] == 0,
    ensures
        len <= longest_run(g, n).1,
        len == longest_run(g, n).1 && len > 0 ==> longest_run(g, n).0 <= i,
{
    lemma_zero_run(g, i, len);
    lemma_runs_grow(g, n, i);
}

proof fn lemma_zero_run(g: Seq<u16>, i: int, len: nat)
    requires
        0 <= i,
        i + len <= g.len(),
        forall|k: int| i <= k < i + len ==> #[trigger] g[k] == 0,
    ensures
        zero_run(g, i) >= len,
    decreases len,
{
    if len > 0 {
        assert(g[i] == 0);
        lemma_zero_run(g, i + 1, (len - 1) as nat);
    }
}

proof fn lemma_runs_grow(g: Seq<u16>, n: nat, i: int)
    requires
        0 <= i < n <= g.len(),
    ensures
        zero_run(g, i) <= longest_run(g, n).1,
        zero_run(g, i) == longest_run(g, n).1 && zero_run(g, i) > 0 ==> longest_run(g, n).0 <= i,
        longest_run(g, n).0 < n,
    decreases n,
{
    reveal_with_fuel(longest_run, 2);
    if i < n - 1 {
        lemma_runs_grow(g, (n - 1) as nat, i);
    } else if n > 1 {
        lemma_runs_grow(g, (n - 1) as nat, 0);
    }
}

/// An IPv6 address is written as its groups in hexadecimal with colons between them, the longest
/// row of two or more zero groups left out between two colons; one that holds an IPv4 address
/// (`::ffff:0:0/96`) is written with that address in decimal.
pub proof fn ipv6_is_written_in_groups(ip: Ipv6Addr)
    ensures
        ({
            let g = ip.segments();
            let (start, len) = longest_run(g, 8);
            let mapped = ip.0 == 0 && ip.1 == 0 && ip.2 == 0 && ip.3 == 0 && ip.4 == 0 && ip.5
                == 65535;
            &&& mapped ==> ip.text() == seq![':', ':', 'f', 'f', 'f', 'f', ':'] + Ipv4Addr(
                (ip.6 / 256) as u8,
                (ip.6 % 256) as u8,
                (ip.7 / 256) as u8,
                (ip.7 % 256) as u8,
            ).text()
            &&& !mapped && len < 2 ==> ip.text() == groups_text(g)
            &&& !mapped && len >= 2 ==> ip.text() == groups_text(g.take(start)) + seq![':', ':']
                + groups_text(g.skip(start + len))
        }),
{
    let g = ip.segments();
    let (start, len) = longest_run(g, 8);
    crate::addr_text::lemma_longest_run(g, 8);
    if len >= 2 {
        assert(g.subrange(0, start) =~= g.take(start));
        assert(g.subrange(start + len, 8) =~= g.skip(start + len));
    }
}

/// An address that was written is read back as it was, but for its flow label.
pub proof fn written_address_is_read(
    addr: &SocketAddr,
    text: String,
    v: &[char],
    r: Option<SocketAddr>,
)
    requires
        call_ensures(SocketAddr::to_string, (addr,), text),
        call_ensures(parse_socket_addr, (v,), r),
        v@ == text@,
    ensures
        addr matches SocketAddr::V4(_) ==> r == Some(*addr),
        addr matches SocketAddr::V6(a) && a.flowinfo == 0 ==> r == Some(*addr),
{
    if no_flow_label(*addr) {
        socket_addr_round_trip(*addr);
    }
}

/// Of the groups of an IPv6 address each has one to four hexadecimal digits.
pub proof fn groups_have_up_to_four_digits(s: Seq<char>, i: int, n: nat, j: int)
    requires
        0 <= i <= s.len(),
        read_number(s, i, group_form()) == Some((n, j)),
    ensures
        i < j <= i + 4,
        j <= s.len(),
        n <= 65535,
        forall|k: int| i <= k < j ==> is_digit(#[trigger] s[k], true),
{
    lemma_run_end_bounds(s, i, true);
}

/// The case of hexadecimal digits does not matter.
pub proof fn case_of_digits_does_not_matter(s: Seq<char>, t: Seq<char>, i: int, j: int)
    requires
        0 <= i <= j <= s.len(),
        s.len() == t.len(),
        forall|k: int|
            i <= k < j ==> is_digit(#[trigger] s[k], true) && is_digit(t[k], true) && lower_char(
                s[k],
            ) == lower_char(t[k]),
    ensures
        number_value(s, i, j, true) == number_value(t, i, j, true),
    decreases j - i,
{
    if i < j {
        case_of_digits_does_not_matter(s, t, i, j - 1);
        lemma_case_of_digit(s[j - 1]);
        lemma_case_of_digit(t[j - 1]);
    }
}

proof fn lemma_case_of_digit(c: char)
    requires
        is_digit(c, true),
    ensures
        is_digit(lower_char(c), true),
        digit_value(lower_char(c)) == digit_value(c),
{
    if 'A' <= c <= 'Z' {
        let low = (c as u32) + 32;
        assert(97 <= low <= 122);
    }
}

} // verus!
