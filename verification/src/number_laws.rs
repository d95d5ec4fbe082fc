//! What numbers and ports in text stand for, digit by digit.

use crate::addr::{Ipv4Addr, SocketAddr, SocketAddrV4};
use crate::addr_parse::{port_form, read_ipv4, socket_addr_text};
use crate::addr_round_trip::lemma_read_ipv4;
use crate::number::{
    decimal_text, digit_char, digit_value, hex_text, is_digit, lemma_run_end_at,
    lemma_run_end_bounds, number_value, port_text, read_number, run_end,
};
use vstd::prelude::*;

verus! {

/// At least one character, and nothing but `0` to `9`.
pub open spec fn digits_only(s: Seq<char>) -> bool {
    &&& s.len() > 0
    &&& forall|i: int| 0 <= i < s.len() ==> '0' <= #[trigger] s[i] <= '9'
}

proof fn lemma_digits_end(s: Seq<char>, i: int)
    requires
        0 <= i <= s.len(),
        forall|k: int| i <= k < s.len() ==> '0' <= #[trigger] s[k] <= '9',
    ensures
        run_end(s, i, false) == s.len(),
{
    assert forall|k: int| i <= k < s.len() implies is_digit(#[trigger] s[k], false) by {}
    lemma_run_end_at(s, i, s.len() as int, false);
}

/// The digits of `s` spell the same number wherever they stand.
pub proof fn lemma_value_moves(before: Seq<char>, s: Seq<char>, after: Seq<char>, n: int)
    requires
        0 <= n <= s.len(),
    ensures
        number_value(before + s + after, before.len() as int, before.len() + n, false)
            == number_value(s, 0, n, false),
    decreases n,
{
    if n > 0 {
        lemma_value_moves(before, s, after, n - 1);
        assert((before + s + after)[before.len() + n - 1] == s[n - 1]);
    }
}

pub proof fn lemma_port_text(s: Seq<char>)
    requires
        digits_only(s),
    ensures
        number_value(s, 0, s.len() as int, false) <= 65535 ==> port_text(s) == Some(
            number_value(s, 0, s.len() as int, false) as u16,
        ),
        number_value(s, 0, s.len() as int, false) > 65535 ==> port_text(s) is None,
{
    lemma_digits_end(s, 0);
    assert('0' <= s[0] <= '9');
}

/// A port is written in decimal: a single digit stands for itself, each further digit counts the
/// digits before it in tens, and what exceeds the largest port is none.
pub proof fn port_counts_in_tens(s: Seq<char>, c: char)
    requires
        '0' <= c <= '9',
        s.len() == 0 || digits_only(s),
    ensures
        ({
            let d = (c as int) - ('0' as int);
            &&& s.len() == 0 ==> port_text(s.push(c)) == Some(d as u16)
            &&& digits_only(s) && port_text(s) is Some && 10 * port_text(s)->0 + d <= 65535
                ==> port_text(s.push(c)) == Some((10 * port_text(s)->0 + d) as u16)
            &&& digits_only(s) && (port_text(s) is None || 10 * port_text(s)->0 + d > 65535)
                ==> port_text(s.push(c)) is None
        }),
{
    let more = s.push(c);
    let n = s.len() as int;
    assert forall|i: int| 0 <= i < more.len() implies '0' <= #[trigger] more[i] <= '9' by {
        if i < n {
            assert(more[i] == s[i]);
        }
    }
    lemma_port_text(more);
    if n > 0 {
        lemma_port_text(s);
    }
    lemma_value_moves(Seq::empty(), s, seq![c], n);
    assert(Seq::empty() + s + seq![c] =~= more);
    assert(number_value(s, 0, 0, false) == 0);
    assert(number_value(more, 0, n, false) == number_value(s, 0, n, false));
    assert(number_value(more, 0, n + 1, false) == 10 * number_value(s, 0, n, false) + digit_value(
        c,
    ));
}

/// A text is a port only if it is made of digits, behind a plus sign or not; the plus sign does
/// not matter.
pub proof fn port_is_made_of_digits(s: Seq<char>)
    ensures
        port_text(s) is Some ==> digits_only(s) || (s.len() > 0 && s[0] == '+' && digits_only(
            s.skip(1),
        )),
        digits_only(s) ==> port_text(seq!['+'] + s) == port_text(s),
{
    let from: int = if s.len() > 0 && s[0] == '+' {
        1
    } else {
        0
    };
    lemma_run_end_bounds(s, from, false);
    if port_text(s) is Some {
        assert(run_end(s, from, false) == s.len());
        let rest = s.skip(from);
        assert forall|i: int| 0 <= i < rest.len() implies '0' <= #[trigger] rest[i] <= '9' by {
            assert(is_digit(s[from + i], false));
        }
        assert(from == 0 ==> rest =~= s);
    }
    if digits_only(s) {
        let signed = seq!['+'] + s;
        lemma_port_text(s);
        assert forall|k: int| 1 <= k < signed.len() implies '0' <= #[trigger] signed[k] <= '9' by {
            assert(signed[k] == s[k - 1]);
        }
        lemma_digits_end(signed, 1);
        lemma_value_moves(seq!['+'], s, Seq::empty(), s.len() as int);
        assert(seq!['+'] + s + Seq::<char>::empty() =~= signed);
        assert(signed[0] == '+');
    }
}

/// A port on the local host: the text `127.0.0.1:` followed by a port reads as that port of
/// `127.0.0.1`.
pub proof fn local_port_reads_as_local_address(s: Seq<char>, port: u16)
    requires
        digits_only(s),
        port_text(s) == Some(port),
    ensures
        socket_addr_text("127.0.0.1:"@ + s) == Some(
            SocketAddr::V4(SocketAddrV4 { ip: Ipv4Addr(127, 0, 0, 1), port }),
        ),
{
    let ip = Ipv4Addr(127, 0, 0, 1);
    let host = seq!['1', '2', '7', '.', '0', '.', '0', '.', '1'];
    let front = host.push(':');
    let text = "127.0.0.1:"@ + s;
    reveal_strlit("127.0.0.1:");
    assert("127.0.0.1:"@ =~= front);
    assert(ip.text() =~= host) by {
        reveal_with_fuel(decimal_text, 4);
        assert(digit_char(1) == '1');
        assert(digit_char(2) == '2');
        assert(digit_char(7) == '7');
        assert(digit_char(0) == '0');
        assert(decimal_text(127) =~= seq!['1', '2', '7']);
        assert(decimal_text(0) =~= seq!['0']);
        assert(decimal_text(1) =~= seq!['1']);
    }
    let after = seq![':'] + s;
    assert(text =~= Seq::<char>::empty() + ip.text() + after);
    lemma_read_ipv4(Seq::empty(), ip, after);
    assert(read_ipv4(text, 0) == Some((ip, 9int)));
    assert(text[9] == ':');
    assert forall|k: int| 10 <= k < text.len() implies '0' <= #[trigger] text[k] <= '9' by {
        assert(text[k] == s[k - 10]);
    }
    lemma_digits_end(text, 10);
    lemma_value_moves(front, s, Seq::empty(), s.len() as int);
    assert(front + s + Seq::<char>::empty() =~= text);
    lemma_port_text(s);
    assert(read_number(text, 10, port_form()) == Some((port as nat, text.len() as int)));
}

/// A number is written in decimal with the digits `0` to `9`, the last digit counting ones, and
/// without superfluous zeros; in hexadecimal with `0` to `9` and `a` to `f`.
pub proof fn numbers_are_written_digit_by_digit(n: nat, d: nat)
    ensures
        d < 10 && n > 0 ==> decimal_text(10 * n + d) == decimal_text(n).push(
            (('0' as u32) + d) as char,
        ),
        d < 10 ==> decimal_text(d) == seq![(('0' as u32) + d) as char],
        d < 10 && n > 0 ==> hex_text(16 * n + d) == hex_text(n).push((('0' as u32) + d) as char),
        d < 10 ==> hex_text(d) == seq![(('0' as u32) + d) as char],
        10 <= d < 16 && n > 0 ==> hex_text(16 * n + d) == hex_text(n).push(
            (('a' as u32) + d - 10) as char,
        ),
        10 <= d < 16 ==> hex_text(d) == seq![(('a' as u32) + d - 10) as char],
{
    if d < 10 {
        assert((10 * n + d) / 10 == n && (10 * n + d) % 10 == d);
    }
    if d < 16 {
        assert((16 * n + d) / 16 == n && (16 * n + d) % 16 == d);
    }
}

} // verus!
