//! Numbers in text: decimal and hexadecimal digits, read and written.

use vstd::prelude::*;

verus! {

/// A digit of base ten, or of base sixteen in either case.
pub open spec fn is_digit(c: char, hex: bool) -> bool {
    ||| '0' <= c <= '9'
    ||| hex && 'a' <= c <= 'f'
    ||| hex && 'A' <= c <= 'F'
}

/// What a digit stands for.
pub open spec fn digit_value(c: char) -> nat {
    if '0' <= c <= '9' {
        (c as nat - '0' as nat) as nat
    } else if 'a' <= c <= 'f' {
        (c as nat - 'a' as nat + 10) as nat
    } else {
        (c as nat - 'A' as nat + 10) as nat
    }
}

/// The number that `s[i..j]` spells when every character of it is a digit.
pub open spec fn number_value(s: Seq<char>, i: int, j: int, hex: bool) -> nat
    decreases j - i,
{
    if j <= i {
        0
    } else if hex {
        16 * number_value(s, i, j - 1, hex) + digit_value(s[j - 1])
    } else {
        10 * number_value(s, i, j - 1, hex) + digit_value(s[j - 1])
    }
}

/// Where the digits that start at `i` end.
pub open spec fn run_end(s: Seq<char>, i: int, hex: bool) -> int
    decreases s.len() - i,
{
    if 0 <= i < s.len() && is_digit(s[i], hex) {
        run_end(s, i + 1, hex)
    } else {
        i
    }
}

/// How a number may be written: its base, how many digits it may have (zero for any
/// number of them), whether it may start with a superfluous zero, and its largest value.
pub struct NumberForm {
    pub hex: bool,
    pub max_digits: usize,
    pub zero_prefix: bool,
    pub max: u32,
}

/// The number that starts at `i`, with the position after its last digit. All digits in
/// a row belong to it.
pub open spec fn read_number(s: Seq<char>, i: int, form: NumberForm) -> Option<(nat, int)> {
    let j = run_end(s, i, form.hex);
    if j == i {
        None
    } else if form.max_digits > 0 && j - i > form.max_digits {
        None
    } else if !form.zero_prefix && s[i] == '0' && j - i > 1 {
        None
    } else if number_value(s, i, j, form.hex) > form.max {
        None
    } else {
        Some((number_value(s, i, j, form.hex), j))
    }
}

/// Whether `c` is a digit.
pub fn digit(c: char, hex: bool) -> (r: bool)
    ensures
        r == is_digit(c, hex),
{
    ('0' <= c && c <= '9') || (hex && 'a' <= c && c <= 'f') || (hex && 'A' <= c && c <= 'F')
}

fn value_of_digit(c: char) -> (r: u32)
    requires
        is_digit(c, true),
    ensures
        r == digit_value(c),
        r < 16,
        is_digit(c, false) ==> r < 10,
{
    if '0' <= c && c <= '9' {
        (c as u32) - ('0' as u32)
    } else if 'a' <= c && c <= 'f' {
        (c as u32) - ('a' as u32) + 10
    } else {
        (c as u32) - ('A' as u32) + 10
    }
}

/// The digits that start at `i` are digits, and what follows them is none.
pub proof fn lemma_run_end_bounds(s: Seq<char>, i: int, hex: bool)
    requires
        0 <= i <= s.len(),
    ensures
        i <= run_end(s, i, hex) <= s.len(),
        forall|k: int| i <= k < run_end(s, i, hex) ==> is_digit(#[trigger] s[k], hex),
        run_end(s, i, hex) < s.len() ==> !is_digit(s[run_end(s, i, hex)], hex),
    decreases s.len() - i,
{
    if i < s.len() && is_digit(s[i], hex) {
        lemma_run_end_bounds(s, i + 1, hex);
    }
}

/// Digits from `i` up to `j` with no digit at `j` are the run that starts at `i`.
pub proof fn lemma_run_end_at(s: Seq<char>, i: int, j: int, hex: bool)
    requires
        0 <= i <= j <= s.len(),
        forall|k: int| i <= k < j ==> is_digit(#[trigger] s[k], hex),
        j < s.len() ==> !is_digit(s[j], hex),
    ensures
        run_end(s, i, hex) == j,
    decreases j - i,
{
    if i < j {
        assert(is_digit(s[i], hex));
        lemma_run_end_at(s, i + 1, j, hex);
    }
}

/// Reads the number that starts at `i`.
pub fn number_at(v: &[char], i: usize, form: NumberForm) -> (r: Option<(u32, usize)>)
    requires
        i <= v@.len(),
    ensures
        r matches Some((n, j)) ==> read_number(v@, i as int, form) == Some((n as nat, j as int))
            && i < j <= v@.len(),
        r is None ==> read_number(v@, i as int, form) is None,
{
    let hex = form.hex;
    let mut j: usize = i;
    let mut value: u64 = 0;
    let mut too_large: bool = false;
    proof {
        lemma_run_end_bounds(v@, i as int, hex);
    }
    while j < v.len() && digit(v[j], hex)
        invariant
            i <= j <= v@.len(),
            hex == form.hex,
            run_end(v@, i as int, hex) == run_end(v@, j as int, hex),
            j <= run_end(v@, i as int, hex) <= v@.len(),
            too_large == (number_value(v@, i as int, j as int, hex) > form.max),
            !too_large ==> value == number_value(v@, i as int, j as int, hex),
            !too_large ==> value <= u32::MAX,
        decreases v@.len() - j,
    {
        proof {
            lemma_run_end_bounds(v@, j as int + 1, hex);
        }
        let d = value_of_digit(v[j]);
        if !too_large {
            value = if hex {
                16 * value + d as u64
            } else {
                10 * value + d as u64
            };
            if value > form.max as u64 {
                too_large = true;
            }
        }
        j += 1;
    }
    if j == i {
        return None;
    }
    if form.max_digits > 0 && j - i > form.max_digits {
        return None;
    }
    if !form.zero_prefix && v[i] == '0' && j - i > 1 {
        return None;
    }
    if too_large {
        return None;
    }
    Some((value as u32, j))
}

/// The decimal number that a text spells: an optional plus sign and digits, at most `max`.
pub open spec fn unsigned_text(s: Seq<char>, max: u32) -> Option<nat> {
    let from: int = if s.len() > 0 && s[0] == '+' {
        1
    } else {
        0
    };
    match read_number(s, from, NumberForm { hex: false, max_digits: 0, zero_prefix: true, max }) {
        Some((n, j)) => if j == s.len() {
            Some(n)
        } else {
            None
        },
        None => None,
    }
}

/// The decimal number that a text spells as a whole.
pub fn parse_unsigned(v: &[char], max: u32) -> (r: Option<u32>)
    ensures
        r matches Some(n) ==> unsigned_text(v@, max) == Some(n as nat) && n <= max,
        r is None ==> unsigned_text(v@, max) is None,
{
    let from: usize = if v.len() > 0 && v[0] == '+' {
        1
    } else {
        0
    };
    match number_at(v, from, NumberForm { hex: false, max_digits: 0, zero_prefix: true, max }) {
        Some((n, j)) => if j == v.len() {
            Some(n)
        } else {
            None
        },
        None => None,
    }
}

/// The port number that a text spells.
pub open spec fn port_text(s: Seq<char>) -> Option<u16> {
    match unsigned_text(s, 65535) {
        Some(n) => Some(n as u16),
        None => None,
    }
}

/// The port number that a text spells.
pub fn parse_port(v: &[char]) -> (r: Option<u16>)
    ensures
        r == port_text(v@),
{
    match parse_unsigned(v, 65535) {
        Some(n) => Some(n as u16),
        None => None,
    }
}

/// The character for a digit.
pub open spec fn digit_char(d: nat) -> char {
    if d < 10 {
        (('0' as u32) + d) as char
    } else {
        (('a' as u32) + d - 10) as char
    }
}

/// A number in decimal, without superfluous zeros.
pub open spec fn decimal_text(n: nat) -> Seq<char>
    decreases n,
{
    if n < 10 {
        seq![digit_char(n)]
    } else {
        decimal_text(n / 10).push(digit_char(n % 10))
    }
}

/// A number in lower-case hexadecimal, without superfluous zeros.
pub open spec fn hex_text(n: nat) -> Seq<char>
    decreases n,
{
    if n < 16 {
        seq![digit_char(n)]
    } else {
        hex_text(n / 16).push(digit_char(n % 16))
    }
}

fn char_of_digit(d: u64) -> (c: char)
    requires
        d < 16,
    ensures
        c == digit_char(d as nat),
{
    let d = d as u8;
    if d < 10 {
        (48 + d) as char
    } else {
        (97 + (d - 10)) as char
    }
}

/// Writes a number in decimal.
pub fn push_decimal(v: &mut Vec<char>, n: u64)
    ensures
        final(v)@ == old(v)@ + decimal_text(n as nat),
    decreases n,
{
    let ghost before = v@;
    if n >= 10 {
        push_decimal(v, n / 10);
        v.push(char_of_digit(n % 10));
        assert(v@ =~= before + decimal_text((n / 10) as nat).push(digit_char((n % 10) as nat)));
    } else {
        v.push(char_of_digit(n));
        assert(v@ =~= before + seq![digit_char(n as nat)]);
    }
}

/// Writes a number in hexadecimal.
pub fn push_hex(v: &mut Vec<char>, n: u64)
    ensures
        final(v)@ == old(v)@ + hex_text(n as nat),
    decreases n,
{
    let ghost before = v@;
    if n >= 16 {
        push_hex(v, n / 16);
        v.push(char_of_digit(n % 16));
        assert(v@ =~= before + hex_text((n / 16) as nat).push(digit_char((n % 16) as nat)));
    } else {
        v.push(char_of_digit(n));
        assert(v@ =~= before + seq![digit_char(n as nat)]);
    }
}

} // verus!
