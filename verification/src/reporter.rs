//! The hex reporter: the four-digit hexadecimal text of a sampled address,
//! and the full report line.
//!
//! `format_hex` builds the digit buffer least-significant digit first, by
//! repeatedly taking the remainder modulo 16, and stops as soon as the
//! remaining value is zero; the positions the loop never reaches keep the
//! fill character `'0'`, so an address of zero prints as `"0000"` and not as
//! an empty string. Consumers read the buffer in reverse construction order
//! to obtain conventional most-significant-first text; `render_line` does so
//! when it emits the report line of one cycle: the 16 sampled bits, one
//! space, the four reversed hex digits, and a newline.

use vstd::prelude::*;
use crate::sampler::{bus_value, sample};

verus! {

/// `v` with its low `j` base-16 digits dropped.
pub open spec fn dropped(v: int, j: nat) -> int
    decreases j,
{
    if j == 0 {
        v
    } else {
        dropped(v, (j - 1) as nat) / 16
    }
}

/// Base-16 digit `j` of `v` (digit 0 is the least significant).
pub open spec fn nibble(v: int, j: nat) -> int {
    dropped(v, j) % 16
}

/// The character for one base-16 digit: `0-9` then `A-F`.
pub open spec fn hex_char(d: int) -> char {
    if d == 0 {
        '0'
    } else if d == 1 {
        '1'
    } else if d == 2 {
        '2'
    } else if d == 3 {
        '3'
    } else if d == 4 {
        '4'
    } else if d == 5 {
        '5'
    } else if d == 6 {
        '6'
    } else if d == 7 {
        '7'
    } else if d == 8 {
        '8'
    } else if d == 9 {
        '9'
    } else if d == 10 {
        'A'
    } else if d == 11 {
        'B'
    } else if d == 12 {
        'C'
    } else if d == 13 {
        'D'
    } else if d == 14 {
        'E'
    } else {
        'F'
    }
}

/// The value of one hex digit character; 16 marks a character outside the
/// alphabet.
pub open spec fn hex_value(c: char) -> int {
    if c == '0' {
        0
    } else if c == '1' {
        1
    } else if c == '2' {
        2
    } else if c == '3' {
        3
    } else if c == '4' {
        4
    } else if c == '5' {
        5
    } else if c == '6' {
        6
    } else if c == '7' {
        7
    } else if c == '8' {
        8
    } else if c == '9' {
        9
    } else if c == 'A' {
        10
    } else if c == 'B' {
        11
    } else if c == 'C' {
        12
    } else if c == 'D' {
        13
    } else if c == 'E' {
        14
    } else if c == 'F' {
        15
    } else {
        16
    }
}

/// Whether `c` belongs to the hex alphabet `0-9A-F`.
pub open spec fn is_hex_digit(c: char) -> bool {
    hex_value(c) < 16
}

/// The digit buffer for `v`, in construction order: digit `j` of the buffer
/// is base-16 digit `j` of `v`, least significant first.
pub open spec fn spec_format_hex(v: u16) -> Seq<char> {
    Seq::new(4, |j: int| hex_char(nibble(v as int, j as nat)))
}

/// Once the remaining value is zero, every further base-16 digit is zero.
proof fn lemma_dropped_stays_zero(v: int, c: nat, j: nat)
    requires
        dropped(v, c) == 0,
        c <= j,
    ensures
        dropped(v, j) == 0,
    decreases j - c,
{
    if j > c {
        lemma_dropped_stays_zero(v, c, (j - 1) as nat);
    }
}

/// The iterated quotients of a 16-bit value, written out, with their
/// ranges: four base-16 digits exhaust it.
proof fn lemma_dropped_chain(x: int)
    requires
        0 <= x < 0x10000,
    ensures
        dropped(x, 1) == x / 16,
        dropped(x, 2) == x / 16 / 16,
        dropped(x, 3) == x / 16 / 16 / 16,
        0 <= dropped(x, 1) < 0x1000,
        0 <= dropped(x, 2) < 0x100,
        0 <= dropped(x, 3) < 0x10,
{
    assert(dropped(x, 0) == x);
    vstd::arithmetic::div_mod::lemma_multiply_divide_lt(x, 16, 0x1000);
    vstd::arithmetic::div_mod::lemma_div_pos_is_pos(x, 16);
    vstd::arithmetic::div_mod::lemma_multiply_divide_lt(x / 16, 16, 0x100);
    vstd::arithmetic::div_mod::lemma_div_pos_is_pos(x / 16, 16);
    vstd::arithmetic::div_mod::lemma_multiply_divide_lt(x / 16 / 16, 16, 0x10);
    vstd::arithmetic::div_mod::lemma_div_pos_is_pos(x / 16 / 16, 16);
}

/// Produces the 4 hex digit characters of `address`, least-significant
/// digit first; a value needing fewer than 4 digits leaves the remaining
/// positions at the fill character `'0'`.
pub fn format_hex(address: u16) -> (buffer: [char; 4])
    ensures
        buffer@ == spec_format_hex(address),
{
    let mut buffer: [char; 4] = ['0', '0', '0', '0'];
    let mut remaining: u16 = address;
    let mut counter: usize = 0;
    while remaining != 0
        invariant
            counter <= 4,
            counter == 4 ==> remaining == 0,
            remaining == dropped(address as int, counter as nat),
            forall|j: int|
                0 <= j < counter ==> buffer@[j] == hex_char(nibble(address as int, j as nat)),
            forall|j: int| counter <= j < 4 ==> buffer@[j] == '0',
        decreases remaining,
    {
        let remainder: u16 = remaining % 16;
        // 48 is '0'; 55 is 'A' - 10, so digits ten and up land on 'A'-'F'.
        let digit: char = if remainder < 10 {
            (48 + remainder as u8) as char
        } else {
            (55 + remainder as u8) as char
        };
        proof {
            assert(remainder == nibble(address as int, counter as nat));
            assert(digit == hex_char(remainder as int));
            lemma_dropped_chain(address as int);
            if counter == 3 {
                vstd::arithmetic::div_mod::lemma_basic_div(remaining as int, 16);
            }
        }
        buffer[counter] = digit;
        remaining = remaining / 16;
        counter = counter + 1;
    }
    proof {
        assert forall|j: int| counter <= j < 4 implies #[trigger] nibble(
            address as int,
            j as nat,
        ) == 0 by {
            lemma_dropped_stays_zero(address as int, counter as nat, j as nat);
        }
        assert(buffer@ =~= spec_format_hex(address));
    }
    buffer
}

/// Reversal then decoding recovers the address: the four characters of
/// `spec_format_hex(v)`, read in reverse construction order, are the
/// canonical zero-padded uppercase base-16 text of `v`.
pub proof fn lemma_format_hex_round_trip(v: u16)
    ensures
        spec_format_hex(v).len() == 4,
        forall|j: int| 0 <= j < 4 ==> is_hex_digit(#[trigger] spec_format_hex(v)[j]),
        4096 * hex_value(spec_format_hex(v).reverse()[0]) + 256 * hex_value(
            spec_format_hex(v).reverse()[1],
        ) + 16 * hex_value(spec_format_hex(v).reverse()[2]) + hex_value(
            spec_format_hex(v).reverse()[3],
        ) == v,
{
    let x = v as int;
    lemma_dropped_chain(x);
    vstd::arithmetic::div_mod::lemma_fundamental_div_mod(x, 16);
    vstd::arithmetic::div_mod::lemma_fundamental_div_mod(x / 16, 16);
    vstd::arithmetic::div_mod::lemma_fundamental_div_mod(x / 16 / 16, 16);
    vstd::arithmetic::div_mod::lemma_mod_division_less_than_divisor(x, 16);
    vstd::arithmetic::div_mod::lemma_mod_division_less_than_divisor(x / 16, 16);
    vstd::arithmetic::div_mod::lemma_mod_division_less_than_divisor(x / 16 / 16, 16);
    vstd::arithmetic::div_mod::lemma_small_mod((x / 16 / 16 / 16) as nat, 16);
    assert(nibble(x, 0) == x % 16);
    assert(nibble(x, 1) == x / 16 % 16);
    assert(nibble(x, 2) == x / 16 / 16 % 16);
    assert(nibble(x, 3) == x / 16 / 16 / 16);
    lemma_hex_value_inverts(nibble(x, 0));
    lemma_hex_value_inverts(nibble(x, 1));
    lemma_hex_value_inverts(nibble(x, 2));
    lemma_hex_value_inverts(nibble(x, 3));
    assert(x == 4096 * nibble(x, 3) + 256 * nibble(x, 2) + 16 * nibble(x, 1) + nibble(x, 0));
}

/// The digit character of a base-16 digit decodes to that digit.
proof fn lemma_hex_value_inverts(d: int)
    requires
        0 <= d < 16,
    ensures
        hex_value(hex_char(d)) == d,
        is_hex_digit(hex_char(d)),
{
}

/// The character for one sampled bus line.
pub open spec fn bit_char(high: bool) -> char {
    if high {
        '1'
    } else {
        '0'
    }
}

/// The full report line for one stable bus state: the 16 line states in
/// sampling order as `'0'`/`'1'`, a space, the hex digits of the address in
/// reverse construction order, and a newline.
pub open spec fn spec_report_line(lines: Seq<bool>) -> Seq<char> {
    Seq::new(16, |i: int| bit_char(lines[i])) + seq![' '] + spec_format_hex(
        bus_value(lines) as u16,
    ).reverse() + seq!['\n']
}

/// Samples the bus and renders the report line of one cycle.
pub fn render_line(pins: &[bool; 16]) -> (line: Vec<char>)
    ensures
        line@ == spec_report_line(pins@),
{
    let mut line: Vec<char> = Vec::new();
    let mut i: usize = 0;
    while i < 16
        invariant
            i <= 16,
            line@.len() == i,
            forall|j: int| 0 <= j < i ==> line@[j] == bit_char(pins@[j]),
        decreases 16 - i,
    {
        line.push(if pins[i] {
            '1'
        } else {
            '0'
        });
        i = i + 1;
    }
    line.push(' ');
    let address = sample(pins);
    let buffer = format_hex(address);
    let mut k: usize = 0;
    while k < 4
        invariant
            k <= 4,
            line@.len() == 17 + k,
            address == bus_value(pins@),
            buffer@ == spec_format_hex(address),
            forall|j: int| 0 <= j < 16 ==> line@[j] == bit_char(pins@[j]),
            line@[16] == ' ',
            forall|j: int| 17 <= j < 17 + k ==> #[trigger] line@[j] == buffer@[3 - (j - 17)],
        decreases 4 - k,
    {
        line.push(buffer[3 - k]);
        k = k + 1;
    }
    line.push('\n');
    proof {
        let hex = spec_format_hex(bus_value(pins@) as u16);
        let s = spec_report_line(pins@);
        assert(bus_value(pins@) as u16 == address);
        assert(s.len() == 22);
        assert forall|j: int| 0 <= j < 22 implies line@[j] == s[j] by {
            if 17 <= j < 21 {
                assert(hex.reverse()[j - 17] == hex[3 - (j - 17)]);
            }
        }
        assert(line@ =~= s);
    }
    line
}

} // verus!
