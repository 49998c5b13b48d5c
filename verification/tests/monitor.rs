use bus_monitor::device::poll;
use bus_monitor::latch::EdgeLatch;
use bus_monitor::reporter::{format_hex, render_line};
use bus_monitor::sampler::sample;

fn line_text(line: &[char]) -> String {
    line.iter().collect()
}

fn reversed_text(buffer: &[char; 4]) -> String {
    buffer.iter().rev().collect()
}

#[test]
fn format_hex_zero_pads() {
    let buffer = format_hex(0);
    assert_eq!(buffer, ['0', '0', '0', '0']);
    assert_eq!(reversed_text(&buffer), "0000");
}

#[test]
fn format_hex_one() {
    let buffer = format_hex(1);
    assert_eq!(buffer, ['1', '0', '0', '0']);
    assert_eq!(reversed_text(&buffer), "0001");
}

#[test]
fn format_hex_all_digits_high() {
    let buffer = format_hex(0xFFFF);
    assert_eq!(buffer, ['F', 'F', 'F', 'F']);
    assert_eq!(reversed_text(&buffer), "FFFF");
}

#[test]
fn format_hex_two_digit_value() {
    let buffer = format_hex(0x2A);
    assert_eq!(buffer, ['A', '2', '0', '0']);
    assert_eq!(reversed_text(&buffer), "002A");
}

#[test]
fn format_hex_uses_letters_from_ten() {
    assert_eq!(reversed_text(&format_hex(0xABCD)), "ABCD");
    assert_eq!(reversed_text(&format_hex(10)), "000A");
}

#[test]
fn sample_all_low_and_all_high() {
    assert_eq!(sample(&[false; 16]), 0);
    assert_eq!(sample(&[true; 16]), 0xFFFF);
}

#[test]
fn sample_index_zero_is_most_significant() {
    let mut pins = [false; 16];
    pins[0] = true;
    assert_eq!(sample(&pins), 0x8000);
    let mut pins = [false; 16];
    pins[15] = true;
    assert_eq!(sample(&pins), 1);
}

#[test]
fn sample_bit_matches_each_pin() {
    let mut pins = [false; 16];
    for i in [0usize, 3, 4, 9, 15] {
        pins[i] = true;
    }
    let address = sample(&pins);
    for i in 0..16 {
        let bit = (address >> (15 - i)) & 1 == 1;
        assert_eq!(bit, pins[i]);
    }
}

#[test]
fn latch_starts_clear() {
    let mut latch = EdgeLatch::new();
    assert!(!latch.take());
}

#[test]
fn burst_of_edges_coalesces_to_one() {
    let mut latch = EdgeLatch::new();
    latch.signal();
    latch.signal();
    latch.signal();
    assert!(latch.take());
    assert!(!latch.take());
}

#[test]
fn take_reports_an_edge_once() {
    let mut latch = EdgeLatch::new();
    latch.signal();
    assert!(latch.take());
    assert!(!latch.take());
    latch.signal();
    assert!(latch.take());
}

#[test]
fn strobed_bus_emits_one_line() {
    let mut pins = [false; 16];
    pins[0] = true;
    pins[15] = true;
    assert_eq!(sample(&pins), 32769);
    let mut latch = EdgeLatch::new();
    latch.signal();
    let emitted = poll(&mut latch, &pins);
    let line = emitted.expect("a pending edge must produce a line");
    assert_eq!(line_text(&line), "1000000000000001 8001\n");
    assert!(poll(&mut latch, &pins).is_none());
}

#[test]
fn idle_loop_emits_nothing() {
    let pins = [true; 16];
    let mut latch = EdgeLatch::new();
    assert!(poll(&mut latch, &pins).is_none());
    assert!(poll(&mut latch, &pins).is_none());
}

#[test]
fn render_line_shows_bits_space_hex_newline() {
    let mut pins = [false; 16];
    pins[10] = true;
    pins[14] = true;
    // bits 5 and 1 of the address: 0x0022.
    let line = render_line(&pins);
    assert_eq!(line.len(), 22);
    assert_eq!(line_text(&line), "0000000000100010 0022\n");
}
