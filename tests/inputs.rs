use pwm_remote::debounce::{DebounceFilter, Edge};
use pwm_remote::tasks::{
    blink_period, level_duty, level_percent, next_step, parse_command, poll_button, read_input,
    rotate_level, update_led_pwm, Direction,
    LineCommand,
};

fn feed(f: &mut DebounceFilter, samples: &[bool]) -> Vec<Option<Edge>> {
    samples.iter().map(|s| f.update(*s)).collect()
}

#[test]
fn debounce_rising_after_six_high_samples() {
    let mut f = DebounceFilter::new();
    let out = feed(&mut f, &[true; 6]);
    assert_eq!(out[..5], [None; 5]);
    assert_eq!(out[5], Some(Edge::Rising));
    assert!(f.is_high());
    assert_eq!(f.update(true), None);
}

#[test]
fn debounce_no_edge_before_history_fills() {
    let mut f = DebounceFilter::new();
    let out = feed(&mut f, &[true, true, true, true, true, false, false, false]);
    assert!(out.iter().all(|e| e.is_none()));
}

#[test]
fn debounce_glitch_gives_no_second_rising() {
    let mut f = DebounceFilter::new();
    let mut samples = vec![true; 6];
    samples.push(false);
    samples.extend([true; 6]);
    let out = feed(&mut f, &samples);
    let rising = out.iter().filter(|e| **e == Some(Edge::Rising)).count();
    assert_eq!(rising, 1);
    assert_eq!(out[5], Some(Edge::Rising));
}

#[test]
fn debounce_falling_after_six_low_samples() {
    let mut f = DebounceFilter::new();
    feed(&mut f, &[true; 6]);
    let out = feed(&mut f, &[false; 6]);
    assert_eq!(out[..5], [None; 5]);
    assert_eq!(out[5], Some(Edge::Falling));
    assert!(!f.is_high());
}

#[test]
fn debounce_noise_gives_nothing() {
    let mut f = DebounceFilter::new();
    let out = feed(&mut f, &[true, false, true, true, false, true, true, true, false, true]);
    assert!(out.iter().all(|e| e.is_none()));
}

#[test]
fn step_count_cycles() {
    assert_eq!(next_step(1), 2);
    assert_eq!(next_step(9), 10);
    assert_eq!(next_step(10), 1);
    for start in 1..=10u8 {
        let mut s = start;
        for _ in 0..10 {
            s = next_step(s);
        }
        assert_eq!(s, start);
    }
}

#[test]
fn blink_period_scales_with_step() {
    assert_eq!(blink_period(3, 72_000_000 / 10), 21_600_000);
}

#[test]
fn pwm_level_wraps_both_ways() {
    assert_eq!(rotate_level(0, Direction::Down), 7);
    assert_eq!(rotate_level(7, Direction::Up), 0);
    for start in 0..8usize {
        let mut l = start;
        for _ in 0..8 {
            l = rotate_level(l, Direction::Up);
        }
        assert_eq!(l, start);
    }
}

#[test]
fn pwm_duty_from_table() {
    assert_eq!(level_percent(4), 25);
    assert_eq!(level_duty(1000, 7), 1000);
    assert_eq!(level_duty(999, 1), 49);
    assert_eq!(level_duty(65535, 6), 42597);
    assert_eq!(level_duty(500, 0), 0);
}

#[test]
fn command_line_sets_frequency() {
    assert_eq!(parse_command(b"42\r"), LineCommand::SetFrequency(42));
    assert_eq!(parse_command(b"0\r"), LineCommand::SetFrequency(0));
}

#[test]
fn command_line_rejects_non_digit() {
    assert_eq!(parse_command(b"4a2\r"), LineCommand::InvalidChar(b'a'));
    assert_eq!(parse_command(b"-5\r"), LineCommand::InvalidChar(b'-'));
}

#[test]
fn command_line_empty_and_too_large() {
    assert_eq!(parse_command(b"\r"), LineCommand::Empty);
    assert_eq!(parse_command(b""), LineCommand::Empty);
    assert_eq!(parse_command(b"4294967295\r"), LineCommand::SetFrequency(4294967295));
    assert_eq!(parse_command(b"4294967296\r"), LineCommand::OutOfRange);
}

#[test]
fn poll_button_moves_level_up_on_press() {
    let mut f = DebounceFilter::new();
    let mut step = 3u8;
    let out: Vec<Option<Direction>> = (0..6).map(|_| poll_button(&mut f, &mut step, true)).collect();
    assert_eq!(out[..5], [None; 5]);
    assert_eq!(out[5], Some(Direction::Up));
    assert_eq!(step, 4);
    assert_eq!(poll_button(&mut f, &mut step, true), None);
    assert_eq!(step, 4);
}

#[test]
fn poll_button_step_wraps_after_ten() {
    let mut f = DebounceFilter::new();
    let mut step = 10u8;
    for _ in 0..5 {
        assert_eq!(poll_button(&mut f, &mut step, true), None);
        assert_eq!(step, 10);
    }
    assert_eq!(poll_button(&mut f, &mut step, true), Some(Direction::Up));
    assert_eq!(step, 1);
}

#[test]
fn poll_button_ten_presses_return_step() {
    let mut f = DebounceFilter::new();
    let mut step = 7u8;
    let mut presses = 0;
    while presses < 10 {
        for _ in 0..6 {
            if poll_button(&mut f, &mut step, true).is_some() {
                presses += 1;
                if presses < 10 {
                    assert_ne!(step, 7);
                }
            }
        }
        for _ in 0..6 {
            assert_eq!(poll_button(&mut f, &mut step, false), None);
        }
    }
    assert_eq!(step, 7);
}

#[test]
fn update_led_pwm_gives_level_and_duty() {
    assert_eq!(update_led_pwm(0, Direction::Up, 1000), (1, 50));
    assert_eq!(update_led_pwm(0, Direction::Down, 1000), (7, 1000));
    assert_eq!(update_led_pwm(7, Direction::Up, 1000), (0, 0));
}

#[test]
fn read_input_applies_only_valid_numbers() {
    assert_eq!(read_input(b"42\r"), Some(42));
    assert_eq!(read_input(b"4a2\r"), None);
    assert_eq!(read_input(b"\r"), None);
}
