//! Policies of the periodic tasks: blink cadence, PWM level stepping, duty
//! computation and the frequency command read from the debug channel.
use vstd::prelude::*;
use crate::debounce::{DebounceFilter, Edge, filter_step};

verus! {

/// Largest blink step count; the count cycles through `1..=MAX_STEP`.
pub const MAX_STEP: u8 = 10;

/// Number of entries in the PWM level table.
pub const PWM_LEVEL_COUNT: usize = 8;

/// Duty percentages of the PWM levels, in increasing order.
pub open spec fn pwm_percent(i: int) -> u16 {
    if i == 0 {
        0
    } else if i == 1 {
        5
    } else if i == 2 {
        10
    } else if i == 3 {
        15
    } else if i == 4 {
        25
    } else if i == 5 {
        40
    } else if i == 6 {
        65
    } else {
        100
    }
}

/// Direction in which a button event moves the PWM level.
#[derive(Clone, Copy, Debug, PartialEq, Eq, Structural)]
pub enum Direction {
    Down,
    Up,
}

/// The step count that follows `step` on a button edge.
pub open spec fn step_after(step: int) -> int {
    step % (MAX_STEP as int) + 1
}

/// `step` advanced `n` times.
pub open spec fn step_iterate(step: int, n: nat) -> int
    decreases n,
{
    if n == 0 {
        step
    } else {
        step_iterate(step_after(step), (n - 1) as nat)
    }
}

/// The step count after a button edge: `1..=10`, wrapping from 10 to 1.
pub fn next_step(step: u8) -> (r: u8)
    requires
        1 <= step <= MAX_STEP,
    ensures
        r == step_after(step as int),
        1 <= r <= MAX_STEP,
{
    step % MAX_STEP + 1
}

/// Blink period for a step count: `step * base_period` ticks.
pub fn blink_period(step: u8, base_period: u32) -> (r: u32)
    requires
        1 <= step <= MAX_STEP,
        step as int * base_period as int <= u32::MAX,
    ensures
        r == step as int * base_period as int,
{
    step as u32 * base_period
}

proof fn lemma_step_iterate(step: int, n: nat)
    requires
        1 <= step <= MAX_STEP,
    ensures
        step_iterate(step, n) == (step - 1 + n) % (MAX_STEP as int) + 1,
    decreases n,
{
    if n > 0 {
        lemma_step_iterate(step_after(step), (n - 1) as nat);
    }
}

/// Advancing the step count ten times from any valid count returns to it.
pub proof fn lemma_step_cycle(step: int)
    requires
        1 <= step <= MAX_STEP,
    ensures
        1 <= step_after(step) <= MAX_STEP,
        step_iterate(step, MAX_STEP as nat) == step,
{
    lemma_step_iterate(step, MAX_STEP as nat);
}

/// The PWM level index after one move in `dir`, cyclic over the table.
pub open spec fn level_after(level: int, dir: Direction) -> int {
    match dir {
        Direction::Up => (level + 1) % (PWM_LEVEL_COUNT as int),
        Direction::Down => if level == 0 {
            PWM_LEVEL_COUNT as int - 1
        } else {
            level - 1
        },
    }
}

/// `level` moved `n` times in `dir`.
pub open spec fn level_iterate(level: int, dir: Direction, n: nat) -> int
    decreases n,
{
    if n == 0 {
        level
    } else {
        level_iterate(level_after(level, dir), dir, (n - 1) as nat)
    }
}

/// The PWM level index after one move in `dir`.
pub fn rotate_level(level: usize, dir: Direction) -> (r: usize)
    requires
        level < PWM_LEVEL_COUNT,
    ensures
        r == level_after(level as int, dir),
        r < PWM_LEVEL_COUNT,
{
    match dir {
        Direction::Up => (level + 1) % PWM_LEVEL_COUNT,
        Direction::Down => {
            if level == 0 {
                PWM_LEVEL_COUNT - 1
            } else {
                level - 1
            }
        },
    }
}

/// Moving up as many times as the table has entries returns to the start, in
/// either direction; moving down from the first entry wraps to the last.
pub proof fn lemma_level_cycle(level: int)
    requires
        0 <= level < PWM_LEVEL_COUNT,
    ensures
        level_iterate(level, Direction::Up, PWM_LEVEL_COUNT as nat) == level,
        level_iterate(level, Direction::Down, PWM_LEVEL_COUNT as nat) == level,
        level_after(0, Direction::Down) == PWM_LEVEL_COUNT - 1,
{
    reveal_with_fuel(level_iterate, 9);
}

/// Duty percentage of PWM level `level`.
pub fn level_percent(level: usize) -> (r: u16)
    requires
        level < PWM_LEVEL_COUNT,
    ensures
        r == pwm_percent(level as int),
{
    let table: [u16; 8] = [0, 5, 10, 15, 25, 40, 65, 100];
    table[level]
}

/// Duty value for PWM level `level`: `max_duty * percent / 100`, rounded down.
pub fn level_duty(max_duty: u16, level: usize) -> (r: u16)
    requires
        level < PWM_LEVEL_COUNT,
    ensures
        r == max_duty as int * pwm_percent(level as int) as int / 100,
        r <= max_duty,
{
    let pct = level_percent(level);
    let prod: u32 = max_duty as u32 * pct as u32;
    proof {
        assert(pct <= 100);
        assert(prod <= max_duty as int * 100) by (nonlinear_arith)
            requires
                prod == max_duty as int * pct as int,
                pct <= 100,
        ;
    }
    (prod / 100) as u16
}

/// What one line read from the debug channel asks for.
#[derive(Clone, Copy, Debug, PartialEq, Eq, Structural)]
pub enum LineCommand {
    /// Nothing but a terminator, or nothing at all, was read.
    Empty,
    /// A valid number: the new PWM frequency in Hz.
    SetFrequency(u32),
    /// The first character that is not a decimal digit.
    InvalidChar(u8),
    /// All digits, but the number does not fit in 32 bits.
    OutOfRange,
}

pub open spec fn is_digit(c: u8) -> bool {
    0x30 <= c <= 0x39
}

/// The number that the decimal digits `s` spell.
pub open spec fn decimal_value(s: Seq<u8>) -> nat
    decreases s.len(),
{
    if s.len() == 0 {
        0
    } else {
        decimal_value(s.drop_last()) * 10 + (s.last() - 0x30) as nat
    }
}

/// Index of the first byte of `s` that is not a digit, or `s.len()`.
pub open spec fn first_non_digit(s: Seq<u8>) -> int
    decreases s.len(),
{
    if s.len() == 0 {
        0
    } else if !is_digit(s[0]) {
        0
    } else {
        1 + first_non_digit(s.drop_first())
    }
}

/// The command that a line means: its last byte is the terminator, the bytes
/// before it must all be digits.
pub open spec fn line_command(line: Seq<u8>) -> LineCommand {
    if line.len() <= 1 {
        LineCommand::Empty
    } else {
        let body = line.drop_last();
        let k = first_non_digit(body);
        if k < body.len() {
            LineCommand::InvalidChar(body[k])
        } else if decimal_value(body) <= u32::MAX {
            LineCommand::SetFrequency(decimal_value(body) as u32)
        } else {
            LineCommand::OutOfRange
        }
    }
}

proof fn lemma_first_non_digit(s: Seq<u8>, i: int)
    requires
        0 <= i <= s.len(),
        forall|j: int| 0 <= j < i ==> is_digit(#[trigger] s[j]),
        i < s.len() ==> !is_digit(s[i]),
    ensures
        first_non_digit(s) == i,
    decreases s.len(),
{
    if s.len() > 0 && i > 0 {
        let t = s.drop_first();
        assert forall|j: int| 0 <= j < i - 1 implies is_digit(#[trigger] t[j]) by {
            assert(t[j] == s[j + 1]);
        }
        lemma_first_non_digit(t, i - 1);
    }
}

/// Reads a command line: the last byte is the terminator; the bytes before it
/// must be decimal digits spelling a number that fits in 32 bits.
pub fn parse_command(line: &[u8]) -> (r: LineCommand)
    ensures
        r == line_command(line@),
{
    let n = line.len();
    if n <= 1 {
        return LineCommand::Empty;
    }
    let ghost body = line@.drop_last();
    let mut value: u32 = 0;
    let mut overflow = false;
    let mut i: usize = 0;
    while i < n - 1
        invariant
            n == line@.len(),
            n > 1,
            body == line@.drop_last(),
            0 <= i <= n - 1,
            forall|j: int| 0 <= j < i ==> is_digit(#[trigger] body[j]),
            !overflow ==> value == decimal_value(body.subrange(0, i as int)),
            overflow ==> decimal_value(body.subrange(0, i as int)) > u32::MAX,
        decreases n - 1 - i,
    {
        let c = line[i];
        if !(0x30 <= c && c <= 0x39) {
            proof {
                lemma_first_non_digit(body, i as int);
            }
            return LineCommand::InvalidChar(c);
        }
        let ghost pre = body.subrange(0, i as int);
        let ghost next = body.subrange(0, i + 1);
        proof {
            assert(next.drop_last() == pre);
        }
        if !overflow {
            let d = (c - 0x30) as u32;
            if value > (u32::MAX - d) / 10 {
                overflow = true;
                proof {
                    assert(decimal_value(next) == value * 10 + d);
                    assert(value * 10 + d > u32::MAX) by (nonlinear_arith)
                        requires
                            value > (u32::MAX - d) / 10,
                            d <= 9,
                    ;
                }
            } else {
                proof {
                    assert(value * 10 + d <= u32::MAX) by (nonlinear_arith)
                        requires
                            value <= (u32::MAX - d) / 10,
                            d <= 9,
                    ;
                }
                value = value * 10 + d;
            }
        } else {
            proof {
                assert(decimal_value(next) >= decimal_value(pre) * 10) by (nonlinear_arith)
                    requires
                        decimal_value(next) == decimal_value(pre) * 10 + (body[i as int] - 0x30) as nat,
                ;
            }
        }
        i += 1;
    }
    proof {
        assert(body.subrange(0, (n - 1) as int) == body);
        lemma_first_non_digit(body, body.len() as int);
    }
    if overflow {
        LineCommand::OutOfRange
    } else {
        LineCommand::SetFrequency(value)
    }
}

/// One button poll: feeds the sample (pressed or not) to the filter; a
/// debounced press advances the blink step count and moves the PWM level up.
pub fn poll_button(filter: &mut DebounceFilter, step: &mut u8, pressed: bool) -> (r: Option<
    Direction,
>)
    requires
        old(filter).wf(),
        1 <= *old(step) <= MAX_STEP,
    ensures
        final(filter).wf(),
        final(filter)@ == filter_step(old(filter)@, pressed).0,
        1 <= *final(step) <= MAX_STEP,
        filter_step(old(filter)@, pressed).1 == Some(Edge::Rising) ==> {
            &&& r == Some(Direction::Up)
            &&& *final(step) == step_after(*old(step) as int)
        },
        filter_step(old(filter)@, pressed).1 != Some(Edge::Rising) ==> {
            &&& r is None
            &&& *final(step) == *old(step)
        },
{
    match filter.update(pressed) {
        Some(Edge::Rising) => {
            *step = next_step(*step);
            Some(Direction::Up)
        },
        _ => None,
    }
}

/// Moves the PWM level one step in `dir` and gives the new level with the
/// duty value it stands for out of `max_duty`.
pub fn update_led_pwm(level: usize, dir: Direction, max_duty: u16) -> (r: (usize, u16))
    requires
        level < PWM_LEVEL_COUNT,
    ensures
        r.0 == level_after(level as int, dir),
        r.1 == max_duty as int * pwm_percent(r.0 as int) as int / 100,
{
    let next = rotate_level(level, dir);
    (next, level_duty(max_duty, next))
}

/// The PWM frequency that a line read from the debug channel sets, if any.
pub fn read_input(line: &[u8]) -> (r: Option<u32>)
    ensures
        r == (match line_command(line@) {
            LineCommand::SetFrequency(f) => Some(f),
            _ => None,
        }),
{
    match parse_command(line) {
        LineCommand::SetFrequency(f) => Some(f),
        _ => None,
    }
}

} // verus!
