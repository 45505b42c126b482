use vstd::prelude::*;

verus! {

/// An abstract key event, as handed in by the surrounding terminal layer.
#[derive(Debug, Clone, Copy, PartialEq, Eq)]
pub enum Key {
    Esc,
    Enter,
    Backspace,
    Tab,
    Left,
    Right,
    Up,
    Down,
    Home,
    End,
    Char(char),
}

/// The interpretation context: Normal turns keys into commands, Insert turns
/// them into literal text entry.
#[derive(Debug, Clone, Copy, PartialEq, Eq)]
pub enum Mode {
    Normal,
    Insert,
}

/// A buffer-mutating verb, applied over the range swept by a motion.
#[derive(Debug, Clone, Copy, PartialEq, Eq)]
pub enum Operator {
    Delete,
    Yank,
}

/// A cursor-repositioning primitive.
#[derive(Debug, Clone, Copy, PartialEq, Eq)]
pub enum Motion {
    Up,
    Down,
    Left,
    Right,
    Start,
    End,
    Word,
}

/// A fully resolved unit of work handed to the editor core. This is the sole
/// contract between key interpretation and buffer mutation.
#[derive(Debug, Clone, Copy, PartialEq, Eq)]
pub enum Event {
    Quit,
    ChangeMode(Mode),
    Write(char),
    BackSpace,
    Enter,
    Motion { op: Option<Operator>, mult: u8, motion: Option<Motion> },
    WindowResize(u16, u16),
}

/// Which motion, if any, a key names in Normal mode.
pub open spec fn spec_parse_motion(key: Key) -> Option<Motion> {
    match key {
        Key::Up => Some(Motion::Up),
        Key::Down => Some(Motion::Down),
        Key::Left => Some(Motion::Left),
        Key::Right => Some(Motion::Right),
        Key::Home => Some(Motion::Start),
        Key::End => Some(Motion::End),
        Key::Char(c) => if c == 'w' { Some(Motion::Word) } else { None },
        _ => None,
    }
}

/// Which operator, if any, a key names in Normal mode.
pub open spec fn spec_parse_operator(key: Key) -> Option<Operator> {
    match key {
        Key::Char(c) => {
            if c == 'd' {
                Some(Operator::Delete)
            } else if c == 'y' {
                Some(Operator::Yank)
            } else {
                None
            }
        },
        _ => None,
    }
}

/// The repeat count named by a digit key `1`–`9`, if any.
pub open spec fn spec_digit(key: Key) -> Option<u8> {
    match key {
        Key::Char('1') => Some(1),
        Key::Char('2') => Some(2),
        Key::Char('3') => Some(3),
        Key::Char('4') => Some(4),
        Key::Char('5') => Some(5),
        Key::Char('6') => Some(6),
        Key::Char('7') => Some(7),
        Key::Char('8') => Some(8),
        Key::Char('9') => Some(9),
        _ => None,
    }
}

impl Motion {
    pub fn parse(key: Key) -> (r: Option<Motion>)
        ensures
            r == spec_parse_motion(key),
    {
        match key {
            Key::Up => Some(Motion::Up),
            Key::Down => Some(Motion::Down),
            Key::Left => Some(Motion::Left),
            Key::Right => Some(Motion::Right),
            Key::Home => Some(Motion::Start),
            Key::End => Some(Motion::End),
            Key::Char(c) => if c == 'w' { Some(Motion::Word) } else { None },
            _ => None,
        }
    }
}

impl Operator {
    pub fn parse(key: Key) -> (r: Option<Operator>)
        ensures
            r == spec_parse_operator(key),
    {
        match key {
            Key::Char(c) => {
                if c == 'd' {
                    Some(Operator::Delete)
                } else if c == 'y' {
                    Some(Operator::Yank)
                } else {
                    None
                }
            },
            _ => None,
        }
    }
}

/// Insert-mode interpretation is stateless: one key maps to at most one event.
pub open spec fn spec_insert_step(key: Key) -> Option<Event> {
    match key {
        Key::Esc => Some(Event::ChangeMode(Mode::Normal)),
        Key::Char(c) => Some(Event::Write(c)),
        Key::Tab => Some(Event::Write('\t')),
        Key::Backspace => Some(Event::BackSpace),
        Key::Enter => Some(Event::Enter),
        _ => None,
    }
}

/// Normal-mode interpretation: one key steps the pending command state
/// (optional operator, repeat count) and emits at most one event.
///
/// The grammar is `[operator] [count] motion`. In priority order: the quit key
/// always resolves to `Quit` and discards pending state; with no operator
/// pending, a motion key resolves at once, the insert key switches mode, an
/// operator key becomes pending; with an operator pending, the cancel key
/// discards the pending state, a digit `1`–`9` sets the repeat count, a motion
/// key resolves the command, and any other key cancels it. The repeat count is
/// reset to one whenever an event is emitted or a pending command is cancelled.
pub open spec fn spec_normal_step(key: Key, op: Option<Operator>, mult: u8) -> (Option<Event>, Option<
    Operator,
>, u8) {
    if key == Key::Char('q') {
        (Some(Event::Quit), None, 1u8)
    } else {
        match op {
            None => {
                if spec_parse_motion(key) is Some {
                    (
                        Some(Event::Motion { op: None, mult, motion: spec_parse_motion(key) }),
                        None,
                        1u8,
                    )
                } else if key == Key::Char('i') {
                    (Some(Event::ChangeMode(Mode::Insert)), None, 1u8)
                } else if spec_parse_operator(key) is Some {
                    (None, spec_parse_operator(key), mult)
                } else {
                    (None, None, mult)
                }
            },
            Some(o) => {
                if key == Key::Esc {
                    (None, None, 1u8)
                } else if spec_digit(key) is Some {
                    (None, Some(o), spec_digit(key).unwrap())
                } else if spec_parse_motion(key) is Some {
                    (
                        Some(
                            Event::Motion { op: Some(o), mult, motion: spec_parse_motion(key) },
                        ),
                        None,
                        1u8,
                    )
                } else {
                    (None, None, 1u8)
                }
            },
        }
    }
}

/// Translate one key received in Insert mode.
pub fn handle_input_event_insert(key: Key) -> (r: Option<Event>)
    ensures
        r == spec_insert_step(key),
{
    match key {
        Key::Esc => Some(Event::ChangeMode(Mode::Normal)),
        Key::Char(c) => Some(Event::Write(c)),
        Key::Tab => Some(Event::Write('\t')),
        Key::Backspace => Some(Event::BackSpace),
        Key::Enter => Some(Event::Enter),
        _ => None,
    }
}

/// Translate one key received in Normal mode, stepping the pending operator
/// and repeat count in place.
pub fn handle_input_event_normal(key: Key, op: &mut Option<Operator>, mult: &mut u8) -> (r: Option<
    Event,
>)
    ensures
        (r, *final(op), *final(mult)) == spec_normal_step(key, *old(op), *old(mult)),
{
    if matches!(key, Key::Char('q')) {
        *op = None;
        *mult = 1;
        return Some(Event::Quit);
    }

    let pending = *op;
    match pending {
        None => {
            if let Some(motion) = Motion::parse(key) {
                let m = *mult;
                *mult = 1;
                return Some(Event::Motion { op: None, mult: m, motion: Some(motion) });
            }

            if matches!(key, Key::Char('i')) {
                *mult = 1;
                return Some(Event::ChangeMode(Mode::Insert));
            }

            if let Some(o) = Operator::parse(key) {
                *op = Some(o);
                return None;
            }

            None
        },
        Some(o) => {
            if matches!(key, Key::Esc) {
                *op = None;
                *mult = 1;
                return None;
            }

            if let Some(d) = parse_digit(key) {
                *mult = d;
                return None;
            }

            if let Some(motion) = Motion::parse(key) {
                let m = *mult;
                *op = None;
                *mult = 1;
                return Some(Event::Motion { op: Some(o), mult: m, motion: Some(motion) });
            }

            *op = None;
            *mult = 1;
            None
        },
    }
}

fn parse_digit(key: Key) -> (r: Option<u8>)
    ensures
        r == spec_digit(key),
{
    match key {
        Key::Char('1') => Some(1),
        Key::Char('2') => Some(2),
        Key::Char('3') => Some(3),
        Key::Char('4') => Some(4),
        Key::Char('5') => Some(5),
        Key::Char('6') => Some(6),
        Key::Char('7') => Some(7),
        Key::Char('8') => Some(8),
        Key::Char('9') => Some(9),
        _ => None,
    }
}

/// With an operator pending, a digit followed by the cancel key clears the
/// pending state completely: no event is emitted at any of the three steps,
/// and afterwards every key is interpreted exactly as if no operator or count
/// had ever been entered.
pub proof fn lemma_cancel_clears_pending(k_op: Key, k_digit: Key)
    requires
        spec_parse_operator(k_op) is Some,
        spec_digit(k_digit) is Some,
    ensures
        ({
            let s1 = spec_normal_step(k_op, None, 1);
            let s2 = spec_normal_step(k_digit, s1.1, s1.2);
            let s3 = spec_normal_step(Key::Esc, s2.1, s2.2);
            s1.0 is None && s2.0 is None && s3.0 is None && s3.1 is None && s3.2 == 1
                && forall|k: Key| #[trigger]
                spec_normal_step(k, s3.1, s3.2) == spec_normal_step(k, None, 1u8)
        }),
{
}

} // verus!
