//! Action strings: `+40`, `-10`, `+5%`, `-5%`.
//!
//! The first character of an action is the operator; the rest is a number,
//! with a trailing `%` marking a percentage. These functions read the number
//! and turn an action into the brightness write it asks for, against an
//! [`Interface`] handle.

use vstd::prelude::*;
use crate::decimal::{
    parse_i32_range, spec_parse_i32_exact, spec_parse_i8_exact, spec_render_i32,
};
use crate::error::Error;
use crate::interface::Interface;
use crate::percentage::{spec_value_from_percentage, to_value};

verus! {

/// Why an action's number part did not yield a plain number.
#[derive(Clone, Copy, Debug, PartialEq, Eq, Structural)]
pub enum ParseError {
    IsPercentage,
    IsInvalid,
}

/// The action with its leading operator character removed.
pub open spec fn spec_number_part(s: Seq<char>) -> Seq<char> {
    if s.len() > 0 {
        s.drop_first()
    } else {
        s
    }
}

pub open spec fn spec_is_percentage(s: Seq<char>) -> bool {
    s.len() > 0 && s.last() == '%'
}

/// What reading an action's number yields: a plain value, or the reason
/// there is none.
pub open spec fn spec_get_number(s: Seq<char>) -> Result<int, ParseError> {
    let t = spec_number_part(s);
    if spec_is_percentage(t) {
        Err(ParseError::IsPercentage)
    } else {
        match spec_parse_i32_exact(t) {
            Some(v) => Ok(v),
            None => Err(ParseError::IsInvalid),
        }
    }
}

/// What reading an action's percentage yields: the number between the
/// operator and the `%`, if it is one.
pub open spec fn spec_get_percentage(s: Seq<char>) -> Option<int> {
    let t = spec_number_part(s);
    let u = if t.len() > 0 {
        t.drop_last()
    } else {
        t
    };
    spec_parse_i8_exact(u)
}

/// Whether a number string is marked as a percentage.
pub fn is_percentage(num: &str) -> (r: bool)
    ensures
        r == spec_is_percentage(num@),
{
    let n = num.unicode_len();
    n > 0 && num.get_char(n - 1) == '%'
}

/// Reads the percentage of an action such as `+5%`: the operator and the
/// trailing `%` are dropped and the rest must be a clean decimal `i8`.
pub fn get_percentage(action: &str) -> (r: Option<i8>)
    ensures
        match spec_get_percentage(action@) {
            Some(v) => r == Some(v as i8),
            None => r == None::<i8>,
        },
{
    let n = action.unicode_len();
    if n < 2 {
        return None;
    }
    proof {
        assert(action@.subrange(1, n - 1 as int) =~= spec_number_part(action@).drop_last());
    }
    match parse_i32_range(action, 1, n - 1) {
        Some(v) => if -128 <= v && v <= 127 {
            Some(v as i8)
        } else {
            None
        },
        None => None,
    }
}

/// Reads the number of an action such as `+40`: the operator is skipped and
/// the rest must be a clean decimal `i32`, not marked as a percentage.
pub fn get_number(action: &String) -> (r: Result<i32, ParseError>)
    ensures
        match spec_get_number(action@) {
            Ok(v) => r == Ok::<i32, ParseError>(v as i32),
            Err(e) => r == Err::<i32, ParseError>(e),
        },
{
    let s = action.as_str();
    let n = s.unicode_len();
    if n == 0 {
        return Err(ParseError::IsInvalid);
    }
    if n >= 2 && s.get_char(n - 1) == '%' {
        return Err(ParseError::IsPercentage);
    }
    proof {
        assert(s@.subrange(1, n as int) =~= spec_number_part(s@));
    }
    match parse_i32_range(s, 1, n) {
        Some(v) => Ok(v),
        None => Err(ParseError::IsInvalid),
    }
}

/// What reading an action's number yields under the rule the command
/// surface uses: a leading `+`, `-` or `=` operator is skipped, and any
/// number of trailing `%` marks are peeled off one by one.
pub open spec fn spec_number_from_action(s: Seq<char>) -> Option<int>
    decreases s.len(),
{
    let t = if s.len() > 0 && (s[0] == '+' || s[0] == '-' || s[0] == '=') {
        s.drop_first()
    } else {
        s
    };
    if t.len() > 0 && t.last() == '%' {
        spec_number_from_action(t.drop_last())
    } else {
        spec_parse_i32_exact(t)
    }
}

/// Reads the number of an action such as `+40`, `=30` or `-5%`: the leading
/// operator, if any, and a trailing `%` are dropped; the rest must be a
/// clean decimal `i32`. A percentage keeps its plain numeric value here;
/// converting it against a maximum is the caller's step.
pub fn get_number_from_action(action: &str) -> (r: Result<i32, Error>)
    ensures
        match spec_number_from_action(action@) {
            Some(v) => r == Ok::<i32, Error>(v as i32),
            None => r == Err::<i32, Error>(Error::InvalidData),
        },
    decreases action@.len(),
{
    let n = action.unicode_len();
    let start: usize = if n > 0 {
        let c = action.get_char(0);
        if c == '+' || c == '-' || c == '=' {
            1
        } else {
            0
        }
    } else {
        0
    };
    let ghost t = action@.subrange(start as int, n as int);
    proof {
        if start == 1 {
            assert(t =~= action@.drop_first());
        } else {
            assert(t =~= action@);
        }
    }
    if n > start && action.get_char(n - 1) == '%' {
        let clean = action.substring_char(start, n - 1);
        proof {
            assert(clean@ =~= t.drop_last());
        }
        return get_number_from_action(clean);
    }
    match parse_i32_range(action, start, n) {
        Some(v) => Ok(v),
        None => Err(Error::InvalidData),
    }
}

/// What interpreting an action writes: the clamped increase for `+`, the
/// floored decrease for `-`, nothing for any other leading character.
pub open spec fn spec_interpret_action(
    iface: Interface,
    action: Seq<char>,
    num: int,
    current: int,
) -> Option<int> {
    if action.len() > 0 && action[0] == '+' {
        Some(iface.spec_increase(current, num))
    } else if action.len() > 0 && action[0] == '-' {
        Some(iface.spec_decrease(current, num))
    } else {
        None
    }
}

/// The machine limits interpreting an action needs: the sum or difference
/// it forms must fit an `i32`.
pub open spec fn spec_interpret_fits(action: Seq<char>, num: int, current: int) -> bool {
    &&& (action.len() > 0 && action[0] == '+') ==> i32::MIN <= current + num <= i32::MAX
    &&& (action.len() > 0 && action[0] == '-') ==> i32::MIN <= current - num <= i32::MAX
}

/// Applies an action's operator: returns the text the brightness file must
/// be given, or nothing when the action names no operation. `current` is
/// the device's current brightness reading.
pub fn interpret_action(interface: &Interface, action: &str, num: i32, current: i32) -> (r:
    Option<String>)
    requires
        spec_interpret_fits(action@, num as int, current as int),
    ensures
        match spec_interpret_action(*interface, action@, num as int, current as int) {
            Some(v) => (r matches Some(t) && t@ == spec_render_i32(v)),
            None => r is None,
        },
{
    let n = action.unicode_len();
    if n == 0 {
        return None;
    }
    let c = action.get_char(0);
    if c == '+' {
        return Some(interface.increase_brightness(current, num));
    }
    if c == '-' {
        return Some(interface.decrease_brightness(current, num));
    }
    None
}

/// What changing state with the last argument yields, and the machine
/// limits it needs.
pub open spec fn spec_change_state(iface: Interface, action: Seq<char>, current: int) -> Option<
    int,
> {
    match spec_get_number(action) {
        Ok(v) => spec_interpret_action(iface, action, v, current),
        Err(ParseError::IsPercentage) => match spec_get_percentage(action) {
            Some(p) => spec_interpret_action(
                iface,
                action,
                spec_value_from_percentage(iface.spec_max(), p),
                current,
            ),
            None => None,
        },
        Err(ParseError::IsInvalid) => None,
    }
}

pub open spec fn spec_change_state_fits(iface: Interface, action: Seq<char>, current: int) -> bool {
    match spec_get_number(action) {
        Ok(v) => spec_interpret_fits(action, v, current),
        Err(ParseError::IsPercentage) => match spec_get_percentage(action) {
            Some(p) => {
                let v = spec_value_from_percentage(iface.spec_max(), p);
                iface.spec_max() >= 0 && i32::MIN <= v <= i32::MAX && spec_interpret_fits(
                    action,
                    v,
                    current,
                )
            },
            None => true,
        },
        Err(ParseError::IsInvalid) => true,
    }
}

/// Turns the last argument into the brightness write it asks for: a plain
/// number is applied as it stands, a percentage is converted against the
/// interface's maximum first, and anything else changes nothing. `current`
/// is the device's current brightness reading.
pub fn change_state(interface: &Interface, args: &Vec<String>, current: i32) -> (r: Option<String>)
    requires
        args@.len() > 0,
        spec_change_state_fits(*interface, args@.last()@, current as int),
    ensures
        match spec_change_state(*interface, args@.last()@, current as int) {
            Some(v) => (r matches Some(t) && t@ == spec_render_i32(v)),
            None => r is None,
        },
{
    let action: &String = &args[args.len() - 1];
    match get_number(action) {
        Ok(num) => interpret_action(interface, action.as_str(), num, current),
        Err(ParseError::IsPercentage) => match get_percentage(action.as_str()) {
            Some(p) => {
                let value = to_value(interface.get_max(), p);
                interpret_action(interface, action.as_str(), value, current)
            },
            None => None,
        },
        Err(ParseError::IsInvalid) => None,
    }
}

} // verus!
