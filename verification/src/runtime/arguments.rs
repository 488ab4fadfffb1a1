//! Arguments and settings of the commands.

use crate::fault::{self, invalid_input, Fault, FaultKind};
use crate::text;
use crate::time::Span;
use vstd::prelude::*;

verus! {

/// The first argument from a place on that is the given one.
pub open spec fn option_place(arguments: Seq<String>, name: Seq<char>, start: int) -> Option<int>
    decreases arguments.len() - start,
{
    if start >= arguments.len() {
        None
    } else if arguments[start]@ == name {
        Some(start)
    } else {
        option_place(arguments, name, start + 1)
    }
}

fn find_option(arguments: &Vec<String>, name: &str, start: usize) -> (place: Option<usize>)
    ensures
        match place {
            Some(place) => option_place(arguments@, name@, start as int) == Some(place as int)
                && place < arguments@.len(),
            None => option_place(arguments@, name@, start as int) is None,
        },
{
    let length: usize = arguments.len();
    let mut i: usize = start;
    while i < length
        invariant
            length == arguments@.len(),
            option_place(arguments@, name@, start as int) == option_place(
                arguments@,
                name@,
                i as int,
            ),
        decreases length - i,
    {
        if text::same_text(arguments[i].as_str(), name) {
            return Some(i);
        }
        i += 1;
    }
    None
}

/// The argument after an option, behind the name of the program and of the command.
pub open spec fn option_value(
    arguments: Seq<String>,
    name: Seq<char>,
    absent: &'static str,
    incomplete: &'static str,
) -> Result<String, Fault> {
    match option_place(arguments, name, 2) {
        Some(place) => if place + 1 < arguments.len() {
            Ok(arguments[place + 1])
        } else {
            Err(fault::input_fault(incomplete))
        },
        None => Err(fault::input_fault(absent)),
    }
}

fn find_value(
    arguments: &Vec<String>,
    name: &str,
    absent: &'static str,
    incomplete: &'static str,
) -> (value: Result<String, Fault>)
    ensures
        value == option_value(arguments@, name@, absent, incomplete),
{
    match find_option(arguments, name, 2) {
        Some(place) => {
            let length: usize = arguments.len();
            if place + 1 < length {
                Ok(arguments[place + 1].clone())
            } else {
                Err(invalid_input(incomplete))
            }
        },
        None => Err(invalid_input(absent)),
    }
}

/// The path of the socket that the daemon serves.
pub fn daemon_socket_argument(arguments: &Vec<String>) -> (socket: Result<String, Fault>)
    ensures
        socket == option_value(
            arguments@,
            "--socket"@,
            "daemon requires --socket",
            "--socket requires a path",
        ),
{
    find_value(
        arguments,
        "--socket",
        "daemon requires --socket",
        "--socket requires a path",
    )
}

/// The user that frontends of the daemon run as.
pub fn daemon_uid_argument(arguments: &Vec<String>) -> (uid: Result<u32, Fault>)
    ensures
        match option_value(
            arguments@,
            "--frontend-uid"@,
            "daemon requires --frontend-uid",
            "--frontend-uid requires a value",
        ) {
            Ok(value) => match text::unsigned_number(value@, u32::MAX as nat) {
                Some(number) => uid == Ok::<u32, Fault>(number as u32),
                None => uid == Err::<u32, Fault>(
                    fault::input_fault("--frontend-uid must be an unsigned integer"),
                ),
            },
            Err(fault) => uid == Err::<u32, Fault>(fault),
        },
{
    let value = match find_value(
        arguments,
        "--frontend-uid",
        "daemon requires --frontend-uid",
        "--frontend-uid requires a value",
    ) {
        Ok(value) => value,
        Err(fault) => {
            return Err(fault);
        },
    };
    let characters = text::characters(value.as_str());
    match text::parse_unsigned(characters.as_slice(), u32::MAX as u64) {
        Some(number) => Ok(number as u32),
        None => Err(invalid_input("--frontend-uid must be an unsigned integer")),
    }
}

/// Tells whether the daemon is to serve a single connection.
pub fn once_argument(arguments: &Vec<String>) -> (once: bool)
    ensures
        once == (option_place(arguments@, "--once"@, 0) is Some),
{
    find_option(arguments, "--once", 0).is_some()
}

/// A setting that has to be there.
pub fn required_string(value: Option<String>) -> (found: Result<String, Fault>)
    ensures
        found == match value {
            Some(text) => Ok::<String, Fault>(text),
            None => Err::<String, Fault>(
                fault::input_fault("required frontend environment is absent"),
            ),
        },
{
    match value {
        Some(text) => Ok(text),
        None => Err(invalid_input("required frontend environment is absent")),
    }
}

/// What a setting says as a number, or what holds where it says none.
pub open spec fn number_or(value: Option<String>, default: nat, maximum: nat) -> nat {
    match value {
        Some(text) => match text::unsigned_number(text@, maximum) {
            Some(number) => number,
            None => default,
        },
        None => default,
    }
}

/// A length of time in milliseconds that a setting gives, or the default one.
pub fn duration_from_env(value: &Option<String>, default_ms: u64) -> (span: Span)
    ensures
        span == Span::spec_milliseconds(
            number_or(*value, default_ms as nat, u64::MAX as nat) as u64,
        ),
        span.normal(),
{
    let milliseconds: u64 = match value {
        Some(text) => {
            let characters = text::characters(text.as_str());
            match text::parse_unsigned(characters.as_slice(), u64::MAX) {
                Some(number) => number,
                None => default_ms,
            }
        },
        None => default_ms,
    };
    Span::from_milliseconds(milliseconds)
}

/// A number that a setting gives, or the default one.
pub fn u32_from_env(value: &Option<String>, default: u32) -> (number: u32)
    ensures
        number == number_or(*value, default as nat, u32::MAX as nat),
{
    match value {
        Some(text) => {
            let characters = text::characters(text.as_str());
            match text::parse_unsigned(characters.as_slice(), u32::MAX as u64) {
                Some(number) => number as u32,
                None => default,
            }
        },
        None => default,
    }
}

/// What is said of a failure in the log.
pub open spec fn reason(kind: FaultKind) -> &'static str {
    match kind {
        FaultKind::PermissionDenied => "permission-denied",
        FaultKind::TimedOut => "timeout",
        FaultKind::WouldBlock => "timeout",
        FaultKind::InvalidData => "invalid-input",
        FaultKind::InvalidInput => "invalid-input",
        FaultKind::NotFound => "unavailable",
        FaultKind::ConnectionRefused => "unavailable",
        _ => "io-error",
    }
}

pub fn error_reason(error: &Fault) -> (said: &'static str)
    ensures
        said == reason(error.kind),
{
    match error.kind {
        FaultKind::PermissionDenied => "permission-denied",
        FaultKind::TimedOut => "timeout",
        FaultKind::WouldBlock => "timeout",
        FaultKind::InvalidData => "invalid-input",
        FaultKind::InvalidInput => "invalid-input",
        FaultKind::NotFound => "unavailable",
        FaultKind::ConnectionRefused => "unavailable",
        _ => "io-error",
    }
}

/// The name of a session: the process, and the moment in nanoseconds.
pub fn session_id(process: u32, nanoseconds: u128) -> (id: String)
    ensures
        id@ == session_name(process as nat, nanoseconds as nat),
{
    let mut id = String::new();
    text::append_decimal(&mut id, process as u64);
    id.append("-");
    text::append_wide_decimal(&mut id, nanoseconds);
    id
}

/// The value of an option is what stands after its first mention behind the name of the program and
/// of the command.
pub proof fn option_is_followed_by_its_value(
    arguments: Seq<String>,
    name: Seq<char>,
    absent: &'static str,
    incomplete: &'static str,
)
    ensures
        match option_value(arguments, name, absent, incomplete) {
            Ok(value) => exists|place: int| #[trigger]
                is_first_mention(arguments, name, place) && place + 1 < arguments.len() && value
                    == arguments[place + 1],
            Err(refusal) => {
                ||| refusal == fault::input_fault(absent) && forall|i: int|
                    2 <= i < arguments.len() ==> (#[trigger] arguments[i])@ != name
                ||| refusal == fault::input_fault(incomplete) && is_first_mention(
                    arguments,
                    name,
                    arguments.len() - 1,
                )
            },
        },
{
    first_mention_is_found(arguments, name, 2);
    if let Some(place) = option_place(arguments, name, 2) {
        assert(is_first_mention(arguments, name, place));
    }
}

/// An option is mentioned at a place, and not between the command and that place.
pub open spec fn is_first_mention(arguments: Seq<String>, name: Seq<char>, place: int) -> bool {
    &&& 2 <= place < arguments.len()
    &&& arguments[place]@ == name
    &&& forall|i: int| 2 <= i < place ==> (#[trigger] arguments[i])@ != name
}

proof fn first_mention_is_found(arguments: Seq<String>, name: Seq<char>, start: int)
    ensures
        match option_place(arguments, name, start) {
            Some(place) => start <= place < arguments.len() && arguments[place]@ == name && forall|
                i: int,
            |
                start <= i < place ==> (#[trigger] arguments[i])@ != name,
            None => forall|i: int|
                start <= i < arguments.len() ==> (#[trigger] arguments[i])@ != name,
        },
    decreases arguments.len() - start,
{
    if start < arguments.len() && arguments[start]@ != name {
        first_mention_is_found(arguments, name, start + 1);
    }
}

/// A setting that was written as a number in range is that number, and one that is missing or no
/// number in range is the default.
pub proof fn written_setting_is_used(
    setting: String,
    value: nat,
    default: nat,
    maximum: nat,
)
    requires
        setting@ == text::decimal_text(value),
    ensures
        number_or(Some(setting), default, maximum) == (if value <= maximum {
            value
        } else {
            default
        }),
        number_or(None, default, maximum) == default,
{
    text::written_number_is_read(value, maximum);
}

/// The name of a session of a process that began at a moment.
pub open spec fn session_name(process: nat, nanoseconds: nat) -> Seq<char> {
    text::decimal_text(process) + "-"@ + text::decimal_text(nanoseconds)
}

/// Sessions of different processes, or that began at different moments, have different names.
pub proof fn sessions_are_told_apart(process: nat, moment: nat, other: nat, later: nat)
    ensures
        session_name(process, moment) == session_name(other, later) ==> process == other && moment
            == later,
{
    reveal_strlit("-");
    text::decimal_stands_for_its_number(process);
    text::decimal_stands_for_its_number(moment);
    text::decimal_stands_for_its_number(other);
    text::decimal_stands_for_its_number(later);
    let (first, second) = (text::decimal_text(process), text::decimal_text(other));
    let left = session_name(process, moment);
    let right = session_name(other, later);
    if left == right {
        assert(left[first.len() as int] == '-');
        assert(right[second.len() as int] == '-');
        if first.len() < second.len() {
            assert(right[first.len() as int] == second[first.len() as int]);
        } else if second.len() < first.len() {
            assert(left[second.len() as int] == first[second.len() as int]);
        }
        assert(first =~= left.take(first.len() as int));
        assert(second =~= right.take(second.len() as int));
        assert(text::decimal_text(moment) =~= left.skip((first.len() + 1) as int));
        assert(text::decimal_text(later) =~= right.skip((second.len() + 1) as int));
    }
}

} // verus!
