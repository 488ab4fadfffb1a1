//! Commands by which an operator inspects the service: they only read, and read only so much.

pub mod report;

use crate::fault::{self, invalid_input, Fault};
use crate::text;
use vstd::prelude::*;

verus! {

/// How many builds a command shows where it is not told.
pub const DEFAULT_LIMIT: usize = 64;

/// The most builds that a command shows.
pub const MAXIMUM_LIMIT: usize = 256;

/// What an operator asks.
#[derive(Clone, Debug, PartialEq, Eq)]
pub enum Command {
    Status,
    Queue { limit: usize },
    Build { derivation_path: String },
    Backends,
    Recovery { limit: usize },
    ConfigCheck,
}

/// The path of a derivation that can be asked for.
pub open spec fn is_derivation_path(path: Seq<char>) -> bool {
    &&& text::byte_length(path) <= 4096
    &&& "/nix/store/"@.is_prefix_of(path)
    &&& ".drv"@.is_suffix_of(path)
    &&& !path.contains('\0')
}

/// The limit that the arguments after a command set.
pub open spec fn limit_of(arguments: Seq<String>) -> Result<usize, Fault> {
    if arguments.len() == 0 {
        Ok(DEFAULT_LIMIT)
    } else if arguments[0]@ != "--limit"@ {
        Err(fault::input_fault("expected --limit"))
    } else if arguments.len() == 1 {
        Err(fault::input_fault("operator limit is required"))
    } else {
        match text::unsigned_number(arguments[1]@, usize::MAX as nat) {
            Some(limit) => if arguments.len() > 2 || !(1 <= limit <= MAXIMUM_LIMIT) {
                Err(fault::input_fault("operator limit is invalid"))
            } else {
                Ok(limit as usize)
            },
            None => Err(fault::input_fault("operator limit is invalid")),
        }
    }
}

/// A command that takes no arguments.
pub open spec fn alone(arguments: Seq<String>, command: Command) -> Result<Command, Fault> {
    if arguments.len() == 0 {
        Ok(command)
    } else {
        Err(fault::input_fault("unexpected operator argument"))
    }
}

/// The build that the arguments after the command ask for.
pub open spec fn build_of(arguments: Seq<String>) -> Result<Command, Fault> {
    if arguments.len() == 0 {
        Err(fault::input_fault("derivation path is required"))
    } else if arguments.len() > 1 || !is_derivation_path(arguments[0]@) {
        Err(fault::input_fault("derivation path is invalid"))
    } else {
        Ok(Command::Build { derivation_path: arguments[0] })
    }
}

/// What arguments ask, or what is wrong with them.
pub open spec fn command_of(arguments: Seq<String>) -> Result<Command, Fault> {
    if arguments.len() == 0 {
        Err(fault::input_fault("operator command is required"))
    } else {
        let rest = arguments.skip(1);
        if arguments[0]@ == "status"@ {
            alone(rest, Command::Status)
        } else if arguments[0]@ == "build"@ {
            build_of(rest)
        } else if arguments[0]@ == "backends"@ {
            alone(rest, Command::Backends)
        } else if arguments[0]@ == "config-check"@ {
            alone(rest, Command::ConfigCheck)
        } else if arguments[0]@ == "queue"@ {
            match limit_of(rest) {
                Ok(limit) => Ok(Command::Queue { limit }),
                Err(fault) => Err(fault),
            }
        } else if arguments[0]@ == "recovery"@ {
            match limit_of(rest) {
                Ok(limit) => Ok(Command::Recovery { limit }),
                Err(fault) => Err(fault),
            }
        } else {
            Err(fault::input_fault("unknown operator command"))
        }
    }
}

/// Reads what an operator asks.
pub fn parse(arguments: &Vec<String>) -> (command: Result<Command, Fault>)
    ensures
        command == command_of(arguments@),
{
    if arguments.len() == 0 {
        return Err(invalid_input("operator command is required"));
    }
    let name = arguments[0].as_str();
    if text::same_text(name, "status") {
        no_more(arguments, Command::Status)
    } else if text::same_text(name, "build") {
        build(arguments)
    } else if text::same_text(name, "backends") {
        no_more(arguments, Command::Backends)
    } else if text::same_text(name, "config-check") {
        no_more(arguments, Command::ConfigCheck)
    } else if text::same_text(name, "queue") {
        match bounded(arguments) {
            Ok(limit) => Ok(Command::Queue { limit }),
            Err(fault) => Err(fault),
        }
    } else if text::same_text(name, "recovery") {
        match bounded(arguments) {
            Ok(limit) => Ok(Command::Recovery { limit }),
            Err(fault) => Err(fault),
        }
    } else {
        Err(invalid_input("unknown operator command"))
    }
}

fn build(arguments: &Vec<String>) -> (command: Result<Command, Fault>)
    requires
        arguments@.len() > 0,
    ensures
        command == build_of(arguments@.skip(1)),
{
    if arguments.len() == 1 {
        return Err(invalid_input("derivation path is required"));
    }
    let path = arguments[1].as_str();
    if arguments.len() > 2 || text::length_in_bytes(path) > 4096 || !text::starts_with(
        path,
        "/nix/store/",
    ) || !text::ends_with(path, ".drv") || text::contains_character(path, '\0') {
        return Err(invalid_input("derivation path is invalid"));
    }
    Ok(Command::Build { derivation_path: arguments[1].clone() })
}

fn no_more(arguments: &Vec<String>, command: Command) -> (accepted: Result<Command, Fault>)
    requires
        arguments@.len() > 0,
    ensures
        accepted == alone(arguments@.skip(1), command),
{
    if arguments.len() > 1 {
        return Err(invalid_input("unexpected operator argument"));
    }
    Ok(command)
}

fn bounded(arguments: &Vec<String>) -> (limit: Result<usize, Fault>)
    requires
        arguments@.len() > 0,
    ensures
        limit == limit_of(arguments@.skip(1)),
{
    if arguments.len() == 1 {
        return Ok(DEFAULT_LIMIT);
    }
    if !text::same_text(arguments[1].as_str(), "--limit") {
        return Err(invalid_input("expected --limit"));
    }
    if arguments.len() == 2 {
        return Err(invalid_input("operator limit is required"));
    }
    let characters = text::characters(arguments[2].as_str());
    match text::parse_unsigned(characters.as_slice(), usize::MAX as u64) {
        Some(limit) => {
            if arguments.len() > 3 || limit < 1 || limit > MAXIMUM_LIMIT as u64 {
                return Err(invalid_input("operator limit is invalid"));
            }
            Ok(limit as usize)
        },
        None => Err(invalid_input("operator limit is invalid")),
    }
}

/// No command asks for nothing, or for more than may be shown.
pub proof fn commands_are_bounded(arguments: Seq<String>)
    ensures
        command_of(arguments) matches Ok(Command::Queue { limit }) ==> 1 <= limit <= MAXIMUM_LIMIT,
        command_of(arguments) matches Ok(Command::Recovery { limit }) ==> 1 <= limit
            <= MAXIMUM_LIMIT,
        command_of(arguments) matches Ok(Command::Build { derivation_path }) ==> is_derivation_path(
            derivation_path@,
        ),
{
}

/// A command with a limit is asked for alone, or with a limit of its own.
pub open spec fn asks_with_limit(arguments: Seq<String>, name: Seq<char>, limit: usize) -> bool {
    &&& arguments.len() == 1 || arguments.len() == 3
    &&& arguments[0]@ == name
    &&& arguments.len() == 1 ==> limit == 64
    &&& arguments.len() == 3 ==> arguments[1]@ == "--limit"@ && 1 <= limit <= 256
        && text::unsigned_number(arguments[2]@, usize::MAX as nat) == Some(limit as nat)
}

/// Arguments ask for a command.
pub open spec fn asks(arguments: Seq<String>, command: Command) -> bool {
    match command {
        Command::Status => arguments.len() == 1 && arguments[0]@ == "status"@,
        Command::Backends => arguments.len() == 1 && arguments[0]@ == "backends"@,
        Command::ConfigCheck => arguments.len() == 1 && arguments[0]@ == "config-check"@,
        Command::Queue { limit } => asks_with_limit(arguments, "queue"@, limit),
        Command::Recovery { limit } => asks_with_limit(arguments, "recovery"@, limit),
        Command::Build { derivation_path } => {
            &&& arguments.len() == 2
            &&& arguments[0]@ == "build"@
            &&& derivation_path == arguments[1]
            &&& text::byte_length(derivation_path@) <= 4096
            &&& "/nix/store/"@.is_prefix_of(derivation_path@)
            &&& ".drv"@.is_suffix_of(derivation_path@)
            &&& forall|i: int|
                0 <= i < derivation_path@.len() ==> #[trigger] derivation_path@[i] != '\0'
        },
    }
}

/// A command is what arguments ask for, and it is done for no others.
pub proof fn command_is_what_was_asked(arguments: Seq<String>, command: Command)
    ensures
        command_of(arguments) == Ok::<Command, Fault>(command) <==> asks(arguments, command),
{
    reveal_strlit("status");
    reveal_strlit("build");
    reveal_strlit("backends");
    reveal_strlit("config-check");
    reveal_strlit("queue");
    reveal_strlit("recovery");
    if arguments.len() > 0 {
        let name = arguments[0]@;
        if name == "build"@ {
            assert(name.len() == 5 && name[0] == 'b');
        }
        if name == "queue"@ {
            assert(name.len() == 5 && name[0] == 'q');
        }
        if name == "backends"@ {
            assert(name.len() == 8 && name[0] == 'b');
        }
        if name == "recovery"@ {
            assert(name.len() == 8 && name[0] == 'r');
        }
        if arguments.len() > 1 {
            assert(arguments.skip(1)[0] == arguments[1]);
            let path = arguments[1]@;
            if path.contains('\0') {
                let place = choose|place: int| 0 <= place < path.len() && path[place] == '\0';
                assert(path[place] == '\0');
            }
        }
        if arguments.len() > 2 {
            assert(arguments.skip(1)[1] == arguments[2]);
        }
    }
}

} // verus!
