//! Publication of built outputs by a command of the operator.

use crate::crypto;
use crate::fault::{self, invalid_input, Fault, FaultKind};
use crate::path;
use crate::service::config::model::{self, equal_texts};
use crate::text;
use crate::time::Span;
use vstd::prelude::*;

verus! {

pub const MAXIMUM_ARGUMENTS: usize = 64;

pub const MAXIMUM_ARGUMENT_BYTES: usize = 4096;

/// The command that publishes outputs.
#[derive(Clone, Debug)]
pub struct CachePublisher {
    pub executable: String,
    pub arguments: Vec<String>,
    pub timeout: Span,
    pub maximum_input_bytes: usize,
}

pub open spec fn configuration_fault() -> Fault {
    fault::input_fault("cache publication configuration is invalid")
}

pub open spec fn command_fault() -> Fault {
    Fault { kind: FaultKind::Other, message: "cache publication command failed" }
}

fn invalid() -> (fault: Fault)
    ensures
        fault == configuration_fault(),
{
    invalid_input("cache publication configuration is invalid")
}

fn command_failed() -> (fault: Fault)
    ensures
        fault == command_fault(),
{
    Fault { kind: FaultKind::Other, message: "cache publication command failed" }
}

/// The command is an absolute path, its arguments are few and short, and it is given some time
/// and some input.
pub open spec fn is_publisher(
    executable: Seq<char>,
    arguments: Seq<String>,
    timeout: Span,
    maximum_input_bytes: usize,
) -> bool {
    &&& executable.len() > 0 && executable[0] == '/'
    &&& !(timeout.seconds == 0 && timeout.nanoseconds == 0)
    &&& maximum_input_bytes > 0
    &&& arguments.len() <= MAXIMUM_ARGUMENTS
    &&& forall|i: int|
        0 <= i < arguments.len() ==> text::byte_length((#[trigger] arguments[i])@)
            <= MAXIMUM_ARGUMENT_BYTES
}

/// What is known of the command while it runs.
#[derive(Clone, Copy, Debug, PartialEq, Eq, Structural)]
pub enum CommandStatus {
    /// It has ended, with success or not.
    Exited(bool),
    Running,
    /// Its status could not be read.
    Unknown,
}

/// What to do about the command.
#[derive(Clone, Copy, Debug)]
pub enum PublishStep {
    Finish(Result<(), Fault>),
    /// Look again after a pause.
    Wait,
    /// End the command, and report its failure.
    Kill(Fault),
}

impl CachePublisher {
    /// Every setting agrees.
    pub open spec fn same_as(self, other: CachePublisher) -> bool {
        &&& path::same_path(self.executable@, other.executable@)
        &&& model::same_texts(self.arguments@, other.arguments@)
        &&& self.timeout == other.timeout
        &&& self.maximum_input_bytes == other.maximum_input_bytes
    }

    pub fn equals(&self, other: &CachePublisher) -> (same: bool)
        ensures
            same == self.same_as(*other),
    {
        path::equal_paths(self.executable.as_str(), other.executable.as_str()) && equal_texts(
            &self.arguments,
            &other.arguments,
        ) && self.timeout == other.timeout && self.maximum_input_bytes == other.maximum_input_bytes
    }

    pub fn new(
        executable: String,
        arguments: Vec<String>,
        timeout: Span,
        maximum_input_bytes: usize,
    ) -> (publisher: Result<Self, Fault>)
        ensures
            is_publisher(executable@, arguments@, timeout, maximum_input_bytes) ==> publisher
                == Ok::<CachePublisher, Fault>(
                CachePublisher { executable, arguments, timeout, maximum_input_bytes },
            ),
            !is_publisher(executable@, arguments@, timeout, maximum_input_bytes) ==> publisher
                == Err::<CachePublisher, Fault>(configuration_fault()),
    {
        let path = executable.as_str();
        if path.is_empty() || path.get_char(0) != '/' || timeout.is_zero() || maximum_input_bytes
            == 0 {
            return Err(invalid());
        }
        if arguments.len() > MAXIMUM_ARGUMENTS {
            return Err(invalid());
        }
        let mut i: usize = 0;
        while i < arguments.len()
            invariant
                i <= arguments@.len(),
                forall|j: int|
                    0 <= j < i ==> text::byte_length((#[trigger] arguments@[j])@)
                        <= MAXIMUM_ARGUMENT_BYTES,
            decreases arguments@.len() - i,
        {
            if text::length_in_bytes(arguments[i].as_str()) > MAXIMUM_ARGUMENT_BYTES {
                return Err(invalid());
            }
            i += 1;
        }
        Ok(CachePublisher { executable, arguments, timeout, maximum_input_bytes })
    }

    /// Makes what the command reads: the outputs as a JSON array on a line.
    pub fn publish(&self, outputs: &Vec<String>) -> (input: Result<Vec<u8>, Fault>)
        ensures
            ({
                let array = crypto::json_text_array(crypto::texts_of(outputs@));
                if outputs@.len() == 0 || array.len() + 1 > self.maximum_input_bytes {
                    input == Err::<Vec<u8>, Fault>(configuration_fault())
                } else {
                    input is Ok && input->Ok_0@ == array.push(0x0a)
                }
            }),
    {
        let mut input = match crypto::json_array_bytes(outputs) {
            Some(input) => input,
            None => {
                return Err(invalid());
            },
        };
        if outputs.len() == 0 || input.len() >= self.maximum_input_bytes {
            return Err(invalid());
        }
        input.push(0x0a);
        Ok(input)
    }
}

/// Says what to do about the command, given when its time is over.
pub fn publish_step(status: CommandStatus, now: u128, deadline: u128) -> (step: PublishStep)
    ensures
        step == publication_step(status, now, deadline),
{
    match status {
        CommandStatus::Exited(success) => {
            if success {
                PublishStep::Finish(Ok(()))
            } else {
                PublishStep::Finish(Err(command_failed()))
            }
        },
        CommandStatus::Unknown => PublishStep::Finish(Err(command_failed())),
        CommandStatus::Running => {
            if now >= deadline {
                PublishStep::Kill(command_failed())
            } else {
                PublishStep::Wait
            }
        },
    }
}

/// How a publication goes on.
pub open spec fn publication_step(
    status: CommandStatus,
    now: u128,
    deadline: u128,
) -> PublishStep {
    match status {
        CommandStatus::Exited(true) => PublishStep::Finish(Ok(())),
        CommandStatus::Exited(false) | CommandStatus::Unknown => PublishStep::Finish(
            Err(command_fault()),
        ),
        CommandStatus::Running => if now >= deadline {
            PublishStep::Kill(command_fault())
        } else {
            PublishStep::Wait
        },
    }
}

/// A publication has succeeded if and only if its command ended with success. A command that runs
/// is waited for before its deadline and ended from then on, and one that does not run is neither
/// waited for nor ended.
pub proof fn publication_takes_its_course(status: CommandStatus, now: u128, deadline: u128)
    ensures
        publication_step(status, now, deadline) matches PublishStep::Finish(Ok(_)) <==> status
            == CommandStatus::Exited(true),
        publication_step(status, now, deadline) is Finish <==> !(status is Running),
        publication_step(status, now, deadline) is Wait <==> status is Running && now < deadline,
        publication_step(status, now, deadline) is Kill <==> status is Running && deadline <= now,
{
}

} // verus!
