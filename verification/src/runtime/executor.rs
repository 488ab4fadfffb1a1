//! The local executor: which executions it starts, and how it records their end.

use crate::crypto;
use crate::metadata;
use crate::persistence::executor::LocalBackendExecutionState;
use vstd::prelude::*;

verus! {

/// What a build found: it was built, or was there already.
#[derive(Clone, Copy, Debug, PartialEq, Eq, Structural)]
pub enum BuildStatus {
    Built,
    AlreadyValid,
}

impl BuildStatus {
    pub open spec fn spec_name(self) -> &'static str {
        match self {
            BuildStatus::Built => "built",
            BuildStatus::AlreadyValid => "already-valid",
        }
    }

    pub fn as_str(self) -> (name: &'static str)
        ensures
            name == self.spec_name(),
    {
        match self {
            BuildStatus::Built => "built",
            BuildStatus::AlreadyValid => "already-valid",
        }
    }
}

/// What came of an execution. The outputs are missing where a name or a path of one is no text.
#[derive(Debug)]
pub enum ExecutionResult {
    Built { status: BuildStatus, outputs: Option<Vec<(String, String)>> },
    Failed,
}

/// How an execution ended, as it is recorded.
#[derive(Debug)]
pub struct TerminalExecution {
    pub state: LocalBackendExecutionState,
    pub classification: &'static str,
    pub result_metadata: String,
}

impl TerminalExecution {
    /// What the end says.
    pub open spec fn told(self) -> (LocalBackendExecutionState, &'static str, Seq<char>) {
        (self.state, self.classification, self.result_metadata@)
    }
}

/// Only an execution that was accepted, and is not under way, is started.
pub fn starts_execution(state: LocalBackendExecutionState) -> (starts: bool)
    ensures
        starts == (state == LocalBackendExecutionState::Accepted),
{
    state == LocalBackendExecutionState::Accepted
}

/// The metadata of a build that succeeded.
pub open spec fn success_json(status: BuildStatus, outputs: Seq<(String, String)>) -> Seq<char> {
    "{\"outputs\":["@ + metadata::outputs_json(outputs) + "],\"status\":"@ + crypto::json_string(
        status.spec_name()@,
    ) + "}"@
}

fn success_metadata(status: BuildStatus, outputs: &Vec<(String, String)>) -> (written: String)
    ensures
        written@ == success_json(status, outputs@),
{
    let mut written = String::new();
    written.append("{\"outputs\":[");
    written.append(metadata::outputs_text(outputs).as_str());
    written.append("],\"status\":");
    written.append(crypto::json_string_text(status.as_str()).as_str());
    written.append("}");
    assert(written@ =~= success_json(status, outputs@));
    written
}

/// How the end of an execution is recorded: with its outputs where it succeeded and they can be
/// named.
pub open spec fn end_of(result: ExecutionResult) -> (
    LocalBackendExecutionState,
    &'static str,
    Seq<char>,
) {
    match result {
        ExecutionResult::Built { status, outputs: Some(outputs) } => (
            LocalBackendExecutionState::Succeeded,
            "succeeded",
            success_json(status, outputs@),
        ),
        ExecutionResult::Built { outputs: None, .. } => (
            LocalBackendExecutionState::Failed,
            "output-failure",
            "{}"@,
        ),
        ExecutionResult::Failed => (
            LocalBackendExecutionState::Failed,
            "infrastructure-failure",
            "{}"@,
        ),
    }
}

/// Makes the end of an execution as it is recorded.
pub fn terminal_execution(result: &ExecutionResult) -> (terminal: TerminalExecution)
    ensures
        terminal.told() == end_of(*result),
{
    match result {
        ExecutionResult::Built { status, outputs: Some(outputs) } => TerminalExecution {
            state: LocalBackendExecutionState::Succeeded,
            classification: "succeeded",
            result_metadata: success_metadata(*status, outputs),
        },
        ExecutionResult::Built { status: _, outputs: None } => TerminalExecution {
            state: LocalBackendExecutionState::Failed,
            classification: "output-failure",
            result_metadata: "{}".to_owned(),
        },
        ExecutionResult::Failed => TerminalExecution {
            state: LocalBackendExecutionState::Failed,
            classification: "infrastructure-failure",
            result_metadata: "{}".to_owned(),
        },
    }
}

/// What is done for an execution.
#[derive(Debug)]
pub enum ExecutionAction {
    /// Record that the execution runs.
    RecordRunning,
    /// Make what is executed of its specification.
    Prepare,
    /// Wait until no other execution is under way.
    TakeTurn,
    Execute,
    /// Record how the execution ended.
    RecordEnd(TerminalExecution),
}

/// What came of an action.
#[derive(Debug)]
pub enum ExecutionReply {
    Done,
    Failed,
    Executed(ExecutionResult),
}

/// What to do next for an execution.
#[derive(Debug)]
pub enum ExecutionStep {
    Perform(ExecutionAction),
    Finish,
}

/// How an execution goes: it is recorded as running, prepared, executed in its turn, and its end
/// recorded. Where it cannot be recorded as running, prepared or given its turn, it is left as it
/// is.
pub open spec fn is_execution_step(step: ExecutionStep, history: Seq<ExecutionReply>) -> bool {
    if history.len() == 0 {
        step == ExecutionStep::Perform(ExecutionAction::RecordRunning)
    } else if history[0] !is Done {
        step == ExecutionStep::Finish
    } else if history.len() == 1 {
        step == ExecutionStep::Perform(ExecutionAction::Prepare)
    } else if history[1] !is Done {
        step == ExecutionStep::Finish
    } else if history.len() == 2 {
        step == ExecutionStep::Perform(ExecutionAction::TakeTurn)
    } else if history[2] !is Done {
        step == ExecutionStep::Finish
    } else if history.len() == 3 {
        step == ExecutionStep::Perform(ExecutionAction::Execute)
    } else if history.len() == 4 && history[3] is Executed {
        step matches ExecutionStep::Perform(ExecutionAction::RecordEnd(terminal)) && terminal.told()
            == end_of(history[3]->Executed_0)
    } else {
        step == ExecutionStep::Finish
    }
}

fn is_done(reply: &ExecutionReply) -> (done: bool)
    ensures
        done == (*reply is Done),
{
    match reply {
        ExecutionReply::Done => true,
        _ => false,
    }
}

/// Says what to do next for an execution.
pub fn execution_step(history: &Vec<ExecutionReply>) -> (step: ExecutionStep)
    ensures
        is_execution_step(step, history@),
{
    if history.len() == 0 {
        return ExecutionStep::Perform(ExecutionAction::RecordRunning);
    }
    if !is_done(&history[0]) {
        return ExecutionStep::Finish;
    }
    if history.len() == 1 {
        return ExecutionStep::Perform(ExecutionAction::Prepare);
    }
    if !is_done(&history[1]) {
        return ExecutionStep::Finish;
    }
    if history.len() == 2 {
        return ExecutionStep::Perform(ExecutionAction::TakeTurn);
    }
    if !is_done(&history[2]) {
        return ExecutionStep::Finish;
    }
    if history.len() == 3 {
        return ExecutionStep::Perform(ExecutionAction::Execute);
    }
    if history.len() > 4 {
        return ExecutionStep::Finish;
    }
    match &history[3] {
        ExecutionReply::Executed(result) => ExecutionStep::Perform(
            ExecutionAction::RecordEnd(terminal_execution(result)),
        ),
        _ => ExecutionStep::Finish,
    }
}

/// The end that is recorded is that of what was executed, after the execution was recorded as
/// running and had its turn, and nothing is done after that.
pub proof fn end_is_recorded_of_what_was_executed(
    step: ExecutionStep,
    history: Seq<ExecutionReply>,
)
    requires
        is_execution_step(step, history),
    ensures
        step matches ExecutionStep::Perform(ExecutionAction::RecordEnd(terminal)) ==> {
            &&& history.len() == 4
            &&& history[0] is Done
            &&& history[1] is Done
            &&& history[2] is Done
            &&& history[3] matches ExecutionReply::Executed(result) && terminal.told() == end_of(
                result,
            )
        },
        history.len() > 4 ==> step == ExecutionStep::Finish,
        step matches ExecutionStep::Perform(ExecutionAction::Execute) ==> history.len() == 3
            && forall|i: int| 0 <= i < 3 ==> #[trigger] history[i] is Done,
{
}

/// A success is recorded if and only if something was built, or was there, and its outputs can be
/// named. Everything else is recorded as a failure without outputs, which tells a build whose
/// outputs cannot be named from an execution that failed.
pub proof fn end_tells_the_result(result: ExecutionResult)
    ensures
        ({
            let (state, classification, metadata) = end_of(result);
            let named = result matches ExecutionResult::Built { outputs: Some(_), .. };
            &&& state is Succeeded <==> named
            &&& state is Failed <==> !named
            &&& named ==> classification@ == "succeeded"@
            &&& result is Failed ==> classification@ == "infrastructure-failure"@
            &&& !named && result is Built ==> classification@ == "output-failure"@
            &&& !named ==> metadata == "{}"@
        }),
{
}

/// The metadata of a success tells whether its outputs were built or were there already.
pub proof fn success_tells_how_it_came(
    outputs: Seq<(String, String)>,
    left: BuildStatus,
    right: BuildStatus,
)
    ensures
        success_json(left, outputs).len() == success_json(right, outputs).len() ==> left == right,
{
    reveal_strlit("built");
    reveal_strlit("already-valid");
    plain_text_is_written_as_it_is("built"@);
    plain_text_is_written_as_it_is("already-valid"@);
}

/// A text of plain characters is as long in JSON as it is, and its quotes.
proof fn plain_text_is_written_as_it_is(plain: Seq<char>)
    requires
        forall|i: int|
            0 <= i < plain.len() ==> crypto::json_character(#[trigger] plain[i]).len() == 1,
    ensures
        crypto::json_string(plain).len() == plain.len() + 2,
{
    single_parts_add_up(plain.map_values(|character: char| crypto::json_character(character)));
}

proof fn single_parts_add_up(parts: Seq<Seq<char>>)
    requires
        forall|i: int| 0 <= i < parts.len() ==> (#[trigger] parts[i]).len() == 1,
    ensures
        parts.flatten().len() == parts.len(),
    decreases parts.len(),
{
    if parts.len() > 0 {
        single_parts_add_up(parts.drop_first());
    }
}

/// An execution goes on as long as what was asked for it was done, one thing after the other, and
/// is left as soon as one could not be done.
pub proof fn execution_takes_its_course(step: ExecutionStep, history: Seq<ExecutionReply>)
    requires
        is_execution_step(step, history),
    ensures
        history.len() < 4 && (forall|i: int|
            0 <= i < history.len() ==> #[trigger] history[i] is Done) ==> {
            &&& history.len() == 0 ==> step == ExecutionStep::Perform(
                ExecutionAction::RecordRunning,
            )
            &&& history.len() == 1 ==> step == ExecutionStep::Perform(ExecutionAction::Prepare)
            &&& history.len() == 2 ==> step == ExecutionStep::Perform(ExecutionAction::TakeTurn)
            &&& history.len() == 3 ==> step == ExecutionStep::Perform(ExecutionAction::Execute)
        },
        history.len() == 4 && history[0] is Done && history[1] is Done && history[2] is Done
            && history[3] is Executed ==> {
            &&& step matches ExecutionStep::Perform(ExecutionAction::RecordEnd(terminal))
            &&& (terminal.state is Succeeded <==> history[3]->Executed_0 matches
                ExecutionResult::Built { outputs: Some(_), .. })
        },
        history.len() > 0 && history.len() < 4 && !(history.last() is Done) ==> step
            == ExecutionStep::Finish,
        history.len() == 4 && !(history[3] is Executed) ==> step == ExecutionStep::Finish,
{
}

} // verus!
