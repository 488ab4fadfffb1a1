//! What operations come to on the rows that they work on. A model says what statements do to
//! some of the rows while the database works; an operation runs by having its statements done.

pub mod attachments;
pub mod attempts;
pub mod builds;
pub mod courses;
pub mod dispatches;
pub mod executions;
pub mod lease_ends;
pub mod leases;
pub mod migrations;
pub mod nonces;
pub mod ownership;
pub mod queue;
pub mod recovery;
pub mod requests;

use crate::persistence::database::{Reply, Statement, Step};
use vstd::prelude::*;

verus! {

/// An operation has run to its end: the statements that it asked for were done one after the
/// other, each led from the rows before it to those after it as the model says, and the replies
/// are its history.
pub open spec fn ran<S, T, E>(
    operation: spec_fn(Seq<Reply>) -> Step<T, E>,
    model: spec_fn(S, Statement, Reply, S) -> bool,
    rows: Seq<S>,
    history: Seq<Reply>,
) -> bool {
    &&& rows.len() == history.len() + 1
    &&& forall|i: int|
        0 <= i < history.len() ==> {
            let step = operation(#[trigger] history.take(i));
            step is Perform && model(rows[i], step->Perform_0, history[i], rows[i + 1])
        }
    &&& operation(history) is Finish
}

/// Where an operation asks for a statement, it is done.
pub proof fn next_is_done<S, T, E>(
    operation: spec_fn(Seq<Reply>) -> Step<T, E>,
    model: spec_fn(S, Statement, Reply, S) -> bool,
    rows: Seq<S>,
    history: Seq<Reply>,
    place: int,
)
    requires
        ran(operation, model, rows, history),
        0 <= place <= history.len(),
        operation(history.take(place)) is Perform,
    ensures
        place < history.len(),
        model(
            rows[place],
            operation(history.take(place))->Perform_0,
            history[place],
            rows[place + 1],
        ),
{
    assert(history.take(history.len() as int) =~= history);
}

/// Where an operation ends, its history does.
pub proof fn end_is_reached<S, T, E>(
    operation: spec_fn(Seq<Reply>) -> Step<T, E>,
    model: spec_fn(S, Statement, Reply, S) -> bool,
    rows: Seq<S>,
    history: Seq<Reply>,
    place: int,
)
    requires
        ran(operation, model, rows, history),
        0 <= place <= history.len(),
        operation(history.take(place)) is Finish,
    ensures
        history.len() == place,
        operation(history) == operation(history.take(place)),
{
    assert(history.take(history.len() as int) =~= history);
}

} // verus!
