//! The course that the collection of outputs takes: each output comes in full before it is
//! acknowledged, and the build ends as the worker says.

use crate::fault::Fault;
use crate::nomad_callback_service::{
    self, BuildCollectionOutcome, BuildOutcome, BuildResultMetadata, Collecting, CollectionAction,
    CollectionEvent, NarMetadata, OutputImport, PathManifestEntry, Pending,
};
use crate::nomad_transfer_protocol::{FrameKind, Phase};
use vstd::prelude::*;

verus! {

/// A collection as it went: every event found it in a state, led to the next one and was answered
/// by an action.
pub open spec fn collected(
    states: Seq<Collecting>,
    events: Seq<CollectionEvent>,
    actions: Seq<CollectionAction>,
) -> bool {
    &&& states.len() == events.len() + 1
    &&& actions.len() == events.len()
    &&& forall|i: int|
        0 <= i < events.len() ==> nomad_callback_service::collection_step(
            states[i],
            #[trigger] events[i],
        ) == Ok::<(Collecting, CollectionAction), Fault>((states[i + 1], actions[i]))
}

/// A collection that waits for its first frame.
pub open spec fn is_fresh(state: Collecting) -> bool {
    &&& !state.collecting
    &&& state.current is None
    &&& state.pending == Pending::Frame
    &&& state.phase != Phase::Complete
}

/// How many bytes of NARs came with events.
pub open spec fn bytes_in(events: Seq<CollectionEvent>) -> int
    decreases events.len(),
{
    if events.len() == 0 {
        0
    } else {
        bytes_in(events.drop_last()) + match events.last() {
            CollectionEvent::OutputNar(_, length) => length as int,
            _ => 0,
        }
    }
}

/// A chunk belongs to an output.
pub open spec fn is_of(metadata: NarMetadata, entry: PathManifestEntry) -> bool {
    &&& metadata.path@ == entry.path@
    &&& metadata.nar_hash@ == entry.nar_hash@
    &&& metadata.nar_size == entry.nar_size
}

/// All chunks among events belong to an output, and each goes on where the one before it ended.
pub open spec fn are_chunks_of(events: Seq<CollectionEvent>, entry: PathManifestEntry) -> bool {
    forall|i: int|
        0 <= i < events.len() ==> match #[trigger] events[i] {
            CollectionEvent::OutputNar(Ok(metadata), length) => is_of(metadata, entry)
                && metadata.offset == bytes_in(events.take(i)) && length > 0,
            CollectionEvent::OutputNar(Err(_), _) => false,
            CollectionEvent::OutputMetadata(_) => false,
            _ => true,
        }
}

/// An output was announced at a place, and so much of it came since.
pub open spec fn came_since(
    events: Seq<CollectionEvent>,
    announced: int,
    import: OutputImport,
) -> bool {
    &&& 0 <= announced < events.len()
    &&& events[announced] == CollectionEvent::OutputMetadata(Ok(import.metadata))
    &&& are_chunks_of(events.skip(announced + 1), import.metadata)
    &&& bytes_in(events.skip(announced + 1)) == import.received
}

/// Where an output is being taken in, it was announced, and as much came of it as is counted.
proof fn counted_is_what_came(
    states: Seq<Collecting>,
    events: Seq<CollectionEvent>,
    actions: Seq<CollectionAction>,
)
    requires
        collected(states, events, actions),
        is_fresh(states[0]),
    ensures
        states.last().current is Some ==> exists|announced: int| #[trigger]
            came_since(events, announced, states.last().current->0),
        nomad_callback_service::collection_invariant(states.last()),
    decreases events.len(),
{
    if events.len() > 0 {
        let count = events.len() - 1;
        let earlier = events.drop_last();
        let before = states.drop_last();
        assert forall|i: int| 0 <= i < earlier.len() implies nomad_callback_service::collection_step(
            before[i],
            #[trigger] earlier[i],
        ) == Ok::<(Collecting, CollectionAction), Fault>(
            (before[i + 1], actions.drop_last()[i]),
        ) by {
            assert(earlier[i] == events[i]);
        }
        counted_is_what_came(before, earlier, actions.drop_last());
        let state = states[count];
        let event = events[count];
        assert(before.last() == state);
        assert(nomad_callback_service::collection_step(state, event) == Ok::<
            (Collecting, CollectionAction),
            Fault,
        >((states[count + 1], actions[count])));
        let after = states.last();
        if after.current is Some {
            if state.current is None {
                assert(event == CollectionEvent::OutputMetadata(Ok(after.current->0.metadata)));
                assert(events.skip(count + 1) =~= Seq::<CollectionEvent>::empty());
                assert(came_since(events, count, after.current->0));
            } else {
                let import = state.current->0;
                let announced = choose|announced: int| #[trigger]
                    came_since(earlier, announced, import);
                let rest = earlier.skip(announced + 1);
                let longer = events.skip(announced + 1);
                assert(longer.drop_last() =~= rest);
                assert(longer.last() == event);
                assert(after.current->0.metadata == import.metadata);
                assert(event !is OutputMetadata);
                assert forall|i: int| 0 <= i < longer.len() implies match #[trigger] longer[i] {
                    CollectionEvent::OutputNar(Ok(metadata), length) => is_of(
                        metadata,
                        import.metadata,
                    ) && metadata.offset == bytes_in(longer.take(i)) && length > 0,
                    CollectionEvent::OutputNar(Err(_), _) => false,
                    CollectionEvent::OutputMetadata(_) => false,
                    _ => true,
                } by {
                    if i < rest.len() {
                        assert(longer[i] == rest[i]);
                        assert(longer.take(i) =~= rest.take(i));
                    } else {
                        assert(longer.take(i) =~= rest);
                    }
                }
                assert(came_since(events, announced, after.current->0));
            }
        }
    }
}

/// An output is acknowledged only once all of it came: it was announced before, all the chunks since
/// are its own, each went on where the one before it ended, and together they are as long as its
/// NAR.
pub proof fn acknowledged_output_came_in_full(
    states: Seq<Collecting>,
    events: Seq<CollectionEvent>,
    actions: Seq<CollectionAction>,
)
    requires
        collected(states, events, actions),
        is_fresh(states[0]),
        events.len() > 0,
        actions.last() is SendReceipt,
    ensures
        events.last() == CollectionEvent::Imported(Ok(true)),
        actions.last()->SendReceipt_0.accepted,
        exists|announced: int, entry: PathManifestEntry|
            #![trigger events[announced], entry.path]
            0 <= announced < events.len() && events[announced] == CollectionEvent::OutputMetadata(
                Ok(entry),
            ) && entry.path == actions.last()->SendReceipt_0.path && are_chunks_of(
                events.skip(announced + 1),
                entry,
            ) && bytes_in(events.skip(announced + 1)) == entry.nar_size,
{
    let count = events.len() - 1;
    let earlier = events.drop_last();
    let before = states.drop_last();
    assert forall|i: int| 0 <= i < earlier.len() implies nomad_callback_service::collection_step(
        before[i],
        #[trigger] earlier[i],
    ) == Ok::<(Collecting, CollectionAction), Fault>((before[i + 1], actions.drop_last()[i])) by {
        assert(earlier[i] == events[i]);
    }
    counted_is_what_came(before, earlier, actions.drop_last());
    assert(nomad_callback_service::collection_step(states[count], events[count]) == Ok::<
        (Collecting, CollectionAction),
        Fault,
    >((states[count + 1], actions[count])));
    let import = states[count].current->0;
    let entry = import.metadata;
    let announced = choose|announced: int| #[trigger] came_since(earlier, announced, import);
    let rest = earlier.skip(announced + 1);
    let longer = events.skip(announced + 1);
    assert(longer.drop_last() =~= rest);
    assert(longer.last() == events[count]);
    assert forall|i: int| 0 <= i < longer.len() implies match #[trigger] longer[i] {
        CollectionEvent::OutputNar(Ok(metadata), length) => is_of(metadata, entry)
            && metadata.offset == bytes_in(longer.take(i)) && length > 0,
        CollectionEvent::OutputNar(Err(_), _) => false,
        CollectionEvent::OutputMetadata(_) => false,
        _ => true,
    } by {
        if i < rest.len() {
            assert(longer[i] == rest[i]);
            assert(longer.take(i) =~= rest.take(i));
        }
    }
    assert(events[announced] == earlier[announced]);
    assert(are_chunks_of(longer, entry));
    assert(entry.path == actions.last()->SendReceipt_0.path);
}

/// A collection ends as the worker said: with its failure and its diagnostic where it reported one,
/// and as built where it did not and the store then held every output.
pub proof fn collection_ends_as_reported(
    states: Seq<Collecting>,
    events: Seq<CollectionEvent>,
    actions: Seq<CollectionAction>,
)
    requires
        collected(states, events, actions),
        is_fresh(states[0]),
        events.len() > 0,
        actions.last() is Finish,
    ensures
        match actions.last()->Finish_0 {
            BuildCollectionOutcome::Failed { diagnostic } => events.last()
                matches CollectionEvent::BuildResult(Ok(result)) && result.outcome
                == BuildOutcome::Failed && result.diagnostic == diagnostic,
            BuildCollectionOutcome::Built => {
                &&& events.len() >= 2
                &&& events.last() == CollectionEvent::Verified(Ok(true))
                &&& events[events.len() - 2] matches CollectionEvent::BuildResult(Ok(result))
                    && result.outcome != BuildOutcome::Failed
            },
        },
{
    let count = events.len() - 1;
    assert(nomad_callback_service::collection_step(states[count], events[count]) == Ok::<
        (Collecting, CollectionAction),
        Fault,
    >((states[count + 1], actions[count])));
    if actions.last()->Finish_0 is Built {
        assert(states[count].pending == Pending::Verification);
        assert(count > 0);
        assert(nomad_callback_service::collection_step(states[count - 1], events[count - 1]) == Ok::<
            (Collecting, CollectionAction),
            Fault,
        >((states[count], actions[count - 1])));
    }
}

/// A result of the worker is taken where no output is on its way and outputs are collected: with a
/// failure the collection ends as failed with the diagnostic of the worker; else the outputs are to
/// be verified, and where the store holds them all, the collection ends as built, and else fails.
pub proof fn reported_result_is_taken(before: Collecting, result: BuildResultMetadata, held: bool)
    requires
        before.pending == Pending::Frame,
        before.phase == Phase::CollectingOutputs,
        before.current is None,
    ensures
        nomad_callback_service::collection_step(
            before,
            CollectionEvent::Frame(FrameKind::BuildResult),
        ) matches Ok((reading, asked)) && asked == CollectionAction::ReadBuildResult && {
            let taken = nomad_callback_service::collection_step(
                reading,
                CollectionEvent::BuildResult(Ok(result)),
            );
            if result.outcome == BuildOutcome::Failed {
                taken matches Ok((_, action)) && action == CollectionAction::Finish(
                    BuildCollectionOutcome::Failed { diagnostic: result.diagnostic },
                )
            } else {
                taken matches Ok((verifying, action)) && action == CollectionAction::VerifyOutputs
                    && {
                    let verified = nomad_callback_service::collection_step(
                        verifying,
                        CollectionEvent::Verified(Ok(held)),
                    );
                    if held {
                        verified matches Ok((_, last)) && last == CollectionAction::Finish(
                            BuildCollectionOutcome::Built,
                        )
                    } else {
                        verified is Err
                    }
                }
            }
        },
{
}

/// An output that is announced is taken in, and before the first one the build is marked as
/// collecting, once.
pub proof fn announced_output_is_taken_in(before: Collecting, entry: PathManifestEntry)
    requires
        before.pending == Pending::Frame,
        before.phase == Phase::Building || before.phase == Phase::CollectingOutputs,
        before.current is None,
    ensures
        nomad_callback_service::collection_step(
            before,
            CollectionEvent::Frame(FrameKind::OutputMetadata),
        ) matches Ok((announced, asked)) && {
            let reading = nomad_callback_service::collection_step(
                announced,
                CollectionEvent::Collected(true),
            );
            let marked = if before.collecting {
                announced
            } else {
                (reading->Ok_0).0
            };
            &&& if before.collecting {
                asked == CollectionAction::ReadOutputMetadata
            } else {
                &&& asked == CollectionAction::MarkCollecting
                &&& reading matches Ok((_, next)) && next == CollectionAction::ReadOutputMetadata
                &&& nomad_callback_service::collection_step(
                    announced,
                    CollectionEvent::Collected(false),
                ) is Err
            }
            &&& marked.collecting
            &&& nomad_callback_service::collection_step(
                marked,
                CollectionEvent::OutputMetadata(Ok(entry)),
            ) matches Ok((taking, action)) && action == CollectionAction::ReadFrame && {
                &&& taking.collecting
                &&& taking.phase == Phase::CollectingOutputs
                &&& taking.pending == Pending::Frame
                &&& taking.current == Some(OutputImport { metadata: entry, received: 0 })
            }
        },
{
}

/// A chunk that goes on where the output stands is kept, and with the last one, where it makes the
/// NAR full, the output is added to the store; once the store holds it, it is acknowledged, and else
/// the collection fails.
pub proof fn next_chunk_is_kept(
    before: Collecting,
    import: OutputImport,
    metadata: NarMetadata,
    length: usize,
    held: bool,
)
    requires
        before.pending == Pending::Frame,
        before.phase == Phase::CollectingOutputs,
        before.current == Some(import),
        is_of(metadata, import.metadata),
        metadata.offset == import.received,
        length > 0,
        import.received + length <= u64::MAX,
    ensures
        nomad_callback_service::collection_step(
            before,
            CollectionEvent::Frame(FrameKind::OutputNar),
        ) matches Ok((reading, asked)) && asked == CollectionAction::ReadOutputNar && {
            let kept = nomad_callback_service::collection_step(
                reading,
                CollectionEvent::OutputNar(Ok(metadata), length),
            );
            let longer = OutputImport {
                metadata: import.metadata,
                received: (import.received + length) as u64,
            };
            if !metadata.final_chunk {
                kept matches Ok((after, action)) && action == CollectionAction::KeepPayload
                    && after.current == Some(longer) && after.pending == Pending::Frame
            } else if import.received + length != import.metadata.nar_size {
                kept is Err
            } else {
                kept matches Ok((full, action)) && action == CollectionAction::ImportOutput && {
                    let imported = nomad_callback_service::collection_step(
                        full,
                        CollectionEvent::Imported(Ok(held)),
                    );
                    if held {
                        imported matches Ok((after, answer)) && {
                            &&& answer matches CollectionAction::SendReceipt(receipt)
                                && receipt.path == import.metadata.path && receipt.accepted
                            &&& after.current is None
                            &&& after.pending == Pending::Frame
                        }
                    } else {
                        imported is Err
                    }
                }
            }
        },
{
}

/// A chunk that does not go on where the output stands is refused.
pub proof fn stray_chunk_is_refused(before: Collecting, metadata: NarMetadata, length: usize)
    requires
        before.pending == Pending::OutputNar,
        before.current is None || !is_of(metadata, before.current->0.metadata) || metadata.offset
            != before.current->0.received || length == 0,
    ensures
        nomad_callback_service::collection_step(
            before,
            CollectionEvent::OutputNar(Ok(metadata), length),
        ) is Err,
{
}

/// While an output is on its way, neither another one nor a result is taken.
pub proof fn outputs_come_one_after_the_other(before: Collecting)
    requires
        before.pending == Pending::Frame,
        before.current is Some,
    ensures
        nomad_callback_service::collection_step(
            before,
            CollectionEvent::Frame(FrameKind::OutputMetadata),
        ) is Err,
        nomad_callback_service::collection_step(
            before,
            CollectionEvent::Frame(FrameKind::BuildResult),
        ) is Err,
{
}

} // verus!
