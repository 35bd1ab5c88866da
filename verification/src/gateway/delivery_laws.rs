//! What a delivery orders, told by what was reported to it and by nothing else.

use crate::gateway::delivery::{
    after, invalid_index_text, is_run, only_a_checkpoint_moves_on, told, Delivery, DeliveryAction, DeliveryEnd, DeliveryEvent, DeliveryOutcome,
    DeliveryStage, DeliveryStatus, Pause, Persistence,
};
use crate::number::{decimal, signed_decimal};
use vstd::prelude::*;

verus! {

/// How many chunks were checkpointed in a series of reports.
pub open spec fn checkpoints(events: Seq<DeliveryEvent>) -> nat
    decreases events.len(),
{
    if events.len() == 0 {
        0
    } else if events.last() == DeliveryEvent::Checkpointed(true) {
        checkpoints(events.drop_last()) + 1
    } else {
        checkpoints(events.drop_last())
    }
}

/// How many chunks the reply had when it was last split.
pub open spec fn chunk_count(events: Seq<DeliveryEvent>) -> nat
    decreases events.len(),
{
    if events.len() == 0 {
        0
    } else {
        match events.last() {
            DeliveryEvent::ContentSplit(count) => count as nat,
            _ => chunk_count(events.drop_last()),
        }
    }
}

/// Which attempt of its batch is under way, where a batch has this many.
pub open spec fn attempt_of(batch: nat, events: Seq<DeliveryEvent>) -> nat
    decreases events.len(),
{
    if events.len() == 0 {
        1
    } else if events.last() is Paused {
        let before = attempt_of(batch, events.drop_last());
        if before < batch {
            before + 1
        } else {
            1
        }
    } else {
        attempt_of(batch, events.drop_last())
    }
}

/// Whether a delivery has just begun.
pub open spec fn is_fresh(start: Delivery) -> bool {
    start.stage is Splitting && start.attempt == 1 && start.count == 0 && start.wf()
}

/// What is known of a delivery from the reports that it got.
proof fn reports_tell_delivery(start: Delivery, events: Seq<DeliveryEvent>)
    requires
        is_fresh(start),
        is_run(start, events),
    ensures
        ({
            let now = after(start, events);
            &&& now.wf()
            &&& now.persistence == start.persistence && now.speak == start.speak
            &&& now.index == start.index + checkpoints(events)
            &&& now.count == chunk_count(events)
            &&& now.stage is Marking ==> events.len() > 0 && (now.stage
                == DeliveryStage::Marking(DeliveryStatus::Failed) <==> events.last()
                == DeliveryEvent::ChunkSent(false))
            &&& now.persistence matches Persistence::UntilDelivered(batch) ==> {
                &&& attempt_of(batch as nat, events) >= 1
                &&& if now.stage is Pausing && now.attempt == 0 {
                    attempt_of(batch as nat, events) >= batch
                } else {
                    now.attempt == attempt_of(batch as nat, events)
                }
            }
        }),
    decreases events.len(),
{
    if events.len() > 0 {
        let front = events.drop_last();
        reports_tell_delivery(start, front);
        assert(after(start, front).awaits(events.last()));
        only_a_checkpoint_moves_on(after(start, front), events.last());
    }
}

/// What a delivery orders. Chunks go out one by one from the stored index on, each is checkpointed
/// once it is sent, and the reply is stored as delivered once none is left. A chunk that does not
/// get through is stored as a failure; the one attempt that was asked for ends with it, and
/// otherwise the next attempt splits the reply anew after a pause, which is longer after the last
/// attempt of a batch. A reply that is delivered is spoken where that was asked for.
pub proof fn orders_of_a_delivery(start: Delivery, events: Seq<DeliveryEvent>)
    requires
        events.len() > 0,
        is_fresh(start),
        is_run(start, events),
    ensures
        ({
            let index = start.index + checkpoints(events);
            let count = chunk_count(events);
            let action = told(start, events);
            match events.last() {
                DeliveryEvent::ContentSplit(_) if index > count => action == DeliveryAction::Finish(
                    DeliveryEnd::InvalidIndex,
                ),
                DeliveryEvent::ContentSplit(_)
                | DeliveryEvent::Checkpointed(true) => if index < count {
                    action == DeliveryAction::SendChunk(index as usize)
                } else {
                    action == DeliveryAction::Mark(DeliveryStatus::Delivered)
                },
                DeliveryEvent::ChunkSent(true) => action == DeliveryAction::Checkpoint(
                    (index + 1) as usize,
                ) && index < count,
                DeliveryEvent::ChunkSent(false) => action == DeliveryAction::Mark(
                    DeliveryStatus::Failed,
                ),
                DeliveryEvent::Checkpointed(false)
                | DeliveryEvent::Marked(false) => action == DeliveryAction::Finish(
                    DeliveryEnd::HistoryFailed,
                ),
                DeliveryEvent::Marked(true) => if events.drop_last().last()
                    == DeliveryEvent::ChunkSent(false) {
                    match start.persistence {
                        Persistence::Once => action == DeliveryAction::Finish(
                            DeliveryEnd::NotDelivered,
                        ),
                        Persistence::UntilDelivered(batch) => action
                            == DeliveryAction::AuditFailureAndPause(
                            if attempt_of(batch as nat, events) < batch {
                                Pause::Retry
                            } else {
                                Pause::Exhausted
                            },
                        ),
                    }
                } else if start.speak && start.persistence !is Once {
                    action is Speak
                } else {
                    action == DeliveryAction::Finish(
                        DeliveryEnd::Reached(DeliveryOutcome::Delivered),
                    )
                },
                DeliveryEvent::Spoken => action == DeliveryAction::Finish(
                    DeliveryEnd::Reached(DeliveryOutcome::Delivered),
                ),
                DeliveryEvent::Paused => action is SplitContent,
            }
        }),
{
    reports_tell_delivery(start, events.drop_last());
    reports_tell_delivery(start, events);
}

/// Whether a report answers an action.
pub open spec fn reports_on(action: DeliveryAction, event: DeliveryEvent) -> bool {
    match event {
        DeliveryEvent::ContentSplit(_) => action is SplitContent,
        DeliveryEvent::ChunkSent(_) => action is SendChunk,
        DeliveryEvent::Checkpointed(_) => action is Checkpoint,
        DeliveryEvent::Marked(_) => action is Mark,
        DeliveryEvent::Spoken => action is Speak,
        DeliveryEvent::Paused => action is AuditFailureAndPause,
    }
}

/// A delivery waits for the reports on what the driver was told to do, and for no others; at first
/// it waits for the reply to be split.
pub proof fn a_delivery_waits_for_reports_on_its_action(
    delivery: Delivery,
    event: DeliveryEvent,
    next: DeliveryEvent,
)
    ensures
        delivery.awaits(event) ==> (delivery.next(event).0.awaits(next) <==> reports_on(
            delivery.next(event).1,
            next,
        )),
        is_fresh(delivery) ==> (delivery.awaits(next) <==> next is ContentSplit),
{
}

/// An index past the chunks is told with the reply, the index and the number of chunks.
pub proof fn an_invalid_index_is_told(id: int, index: nat, count: nat)
    ensures
        invalid_index_text(id, index, count) == "outbound "@ + signed_decimal(id)
            + " has invalid delivery chunk index "@ + decimal(index) + " for "@ + decimal(count)
            + " chunks"@,
{
}

} // verus!
