//! Delivery of one recorded reply, chunk by chunk.
//!
//! A `Delivery` decides what is done next; its driver does it and reports back. Every chunk is
//! checkpointed once it has been sent, so that a later attempt goes on where the last one stopped.

use crate::number::{decimal, signed_decimal, write_signed, write_unsigned};
use vstd::prelude::*;

verus! {

/// What the history says of a recorded reply.
#[derive(Debug, Clone, Copy, PartialEq, Eq, Structural)]
pub enum DeliveryStatus {
    Pending,
    Delivered,
    Failed,
}

/// How a delivery that reached the channel came about.
#[derive(Debug, Clone, Copy, PartialEq, Eq, Structural)]
pub enum DeliveryOutcome {
    Delivered,
    AlreadyDelivered,
}

/// How a delivery ends.
#[derive(Debug, Clone, Copy, PartialEq, Eq, Structural)]
pub enum DeliveryEnd {
    /// The whole reply is with the channel.
    Reached(DeliveryOutcome),
    /// The one attempt that was asked for did not get through.
    NotDelivered,
    /// The stored chunk index lies past the chunks of the reply.
    InvalidIndex,
    /// The history refused a checkpoint or a status.
    HistoryFailed,
}

/// How long to wait before the next attempt.
#[derive(Debug, Clone, Copy, PartialEq, Eq, Structural)]
pub enum Pause {
    /// The delay between two attempts of one batch.
    Retry,
    /// The longer delay once a batch of attempts is used up.
    Exhausted,
}

/// What the driver does next.
#[derive(Debug, Clone, Copy, PartialEq, Eq, Structural)]
pub enum DeliveryAction {
    /// Split the reply and report how many chunks there are.
    SplitContent,
    /// Send the chunk of this index.
    SendChunk(usize),
    /// Store that the chunks before this index are sent.
    Checkpoint(usize),
    /// Store the status.
    Mark(DeliveryStatus),
    /// Synthesize and send the reply as voice; failing at it changes nothing.
    Speak,
    /// Audit the failed attempt, then wait.
    AuditFailureAndPause(Pause),
    /// Stop.
    Finish(DeliveryEnd),
}

/// What the driver reports.
#[derive(Debug, Clone, Copy, PartialEq, Eq, Structural)]
pub enum DeliveryEvent {
    ContentSplit(usize),
    ChunkSent(bool),
    Checkpointed(bool),
    Marked(bool),
    Spoken,
    Paused,
}

/// What a delivery waits for.
#[derive(Debug, Clone, Copy, PartialEq, Eq, Structural)]
pub enum DeliveryStage {
    Splitting,
    Sending,
    Checkpointing,
    Marking(DeliveryStatus),
    Speaking,
    Pausing,
    Ended,
}

/// How hard to try.
#[derive(Debug, Clone, Copy, PartialEq, Eq, Structural)]
pub enum Persistence {
    /// Attempts in batches of this many, without end.
    UntilDelivered(u32),
    /// One attempt, as control-path replies want it: a channel outage cannot block the caller.
    Once,
}

/// A delivery under way.
#[derive(Debug, Clone, Copy, PartialEq, Eq, Structural)]
pub struct Delivery {
    /// The chunk to send next; those before it are sent and checkpointed.
    pub index: usize,
    /// How many chunks the reply has, once it is split.
    pub count: usize,
    /// The number of the attempt within its batch.
    pub attempt: u32,
    pub persistence: Persistence,
    /// Whether the reply is spoken too once it is delivered.
    pub speak: bool,
    pub stage: DeliveryStage,
}

impl Delivery {
    /// What holds of every delivery that `begin` and `step` give.
    pub open spec fn wf(self) -> bool {
        &&& self.stage is Sending || self.stage is Checkpointing ==> self.index < self.count
        &&& self.stage is Marking ==> self.index <= self.count && self.stage->Marking_0
            !is Pending && (self.stage->Marking_0 is Delivered <==> self.index == self.count)
        &&& match self.persistence {
            Persistence::UntilDelivered(retries) => self.attempt <= 1 || self.attempt <= retries,
            Persistence::Once => self.attempt <= 1 && self.stage !is Pausing,
        }
        &&& self.stage is Pausing ==> match self.persistence {
            Persistence::UntilDelivered(retries) => self.attempt == 0 || self.attempt < retries,
            Persistence::Once => false,
        }
        &&& self.stage is Speaking ==> self.speak && self.persistence !is Once && self.index
            == self.count
    }

    /// Whether the delivery waits for a report of this kind.
    pub open spec fn awaits(self, event: DeliveryEvent) -> bool {
        match event {
            DeliveryEvent::ContentSplit(_) => self.stage is Splitting,
            DeliveryEvent::ChunkSent(_) => self.stage is Sending,
            DeliveryEvent::Checkpointed(_) => self.stage is Checkpointing,
            DeliveryEvent::Marked(_) => self.stage is Marking,
            DeliveryEvent::Spoken => self.stage is Speaking,
            DeliveryEvent::Paused => self.stage is Pausing,
        }
    }

    /// The delivery and its action at a stage.
    pub open spec fn at(self, stage: DeliveryStage, action: DeliveryAction) -> (
        Delivery,
        DeliveryAction,
    ) {
        (Delivery { stage, ..self }, action)
    }

    /// The delivery at its end.
    pub open spec fn ended(self, end: DeliveryEnd) -> (Delivery, DeliveryAction) {
        self.at(DeliveryStage::Ended, DeliveryAction::Finish(end))
    }

    /// The delivery about to send the next chunk, or to store that there is none left.
    pub open spec fn send_next(self) -> (Delivery, DeliveryAction) {
        if self.index < self.count {
            self.at(DeliveryStage::Sending, DeliveryAction::SendChunk(self.index))
        } else {
            self.at(
                DeliveryStage::Marking(DeliveryStatus::Delivered),
                DeliveryAction::Mark(DeliveryStatus::Delivered),
            )
        }
    }

    /// What comes after the status was stored.
    pub open spec fn after_mark(self, status: DeliveryStatus) -> (Delivery, DeliveryAction) {
        match (status, self.persistence) {
            (DeliveryStatus::Delivered, Persistence::UntilDelivered(_)) => if self.speak {
                self.at(DeliveryStage::Speaking, DeliveryAction::Speak)
            } else {
                self.ended(DeliveryEnd::Reached(DeliveryOutcome::Delivered))
            },
            (DeliveryStatus::Delivered, Persistence::Once) => self.ended(
                DeliveryEnd::Reached(DeliveryOutcome::Delivered),
            ),
            (_, Persistence::Once) => self.ended(DeliveryEnd::NotDelivered),
            (_, Persistence::UntilDelivered(retries)) => if self.attempt < retries {
                self.at(
                    DeliveryStage::Pausing,
                    DeliveryAction::AuditFailureAndPause(Pause::Retry),
                )
            } else {
                (Delivery { attempt: 0, ..self }).at(
                    DeliveryStage::Pausing,
                    DeliveryAction::AuditFailureAndPause(Pause::Exhausted),
                )
            },
        }
    }

    /// The delivery after a report, and what to do next.
    pub open spec fn next(self, event: DeliveryEvent) -> (Delivery, DeliveryAction) {
        match event {
            DeliveryEvent::ContentSplit(count) => {
                let split = Delivery { count, ..self };
                if self.index > count {
                    split.ended(DeliveryEnd::InvalidIndex)
                } else {
                    split.send_next()
                }
            },
            DeliveryEvent::ChunkSent(true) => self.at(
                DeliveryStage::Checkpointing,
                DeliveryAction::Checkpoint((self.index + 1) as usize),
            ),
            DeliveryEvent::ChunkSent(false) => self.at(
                DeliveryStage::Marking(DeliveryStatus::Failed),
                DeliveryAction::Mark(DeliveryStatus::Failed),
            ),
            DeliveryEvent::Checkpointed(true) => (Delivery {
                index: (self.index + 1) as usize,
                ..self
            }).send_next(),
            DeliveryEvent::Marked(true) => self.after_mark(self.stage->Marking_0),
            DeliveryEvent::Checkpointed(false) | DeliveryEvent::Marked(false) => self.ended(
                DeliveryEnd::HistoryFailed,
            ),
            DeliveryEvent::Spoken => self.ended(DeliveryEnd::Reached(DeliveryOutcome::Delivered)),
            DeliveryEvent::Paused => (Delivery {
                attempt: (self.attempt + 1) as u32,
                ..self
            }).at(DeliveryStage::Splitting, DeliveryAction::SplitContent),
        }
    }

    /// Starts the delivery of a reply that the history holds with this status and with this many
    /// chunks sent. It is also spoken where a spoken reply is wanted, the gateway has a voice, and
    /// the delivery is not tried only once.
    pub fn begin(
        status: DeliveryStatus,
        index: usize,
        persistence: Persistence,
        wants_voice: bool,
        has_voice: bool,
    ) -> (begun: (Delivery, DeliveryAction))
        ensures
            begun.0.wf(),
            begun.0.index == index,
            begun.0.persistence == persistence,
            status is Delivered ==> begun.0.stage is Ended && begun.1 == DeliveryAction::Finish(
                DeliveryEnd::Reached(DeliveryOutcome::AlreadyDelivered),
            ),
            status !is Delivered ==> begun.0 == (Delivery {
                index,
                count: 0,
                attempt: 1,
                persistence,
                speak: wants_voice && has_voice && persistence !is Once,
                stage: DeliveryStage::Splitting,
            }) && begun.1 == DeliveryAction::SplitContent,
    {
        let once = matches!(persistence, Persistence::Once);
        let mut delivery = Delivery {
            index,
            count: 0,
            attempt: 1,
            persistence,
            speak: wants_voice && has_voice && !once,
            stage: DeliveryStage::Splitting,
        };
        if status == DeliveryStatus::Delivered {
            delivery.stage = DeliveryStage::Ended;
            (
                delivery,
                DeliveryAction::Finish(DeliveryEnd::Reached(DeliveryOutcome::AlreadyDelivered)),
            )
        } else {
            (delivery, DeliveryAction::SplitContent)
        }
    }

    /// Whether the delivery waits for a report of this kind.
    pub fn is_awaiting(&self, event: &DeliveryEvent) -> (yes: bool)
        ensures
            yes == self.awaits(*event),
    {
        match event {
            DeliveryEvent::ContentSplit(_) => matches!(self.stage, DeliveryStage::Splitting),
            DeliveryEvent::ChunkSent(_) => matches!(self.stage, DeliveryStage::Sending),
            DeliveryEvent::Checkpointed(_) => matches!(self.stage, DeliveryStage::Checkpointing),
            DeliveryEvent::Marked(_) => matches!(self.stage, DeliveryStage::Marking(_)),
            DeliveryEvent::Spoken => matches!(self.stage, DeliveryStage::Speaking),
            DeliveryEvent::Paused => matches!(self.stage, DeliveryStage::Pausing),
        }
    }

    fn move_to(&mut self, stage: DeliveryStage, action: DeliveryAction) -> (next: DeliveryAction)
        ensures
            (*final(self), next) == old(self).at(stage, action),
    {
        self.stage = stage;
        action
    }

    fn send_or_mark(&mut self) -> (action: DeliveryAction)
        ensures
            (*final(self), action) == old(self).send_next(),
    {
        if self.index < self.count {
            let index: usize = self.index;
            self.move_to(DeliveryStage::Sending, DeliveryAction::SendChunk(index))
        } else {
            self.move_to(
                DeliveryStage::Marking(DeliveryStatus::Delivered),
                DeliveryAction::Mark(DeliveryStatus::Delivered),
            )
        }
    }

    fn go_on_after_mark(&mut self, status: DeliveryStatus) -> (action: DeliveryAction)
        ensures
            (*final(self), action) == old(self).after_mark(status),
    {
        let delivered = matches!(status, DeliveryStatus::Delivered);
        match self.persistence {
            Persistence::UntilDelivered(retries) => {
                if delivered {
                    if self.speak {
                        self.move_to(DeliveryStage::Speaking, DeliveryAction::Speak)
                    } else {
                        self.move_to(
                            DeliveryStage::Ended,
                            DeliveryAction::Finish(
                                DeliveryEnd::Reached(DeliveryOutcome::Delivered),
                            ),
                        )
                    }
                } else if self.attempt < retries {
                    self.move_to(
                        DeliveryStage::Pausing,
                        DeliveryAction::AuditFailureAndPause(Pause::Retry),
                    )
                } else {
                    self.attempt = 0;
                    self.move_to(
                        DeliveryStage::Pausing,
                        DeliveryAction::AuditFailureAndPause(Pause::Exhausted),
                    )
                }
            },
            Persistence::Once => {
                let end = if delivered {
                    DeliveryEnd::Reached(DeliveryOutcome::Delivered)
                } else {
                    DeliveryEnd::NotDelivered
                };
                self.move_to(DeliveryStage::Ended, DeliveryAction::Finish(end))
            },
        }
    }

    /// Takes a report and decides what is done next.
    pub fn step(&mut self, event: DeliveryEvent) -> (action: DeliveryAction)
        requires
            old(self).wf(),
            old(self).awaits(event),
        ensures
            (*final(self), action) == old(self).next(event),
            final(self).wf(),
    {
        match event {
            DeliveryEvent::ContentSplit(count) => {
                self.count = count;
                if self.index > count {
                    self.move_to(
                        DeliveryStage::Ended,
                        DeliveryAction::Finish(DeliveryEnd::InvalidIndex),
                    )
                } else {
                    self.send_or_mark()
                }
            },
            DeliveryEvent::ChunkSent(sent) => {
                if sent {
                    let next: usize = self.index + 1;
                    self.move_to(DeliveryStage::Checkpointing, DeliveryAction::Checkpoint(next))
                } else {
                    self.move_to(
                        DeliveryStage::Marking(DeliveryStatus::Failed),
                        DeliveryAction::Mark(DeliveryStatus::Failed),
                    )
                }
            },
            DeliveryEvent::Checkpointed(stored) => {
                if stored {
                    self.index = self.index + 1;
                    self.send_or_mark()
                } else {
                    self.move_to(
                        DeliveryStage::Ended,
                        DeliveryAction::Finish(DeliveryEnd::HistoryFailed),
                    )
                }
            },
            DeliveryEvent::Marked(stored) => {
                if stored {
                    let status = match self.stage {
                        DeliveryStage::Marking(status) => status,
                        _ => DeliveryStatus::Failed,
                    };
                    self.go_on_after_mark(status)
                } else {
                    self.move_to(
                        DeliveryStage::Ended,
                        DeliveryAction::Finish(DeliveryEnd::HistoryFailed),
                    )
                }
            },
            DeliveryEvent::Spoken => self.move_to(
                DeliveryStage::Ended,
                DeliveryAction::Finish(DeliveryEnd::Reached(DeliveryOutcome::Delivered)),
            ),
            DeliveryEvent::Paused => {
                self.attempt = self.attempt + 1;
                self.move_to(DeliveryStage::Splitting, DeliveryAction::SplitContent)
            },
        }
    }
}

/// The delivery after a series of reports.
pub open spec fn after(start: Delivery, events: Seq<DeliveryEvent>) -> Delivery
    decreases events.len(),
{
    if events.len() == 0 {
        start
    } else {
        after(start, events.drop_last()).next(events.last()).0
    }
}

/// What the driver is told after a series of reports.
pub open spec fn told(start: Delivery, events: Seq<DeliveryEvent>) -> DeliveryAction {
    after(start, events.drop_last()).next(events.last()).1
}

/// Whether every report of the series was waited for.
pub open spec fn is_run(start: Delivery, events: Seq<DeliveryEvent>) -> bool
    decreases events.len(),
{
    events.len() == 0 || (is_run(start, events.drop_last()) && after(
        start,
        events.drop_last(),
    ).awaits(events.last()))
}

/// A report moves the chunk index on by one where it says that a sent chunk is checkpointed, and
/// by nothing else; the chunk that is sent is always the one at the index.
pub proof fn only_a_checkpoint_moves_on(delivery: Delivery, event: DeliveryEvent)
    requires
        delivery.wf(),
        delivery.awaits(event),
    ensures
        delivery.next(event).0.index == delivery.index + (if event
            == DeliveryEvent::Checkpointed(true) {
            1int
        } else {
            0
        }),
        delivery.next(event).1 matches DeliveryAction::SendChunk(sent) ==> sent == delivery.next(
            event,
        ).0.index && sent < delivery.next(event).0.count,
        delivery.next(event).1 matches DeliveryAction::Checkpoint(stored) ==> event
            == DeliveryEvent::ChunkSent(true) && stored == delivery.index + 1,
        delivery.next(event).0.wf(),
{
}

/// Every delivery that is driven as asked stays well-formed and keeps its chunk index, or moves
/// it on.
pub proof fn a_run_never_moves_back(start: Delivery, events: Seq<DeliveryEvent>, early: int)
    requires
        start.wf(),
        is_run(start, events),
        0 <= early <= events.len(),
    ensures
        after(start, events).wf(),
        after(start, events.take(early)).index <= after(start, events).index,
    decreases events.len(),
{
    if early == events.len() {
        assert(events.take(early) == events);
        if events.len() > 0 {
            a_run_never_moves_back(start, events.drop_last(), early - 1);
            only_a_checkpoint_moves_on(after(start, events.drop_last()), events.last());
        }
    } else {
        assert(events.drop_last().take(early) == events.take(early));
        a_run_never_moves_back(start, events.drop_last(), early);
        only_a_checkpoint_moves_on(after(start, events.drop_last()), events.last());
    }
}

/// A chunk that is checkpointed is not sent again, in this attempt or a later one.
pub proof fn checkpointed_chunks_are_not_sent_again(
    start: Delivery,
    events: Seq<DeliveryEvent>,
    early: int,
)
    requires
        start.wf(),
        is_run(start, events),
        0 <= early < events.len(),
    ensures
        told(start, events) matches DeliveryAction::SendChunk(sent) ==> sent >= after(
            start,
            events.take(early),
        ).index,
{
    a_run_never_moves_back(start, events, early);
    a_run_never_moves_back(start, events.drop_last(), 0);
    only_a_checkpoint_moves_on(after(start, events.drop_last()), events.last());
}

/// A reply is stored as delivered, and reported as delivered, only when every chunk of it is sent
/// and checkpointed.
pub proof fn delivered_means_every_chunk(start: Delivery, events: Seq<DeliveryEvent>)
    requires
        start.wf(),
        events.len() > 0,
        is_run(start, events),
    ensures
        told(start, events) == DeliveryAction::Mark(DeliveryStatus::Delivered) || told(
            start,
            events,
        ) == DeliveryAction::Finish(DeliveryEnd::Reached(DeliveryOutcome::Delivered)) ==> after(
            start,
            events,
        ).index == after(start, events).count,
{
    a_run_never_moves_back(start, events.drop_last(), 0);
}

/// A delivery that is not limited to one attempt gives up only where the history fails it or the
/// stored chunk index is invalid; a batch is never longer than the attempts that are allowed,
/// or than one attempt where none is.
pub proof fn delivery_is_retried_in_batches(start: Delivery, events: Seq<DeliveryEvent>)
    requires
        start.wf(),
        start.persistence is UntilDelivered,
        is_run(start, events),
    ensures
        after(start, events).persistence == start.persistence,
        after(start, events).attempt <= 1 || after(start, events).attempt
            <= start.persistence->UntilDelivered_0,
        events.len() > 0 ==> told(start, events) != DeliveryAction::Finish(
            DeliveryEnd::NotDelivered,
        ),
    decreases events.len(),
{
    a_run_never_moves_back(start, events, 0);
    if events.len() > 0 {
        delivery_is_retried_in_batches(start, events.drop_last());
    }
}

/// The message for a stored chunk index that lies past the chunks of the reply.
pub open spec fn invalid_index_text(id: int, index: nat, count: nat) -> Seq<char> {
    "outbound "@ + signed_decimal(id) + " has invalid delivery chunk index "@ + decimal(index)
        + " for "@ + decimal(count) + " chunks"@
}

/// Says that a stored chunk index lies past the chunks of the reply.
pub fn invalid_index_message(id: i64, index: usize, count: usize) -> (text: String)
    ensures
        text@ == invalid_index_text(id as int, index as nat, count as nat),
{
    let mut text = "outbound ".to_owned();
    text.append(write_signed(id).as_str());
    text.append(" has invalid delivery chunk index ");
    text.append(write_unsigned(index as u64).as_str());
    text.append(" for ");
    text.append(write_unsigned(count as u64).as_str());
    text.append(" chunks");
    text
}

} // verus!
