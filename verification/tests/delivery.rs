use push_gateway::gateway::delivery::{
    Delivery, DeliveryAction, DeliveryEnd, DeliveryEvent, DeliveryOutcome, DeliveryStatus, Pause,
    Persistence,
};

#[test]
fn a_reply_is_sent_chunk_by_chunk() {
    let (mut delivery, action) =
        Delivery::begin(DeliveryStatus::Pending, 0, Persistence::UntilDelivered(2), false, true);
    assert_eq!(action, DeliveryAction::SplitContent);
    assert_eq!(delivery.step(DeliveryEvent::ContentSplit(2)), DeliveryAction::SendChunk(0));
    assert_eq!(delivery.step(DeliveryEvent::ChunkSent(true)), DeliveryAction::Checkpoint(1));
    assert_eq!(delivery.step(DeliveryEvent::Checkpointed(true)), DeliveryAction::SendChunk(1));
    assert_eq!(delivery.step(DeliveryEvent::ChunkSent(true)), DeliveryAction::Checkpoint(2));
    assert_eq!(
        delivery.step(DeliveryEvent::Checkpointed(true)),
        DeliveryAction::Mark(DeliveryStatus::Delivered)
    );
    assert_eq!(
        delivery.step(DeliveryEvent::Marked(true)),
        DeliveryAction::Finish(DeliveryEnd::Reached(DeliveryOutcome::Delivered))
    );
    assert!(!delivery.is_awaiting(&DeliveryEvent::Marked(true)));
}

#[test]
fn a_failed_attempt_goes_on_where_it_stopped() {
    let (mut delivery, _) =
        Delivery::begin(DeliveryStatus::Failed, 1, Persistence::UntilDelivered(2), true, true);
    assert_eq!(delivery.step(DeliveryEvent::ContentSplit(2)), DeliveryAction::SendChunk(1));
    for pause in [Pause::Retry, Pause::Exhausted, Pause::Retry] {
        assert_eq!(
            delivery.step(DeliveryEvent::ChunkSent(false)),
            DeliveryAction::Mark(DeliveryStatus::Failed)
        );
        assert_eq!(
            delivery.step(DeliveryEvent::Marked(true)),
            DeliveryAction::AuditFailureAndPause(pause)
        );
        assert_eq!(delivery.step(DeliveryEvent::Paused), DeliveryAction::SplitContent);
        assert_eq!(delivery.step(DeliveryEvent::ContentSplit(2)), DeliveryAction::SendChunk(1));
    }
    delivery.step(DeliveryEvent::ChunkSent(true));
    delivery.step(DeliveryEvent::Checkpointed(true));
    assert_eq!(delivery.step(DeliveryEvent::Marked(true)), DeliveryAction::Speak);
    assert_eq!(
        delivery.step(DeliveryEvent::Spoken),
        DeliveryAction::Finish(DeliveryEnd::Reached(DeliveryOutcome::Delivered))
    );
}

#[test]
fn a_delivered_reply_is_left_alone() {
    let (_, action) =
        Delivery::begin(DeliveryStatus::Delivered, 0, Persistence::UntilDelivered(2), true, true);
    assert_eq!(
        action,
        DeliveryAction::Finish(DeliveryEnd::Reached(DeliveryOutcome::AlreadyDelivered))
    );
}

#[test]
fn a_reply_is_spoken_where_it_is_wanted_and_there_is_a_voice() {
    for (wants_voice, has_voice) in [(false, false), (false, true), (true, false), (true, true)] {
        let (mut delivery, _) = Delivery::begin(
            DeliveryStatus::Pending,
            0,
            Persistence::UntilDelivered(2),
            wants_voice,
            has_voice,
        );
        delivery.step(DeliveryEvent::ContentSplit(1));
        delivery.step(DeliveryEvent::ChunkSent(true));
        delivery.step(DeliveryEvent::Checkpointed(true));
        let expected = if wants_voice && has_voice {
            DeliveryAction::Speak
        } else {
            DeliveryAction::Finish(DeliveryEnd::Reached(DeliveryOutcome::Delivered))
        };
        assert_eq!(delivery.step(DeliveryEvent::Marked(true)), expected);
    }
}

#[test]
fn one_attempt_is_one_attempt() {
    let (mut delivery, _) =
        Delivery::begin(DeliveryStatus::Pending, 0, Persistence::Once, true, true);
    delivery.step(DeliveryEvent::ContentSplit(1));
    delivery.step(DeliveryEvent::ChunkSent(false));
    assert_eq!(
        delivery.step(DeliveryEvent::Marked(true)),
        DeliveryAction::Finish(DeliveryEnd::NotDelivered)
    );
}

#[test]
fn a_stored_index_past_the_chunks_is_invalid() {
    let (mut delivery, _) =
        Delivery::begin(DeliveryStatus::Pending, 3, Persistence::UntilDelivered(2), false, true);
    assert_eq!(
        delivery.step(DeliveryEvent::ContentSplit(2)),
        DeliveryAction::Finish(DeliveryEnd::InvalidIndex)
    );
}

#[test]
fn a_history_that_refuses_ends_the_delivery() {
    let (mut delivery, _) =
        Delivery::begin(DeliveryStatus::Pending, 0, Persistence::UntilDelivered(2), false, true);
    delivery.step(DeliveryEvent::ContentSplit(1));
    delivery.step(DeliveryEvent::ChunkSent(true));
    assert_eq!(
        delivery.step(DeliveryEvent::Checkpointed(false)),
        DeliveryAction::Finish(DeliveryEnd::HistoryFailed)
    );
}
