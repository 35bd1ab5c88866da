use push_gateway::mattermost::http::{
    decode, needs_body, retry_after, Body, Call, CallStep, TOO_MANY_REQUESTS,
};
use push_gateway::mattermost::receiver::{
    drop_reason, is_posted, receive, Backoff, Frame, FrameStep,
};

fn header(value: &str) -> Option<String> {
    Some(value.to_string())
}

#[test]
fn the_wait_is_what_the_server_says() {
    assert_eq!(retry_after(&header("7")), 7);
    assert_eq!(retry_after(&header("0")), 0);
    assert_eq!(retry_after(&header("18446744073709551615")), u64::MAX);
    assert_eq!(retry_after(&header("18446744073709551616")), 1);
    assert_eq!(retry_after(&header("soon")), 1);
    assert_eq!(retry_after(&header("1.5")), 1);
    assert_eq!(retry_after(&None), 1);
}

#[test]
fn a_rate_limit_is_waited_out_once() {
    let mut call = Call::new();
    assert_eq!(call.answer(TOO_MANY_REQUESTS, &header("3")), CallStep::RetryAfter(3));
    assert_eq!(call.answer(TOO_MANY_REQUESTS, &header("3")), CallStep::Decode);
    let mut call = Call::new();
    assert_eq!(call.answer(500, &header("3")), CallStep::Decode);
    assert_eq!(call.answer(200, &None), CallStep::Decode);
}

#[test]
fn answers_are_judged_by_their_status() {
    let read = |message: Option<&str>| Body::Read { message: message.map(|m| m.to_string()) };
    let path = "/api/v4/posts";
    assert_eq!(decode(path, 201, "201 Created", &read(None)), None);
    assert_eq!(decode(path, 200, "200 OK", &read(Some("ok"))), None);
    assert_eq!(
        decode(path, 403, "403 Forbidden", &read(Some("no permission"))).as_deref(),
        Some("Mattermost /api/v4/posts failed: no permission")
    );
    assert_eq!(
        decode(path, 300, "300 Multiple Choices", &read(None)).as_deref(),
        Some("Mattermost /api/v4/posts failed: 300")
    );
    assert_eq!(
        decode(path, 502, "502 Bad Gateway", &Body::Unreadable).as_deref(),
        Some("decode Mattermost /api/v4/posts response (502 Bad Gateway)")
    );
    assert_eq!(
        decode(path, 200, "200 OK", &Body::Unreadable).as_deref(),
        Some("decode Mattermost /api/v4/posts response (200 OK)")
    );
    assert_eq!(
        decode(path, TOO_MANY_REQUESTS, "429 Too Many Requests", &Body::Unreadable).as_deref(),
        Some("Mattermost /api/v4/posts rate limited")
    );
    assert!(!needs_body(TOO_MANY_REQUESTS));
    assert!(needs_body(200));
}

#[test]
fn waits_double_up_to_half_a_minute() {
    let mut backoff = Backoff::new();
    let waits: Vec<u64> = (0..7).map(|_| backoff.fail()).collect();
    assert_eq!(waits, vec![1, 2, 4, 8, 16, 30, 30]);
    backoff.succeed();
    assert_eq!(backoff.fail(), 1);
}

#[test]
fn frames_are_told_apart() {
    assert_eq!(receive(Frame::Text), FrameStep::TakeEvent);
    assert_eq!(receive(Frame::Ping), FrameStep::Pong);
    assert_eq!(receive(Frame::Other), FrameStep::Ignore);
    assert_eq!(receive(Frame::Close), FrameStep::DropClosed);
    assert_eq!(receive(Frame::End), FrameStep::DropClosed);
    assert_eq!(receive(Frame::Failure), FrameStep::DropFailed);
    assert_eq!(
        drop_reason(FrameStep::DropClosed),
        Some("Mattermost WebSocket connection closed")
    );
    assert_eq!(
        drop_reason(FrameStep::DropFailed),
        Some("receive Mattermost WebSocket message")
    );
    assert_eq!(drop_reason(FrameStep::Pong), None);
}

#[test]
fn only_posted_events_are_taken() {
    assert!(is_posted(&header("posted")));
    assert!(!is_posted(&header("Posted")));
    assert!(!is_posted(&None));
}
