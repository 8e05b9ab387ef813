use ego_proc::ipc::{settle_request, ReplyOutcome, RequestError, RequestToken};

#[test]
fn token_reply_reaches_the_requester() {
    let (tx, mut rx) = tokio::sync::oneshot::channel::<u64>();
    let token = RequestToken::new(77, tx);
    assert_eq!(token.correlation_id(), 77);
    assert!(token.reply(40));
    assert_eq!(rx.try_recv().unwrap(), 40);
    assert_eq!(settle_request(77, ReplyOutcome::Answered(40u64)).unwrap(), 40);
}

#[test]
fn token_clones_first_reply_wins() {
    let (tx, mut rx) = tokio::sync::oneshot::channel::<u64>();
    let token = RequestToken::new(5, tx);
    let dup = token.clone();
    assert_eq!(token.correlation_id(), dup.correlation_id());
    assert!(dup.reply(7));
    assert!(!token.reply(8), "only the first reply across clones is delivered");
    assert_eq!(rx.try_recv().unwrap(), 7);
}

#[test]
fn reply_to_a_gone_requester_fails() {
    let (tx, rx) = tokio::sync::oneshot::channel::<u64>();
    drop(rx);
    let token = RequestToken::new(5, tx);
    assert!(!token.reply(1));
}

#[test]
fn settle_passed_deadline_is_timed_out() {
    match settle_request::<u64>(9, ReplyOutcome::DeadlinePassed) {
        Err(RequestError::TimedOut { correlation_id }) => assert_eq!(correlation_id, 9),
        other => panic!("expected TimedOut, got {other:?}"),
    }
}

#[test]
fn settle_dropped_token_is_dropped() {
    let result = settle_request::<u64>(3, ReplyOutcome::TokenDropped);
    assert_eq!(result, Err(RequestError::Dropped { correlation_id: 3 }));
}

#[test]
fn settle_unsent_request_is_send_failed() {
    let result = settle_request::<u64>(4, ReplyOutcome::NotSent);
    assert_eq!(result, Err(RequestError::SendFailed { correlation_id: 4 }));
}

#[test]
fn every_error_names_its_request() {
    for e in [
        RequestError::SendFailed { correlation_id: 1 },
        RequestError::TimedOut { correlation_id: 1 },
        RequestError::Dropped { correlation_id: 1 },
    ] {
        assert_eq!(e.correlation_id(), 1);
    }
}
