use ego_proc::actor::foreign::{tick_verdict, FlushStep};
use ego_proc::actor::{
    BackpressurePolicy, Delivery, DriveStep, Drove, Foreign, ForeignActor, ForeignError,
    ForeignMetrics, PortMsg, WaitHint,
};
use ego_proc::ControlSignal;
use std::collections::VecDeque;
use std::time::{Duration, Instant};

/// A toy foreign actor: counts bytes delivered to it and emits the running
/// total on port "count" after each message it digests.
struct ByteCounter {
    count: u64,
    queue: VecDeque<Vec<u8>>,
    capacity: usize,
    out: Vec<PortMsg>,
    drive_calls: u64,
    budget_spent: u64,
    budget_limit: u64,
    idle_park_timeout: Option<Duration>,
    done_after: Option<u64>,
    fail: bool,
}

impl ByteCounter {
    fn new(capacity: usize) -> Self {
        Self {
            count: 0,
            queue: VecDeque::new(),
            capacity,
            out: Vec::new(),
            drive_calls: 0,
            budget_spent: 0,
            budget_limit: 0,
            idle_park_timeout: None,
            done_after: None,
            fail: false,
        }
    }

    fn with_budget(mut self, spent: u64, limit: u64) -> Self {
        self.budget_spent = spent;
        self.budget_limit = limit;
        self
    }
}

impl ForeignActor for ByteCounter {
    fn drive(&mut self) -> anyhow::Result<Drove> {
        self.drive_calls += 1;
        if self.fail {
            return Ok(Drove::Failed(anyhow::Error::msg("broken")));
        }
        if let Some(n) = self.done_after {
            if self.count >= n {
                return Ok(Drove::Done);
            }
        }
        match self.queue.pop_front() {
            Some(bytes) => {
                self.count += bytes.len() as u64;
                self.out.push(PortMsg {
                    port: "count".to_string(),
                    bytes: self.count.to_le_bytes().to_vec(),
                });
                Ok(Drove::Progressed)
            }
            None => Ok(Drove::Parked(WaitHint { timeout: self.idle_park_timeout })),
        }
    }

    fn deliver(&mut self, port: &str, bytes: &[u8]) -> Delivery {
        if port == "reject" {
            return Delivery::Refused;
        }
        if self.queue.len() >= self.capacity {
            return Delivery::Full;
        }
        self.queue.push_back(bytes.to_vec());
        Delivery::Accepted
    }

    fn drain(&mut self) -> Vec<PortMsg> {
        std::mem::take(&mut self.out)
    }

    fn metrics(&self) -> ForeignMetrics {
        ForeignMetrics {
            budget_spent: Some(self.budget_spent),
            budget_limit: Some(self.budget_limit),
            bytes_held: Some(self.count),
        }
    }

    fn passivate(&mut self) -> Option<Vec<u8>> {
        if self.queue.is_empty() {
            Some(self.count.to_le_bytes().to_vec())
        } else {
            None
        }
    }
}

fn msg(port: &str, bytes: &[u8]) -> PortMsg {
    PortMsg { port: port.to_string(), bytes: bytes.to_vec() }
}

#[test]
fn test_deliver_drive_drain() {
    let mut foreign = Foreign::new(ByteCounter::new(8));
    foreign.on_data(msg("in", &[1, 2, 3])).unwrap();
    foreign.on_data(msg("in", &[4, 5])).unwrap();
    assert!(foreign.on_tick().unwrap());

    let out = foreign.take_output();
    assert_eq!(out.len(), 2, "one count report per digested message");
    assert_eq!(out[0].port, "count");
    assert_eq!(out[0].bytes, 3u64.to_le_bytes().to_vec());
    assert_eq!(out[1].bytes, 5u64.to_le_bytes().to_vec());
    assert!(foreign.take_output().is_empty(), "taking output empties the outbox");
}

#[test]
fn test_full_backpressure_is_buffered_then_retried() {
    let mut foreign = Foreign::new(ByteCounter::new(1));
    foreign.on_data(msg("in", &[1])).unwrap();
    foreign.on_data(msg("in", &[2, 3])).unwrap(); // Full -> buffered
    assert!(foreign.on_tick().unwrap());
    assert!(foreign.on_tick().unwrap());
    assert_eq!(foreign.inner().count, 3, "both messages eventually digested");
}

#[test]
fn test_full_backpressure_refuse_policy_surfaces() {
    let mut foreign =
        Foreign::new(ByteCounter::new(1)).with_backpressure(BackpressurePolicy::Refuse);
    foreign.on_data(msg("in", &[1])).unwrap();
    match foreign.on_data(msg("in", &[2])) {
        Err(ForeignError::FullRefused { port }) => assert_eq!(port, "in"),
        other => panic!("expected FullRefused, got {other:?}"),
    }
}

#[test]
fn test_full_backpressure_buffer_overflow_surfaces() {
    let mut foreign =
        Foreign::new(ByteCounter::new(1)).with_backpressure(BackpressurePolicy::Buffer(1));
    foreign.on_data(msg("in", &[1])).unwrap();
    foreign.on_data(msg("in", &[2])).unwrap(); // buffered
    match foreign.on_data(msg("in", &[3])) {
        Err(ForeignError::BufferOverflow { port, cap }) => {
            assert_eq!(port, "in");
            assert_eq!(cap, 1);
        }
        other => panic!("expected BufferOverflow, got {other:?}"),
    }
}

#[test]
fn test_refused_delivery_surfaces() {
    let mut foreign = Foreign::new(ByteCounter::new(8));
    match foreign.on_data(msg("reject", &[1])) {
        Err(ForeignError::Refused { port }) => assert_eq!(port, "reject"),
        other => panic!("expected Refused, got {other:?}"),
    }
}

#[test]
fn absorb_delivery_applies_each_outcome() {
    let mut foreign = Foreign::new(ByteCounter::new(8));
    assert!(foreign.absorb_delivery(msg("a", &[1]), Delivery::Accepted).is_ok());
    assert!(foreign.absorb_delivery(msg("b", &[1]), Delivery::Full).is_ok());
    assert!(matches!(
        foreign.absorb_delivery(msg("c", &[1]), Delivery::Refused),
        Err(ForeignError::Refused { .. })
    ));
    // The buffered message is the one retried at the next tick.
    assert!(foreign.on_tick().unwrap());
    assert_eq!(foreign.inner().count, 1);
}

#[test]
fn test_indefinite_park_skips_driving_until_data() {
    let mut foreign = Foreign::new(ByteCounter::new(8));
    assert!(foreign.on_tick().unwrap());
    let calls_after_park = foreign.inner().drive_calls;

    foreign.on_tick().unwrap();
    foreign.on_tick().unwrap();
    assert_eq!(foreign.inner().drive_calls, calls_after_park);

    foreign.on_data(msg("in", &[9])).unwrap();
    foreign.on_tick().unwrap();
    assert!(foreign.inner().drive_calls > calls_after_park);
    assert_eq!(foreign.inner().count, 1);
}

#[test]
fn test_timed_park_resumes_after_deadline() {
    let mut counter = ByteCounter::new(8);
    counter.idle_park_timeout = Some(Duration::from_millis(30));
    let mut foreign = Foreign::new(counter);

    assert!(foreign.on_tick().unwrap()); // parks with a 30ms hint
    let calls_after_park = foreign.inner().drive_calls;

    foreign.on_tick().unwrap(); // still parked
    assert_eq!(foreign.inner().drive_calls, calls_after_park);

    let start = Instant::now();
    while start.elapsed() < Duration::from_millis(40) {}
    foreign.on_tick().unwrap(); // deadline passed: drives again
    assert!(foreign.inner().drive_calls > calls_after_park);
}

#[test]
fn done_handle_finishes_the_tick_and_drains() {
    let mut counter = ByteCounter::new(8);
    counter.done_after = Some(2);
    let mut foreign = Foreign::new(counter);
    foreign.on_data(msg("in", &[1, 1])).unwrap();
    assert!(!foreign.on_tick().unwrap(), "Done ends the actor");
    let out = foreign.take_output();
    assert_eq!(out.last().unwrap().bytes, 2u64.to_le_bytes().to_vec());
}

#[test]
fn failed_handle_surfaces_its_error() {
    let mut counter = ByteCounter::new(8);
    counter.fail = true;
    let mut foreign = Foreign::new(counter);
    match foreign.on_tick() {
        Err(ForeignError::Failed(e)) => assert_eq!(e.to_string(), "broken"),
        other => panic!("expected Failed, got {other:?}"),
    }
}

#[test]
fn test_saturation_derived_from_metrics() {
    let foreign = Foreign::new(ByteCounter::new(8).with_budget(25, 100));
    assert_eq!(foreign.saturation_ratio(), Some((25, 100)));
    let no_budget = Foreign::new(ByteCounter::new(8));
    assert_eq!(no_budget.saturation_ratio(), None, "0-limit budget reports None");
    let partial = ForeignMetrics { budget_spent: Some(3), budget_limit: None, bytes_held: None };
    assert_eq!(partial.saturation_ratio(), None);
    assert_eq!(ForeignMetrics::default().saturation_ratio(), None);
}

#[test]
fn passivation_refused_while_input_is_buffered() {
    let mut foreign = Foreign::new(ByteCounter::new(1));
    foreign.on_data(msg("in", &[1])).unwrap();
    foreign.on_data(msg("in", &[2])).unwrap(); // buffered in the adapter
    assert_eq!(foreign.passivate(), None);
    // The handle itself still has undigested input after the retry.
    assert!(foreign.on_tick().unwrap());
    assert!(foreign.on_tick().unwrap());
    assert_eq!(foreign.passivate(), Some(2u64.to_le_bytes().to_vec()));
}

#[test]
fn stop_signal_reports_dropped_state() {
    let mut foreign = Foreign::new(ByteCounter::new(8));
    assert!(!foreign.on_signal(ControlSignal::Pause));
    assert!(!foreign.on_signal(ControlSignal::Stop), "an idle handle is at a stop point");
    let mut busy = Foreign::new(ByteCounter::new(8));
    busy.on_data(msg("in", &[1])).unwrap();
    assert!(busy.on_signal(ControlSignal::Stop), "undigested input is dropped");
}

#[test]
fn builders_set_pacing() {
    let foreign = Foreign::new(ByteCounter::new(8))
        .with_tick_interval(Duration::from_millis(25))
        .with_slice_budget(Duration::from_millis(1));
    assert_eq!(foreign.interval(), Duration::from_millis(25));
    assert_eq!(Foreign::new(ByteCounter::new(8)).interval(), Duration::from_millis(10));
}

#[test]
fn inner_mut_reaches_the_handle() {
    let mut foreign = Foreign::new(ByteCounter::new(8));
    foreign.inner_mut().count = 11;
    assert_eq!(foreign.inner().count, 11);
}

#[test]
fn buffered_messages_are_retried_in_arrival_order() {
    let mut foreign = Foreign::new(ByteCounter::new(1));
    foreign.on_data(msg("in", &[1])).unwrap(); // accepted
    foreign.on_data(msg("in", &[2, 2])).unwrap(); // buffered
    foreign.on_data(msg("in", &[3, 3, 3])).unwrap(); // buffered behind it
    for _ in 0..4 {
        assert!(foreign.on_tick().unwrap());
    }
    let counts: Vec<Vec<u8>> = foreign.take_output().into_iter().map(|m| m.bytes).collect();
    assert_eq!(
        counts,
        vec![
            1u64.to_le_bytes().to_vec(),
            3u64.to_le_bytes().to_vec(),
            6u64.to_le_bytes().to_vec()
        ],
        "two bytes were digested before three"
    );
}

#[test]
fn park_check_follows_the_clock_answer() {
    let mut counter = ByteCounter::new(8);
    counter.idle_park_timeout = Some(Duration::from_secs(3600));
    let mut foreign = Foreign::new(counter);
    assert!(!foreign.settle_park(true), "not parked: nothing holds");
    assert!(foreign.on_tick().unwrap()); // parks for an hour
    assert!(foreign.settle_park(false), "deadline not reached: still parked");
    assert!(!foreign.settle_park(true), "deadline passed: the park clears");
    assert!(!foreign.settle_park(false), "and stays cleared");

    let mut idle = Foreign::new(ByteCounter::new(8));
    assert!(idle.on_tick().unwrap()); // parks with no deadline
    assert!(idle.settle_park(true), "a park with no deadline ignores the clock");
}

#[test]
fn redelivery_answers_decide_the_retry() {
    let mut foreign = Foreign::new(ByteCounter::new(8));
    assert!(foreign.on_tick().unwrap()); // parked
    assert!(matches!(foreign.absorb_redelivery(msg("a", &[1]), Delivery::Full), FlushStep::Stop));
    assert_eq!(foreign.passivate(), None, "the full message went back to the buffer");
    assert!(matches!(
        foreign.absorb_redelivery(msg("b", &[1]), Delivery::Refused),
        FlushStep::Fail(ForeignError::Refused { .. })
    ));
    assert!(matches!(foreign.absorb_redelivery(msg("c", &[1]), Delivery::Accepted), FlushStep::Continue));
    assert!(!foreign.settle_park(false), "an accepted message clears the park");
}

#[test]
fn drive_answers_decide_the_tick() {
    let mut foreign = Foreign::new(ByteCounter::new(8));
    assert!(matches!(foreign.absorb_drive(Ok(Drove::Progressed)), DriveStep::KeepDriving));
    assert!(matches!(foreign.absorb_drive(Ok(Drove::Done)), DriveStep::Finished));
    assert!(matches!(
        foreign.absorb_drive(Err(anyhow::Error::msg("x"))),
        DriveStep::Failed(ForeignError::Failed(_))
    ));
    assert!(matches!(
        foreign.absorb_drive(Ok(Drove::Parked(WaitHint { timeout: None }))),
        DriveStep::Parked
    ));
    assert!(foreign.settle_park(true), "an indefinite park was recorded");

    assert!(tick_verdict(DriveStep::KeepDriving, false).is_none(), "keep driving");
    assert!(matches!(tick_verdict(DriveStep::KeepDriving, true), Some(Ok(true))));
    assert!(matches!(tick_verdict(DriveStep::Parked, false), Some(Ok(true))));
    assert!(matches!(tick_verdict(DriveStep::Finished, false), Some(Ok(false))));
    assert!(matches!(
        tick_verdict(DriveStep::Failed(ForeignError::Refused { port: "p".to_string() }), false),
        Some(Err(ForeignError::Refused { .. }))
    ));
}

#[test]
fn flush_retries_front_first_and_keeps_what_is_still_full() {
    let mut foreign = Foreign::new(ByteCounter::new(1));
    foreign.on_data(msg("in", &[1])).unwrap(); // accepted, fills the port
    foreign.on_data(msg("in", &[2, 2])).unwrap(); // buffered
    foreign.on_data(msg("in", &[3, 3, 3])).unwrap(); // buffered
    assert!(foreign.flush_pending().is_ok(), "a full port is no error");
    assert_eq!(foreign.passivate(), None, "both messages are still buffered");
    assert!(foreign.on_tick().unwrap()); // digests the first message
    assert_eq!(foreign.inner().count, 1);
    assert!(foreign.on_tick().unwrap()); // retries the front, then digests it
    assert_eq!(foreign.inner().count, 3, "the front message went in first");
}

#[test]
fn flush_delivers_buffered_messages_once_room_frees() {
    let mut foreign = Foreign::new(ByteCounter::new(0));
    assert!(foreign.on_data(msg("reject", &[1])).is_err());
    foreign.on_data(msg("in", &[1])).unwrap(); // port full: buffered
    assert_eq!(foreign.inner().queue.len(), 0);
    foreign.inner_mut().capacity = 4;
    assert!(foreign.flush_pending().is_ok());
    assert_eq!(foreign.inner().queue.len(), 1, "the buffered message was delivered");
    assert!(foreign.flush_pending().is_ok(), "nothing left to retry");
    assert_eq!(foreign.inner().queue.len(), 1, "and nothing delivered twice");
}

#[test]
fn still_parked_follows_the_park() {
    let mut foreign = Foreign::new(ByteCounter::new(8));
    assert!(!foreign.still_parked(), "a fresh adapter is not parked");
    assert!(foreign.on_tick().unwrap()); // parks with no deadline
    assert!(foreign.still_parked(), "a park with no deadline holds");

    let mut counter = ByteCounter::new(8);
    counter.idle_park_timeout = Some(Duration::from_millis(0));
    let mut timed = Foreign::new(counter);
    assert!(timed.on_tick().unwrap()); // parks until now
    let start = Instant::now();
    while start.elapsed() < Duration::from_millis(2) {}
    assert!(!timed.still_parked(), "a passed deadline clears the park");
    assert!(!timed.still_parked(), "and it stays cleared");
}
