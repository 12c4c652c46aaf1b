use sonicd::error::Error;
use sonicd::reactor::{outcome, Controller, Dispatch, Readiness, Registry};
use sonicd::stream::{is_terminated, on_message, StreamAction, StreamState};
use sonicd::model::SonicMessage;

struct Counter {
    calls: u32,
    stop_after: u32,
}

impl Controller for Counter {
    fn terminated(&self) -> bool {
        self.calls >= self.stop_after
    }

    fn is_terminated(&self) -> bool {
        self.calls >= self.stop_after
    }

    fn ready(&mut self, _event: &Readiness) -> Result<(), Error> {
        self.calls += 1;
        Ok(())
    }
}

#[test]
fn register_twice_fails() {
    let mut r: Registry<Counter> = Registry::new();
    assert!(r.register(5, Counter { calls: 0, stop_after: 1 }).is_ok());
    assert!(matches!(r.register(5, Counter { calls: 0, stop_after: 1 }), Err(Error::OtherError(_))));
    assert!(r.register(-1, Counter { calls: 0, stop_after: 1 }).is_err());
    assert_eq!(r.fds(), vec![5]);
}

#[test]
fn dispatch_runs_handler_once_and_removes_when_done() {
    let mut r: Registry<Counter> = Registry::new();
    r.register(3, Counter { calls: 0, stop_after: 2 }).unwrap();
    assert_eq!(r.dispatch(&Readiness { fd: 3, events: 1 }), Dispatch::Live);
    assert!(r.contains(3));
    assert_eq!(r.dispatch(&Readiness { fd: 3, events: 1 }), Dispatch::Removed(Ok(())));
    assert!(!r.contains(3));
    assert!(r.is_empty());
    assert_eq!(r.dispatch(&Readiness { fd: 3, events: 1 }), Dispatch::Unknown);
}

#[test]
fn sweep_removes_terminated_and_deregister_twice_is_noop() {
    let mut r: Registry<Counter> = Registry::new();
    r.register(2, Counter { calls: 1, stop_after: 1 }).unwrap();
    r.register(7, Counter { calls: 0, stop_after: 1 }).unwrap();
    assert_eq!(r.sweep(), vec![2]);
    assert_eq!(r.fds(), vec![7]);
    assert!(r.deregister(7).is_some());
    assert!(r.deregister(7).is_none());
    assert!(r.is_empty());
}

fn msg(tag: &str) -> SonicMessage {
    SonicMessage { e: tag.to_string(), v: None, p: None }
}

#[test]
fn stream_ack_data_done() {
    let (s, a) = on_message(StreamState::AwaitingAck, msg("A"));
    assert_eq!(s, StreamState::Streaming);
    assert_eq!(a, Ok(StreamAction::Acknowledged));
    let (s, a) = on_message(s, msg("O"));
    assert_eq!(s, StreamState::Streaming);
    assert_eq!(a, Ok(StreamAction::Data(msg("O"))));
    let (s, a) = on_message(s, msg("D"));
    assert_eq!(s, StreamState::Finished);
    assert_eq!(a, Ok(StreamAction::Done(msg("D"))));
    assert!(is_terminated(s));
    let (_, a) = on_message(s, msg("O"));
    assert!(matches!(a, Err(Error::StreamError(_))));
}

#[test]
fn stream_data_before_ack_is_error() {
    let (s, a) = on_message(StreamState::AwaitingAck, msg("O"));
    assert_eq!(s, StreamState::Finished);
    assert!(matches!(a, Err(Error::StreamError(_))));
}

#[test]
fn outcome_rules() {
    assert_eq!(outcome(Ok(()), false), Dispatch::Live);
    assert_eq!(outcome(Ok(()), true), Dispatch::Removed(Ok(())));
    assert_eq!(
        outcome(Err(Error::StreamError("x".to_string())), false),
        Dispatch::Removed(Err(Error::StreamError("x".to_string())))
    );
}

struct Failing;

impl Controller for Failing {
    fn terminated(&self) -> bool {
        false
    }

    fn is_terminated(&self) -> bool {
        false
    }

    fn ready(&mut self, _event: &Readiness) -> Result<(), Error> {
        Err(Error::Io(5))
    }
}

#[test]
fn failing_handler_is_removed() {
    let mut r: Registry<Failing> = Registry::new();
    r.register(4, Failing).unwrap();
    assert_eq!(r.dispatch(&Readiness { fd: 4, events: 1 }), Dispatch::Removed(Err(Error::Io(5))));
    assert!(r.is_empty());
}
