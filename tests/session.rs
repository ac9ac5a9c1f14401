use hytak_server_util::session::{CallError, Client, Pump, RegisterError, Route};
use hytak_server_util::framing::read_frame;

#[test]
fn handles_start_after_range_start() {
    let mut c = Client::new();
    assert_eq!(c.new_handle(), 0x8000_0001);
    assert_eq!(c.new_handle(), 0x8000_0002);
    assert_eq!(c.new_handle(), 0x8000_0003);
}

#[test]
fn register_rejects_duplicates_and_foreign_ids() {
    let mut c = Client::new();
    assert_eq!(c.register(0x8000_0005), Ok(()));
    assert_eq!(c.register(0x8000_0005), Err(RegisterError::AlreadyPending));
    assert_eq!(c.register(3), Err(RegisterError::OutOfRange));
    assert_eq!(c.register(0xffff_ff00), Err(RegisterError::OutOfRange));
}

#[test]
fn deliver_at_most_once() {
    let mut c = Client::new();
    c.register(0x8000_0001).unwrap();
    assert!(c.deliver(0x8000_0001, b"first".to_vec()));
    assert!(!c.deliver(0x8000_0001, b"second".to_vec()));
    assert_eq!(c.try_resolve(0x8000_0001), Some(b"first".to_vec()));
    assert_eq!(c.try_resolve(0x8000_0001), None);
    assert!(!c.is_pending(0x8000_0001));
}

#[test]
fn deliver_to_unknown_id_is_refused() {
    let mut c = Client::new();
    assert!(!c.deliver(0x8000_0009, b"x".to_vec()));
    assert!(!c.is_pending(0x8000_0009));
}

#[test]
fn correlation_of_two_calls() {
    let mut c = Client::new();
    let (a, _) = c.begin_call(b"a").unwrap();
    let (b, _) = c.begin_call(b"b").unwrap();
    assert!(matches!(c.pump(a, b, b"reply-b".to_vec()), Pump::Pending));
    assert_eq!(c.try_resolve(a), None);
    assert!(matches!(c.pump(a, a, b"reply-a".to_vec()), Pump::Done(p) if p == b"reply-a".to_vec()));
    assert_eq!(c.try_resolve(b), Some(b"reply-b".to_vec()));
}

#[test]
fn unknown_id_is_a_notification() {
    let mut c = Client::new();
    let (a, _) = c.begin_call(b"a").unwrap();
    assert!(matches!(c.route_frame(17, b"note".to_vec()), Route::Notification(p) if p == b"note".to_vec()));
    assert!(matches!(c.pump(a, 18, b"n2".to_vec()), Pump::Notification(p) if p == b"n2".to_vec()));
    assert!(c.is_pending(a));
}

#[test]
fn second_response_goes_to_the_handler() {
    let mut c = Client::new();
    let (a, _) = c.begin_call(b"a").unwrap();
    assert!(matches!(c.route_frame(a, b"one".to_vec()), Route::Response));
    assert!(matches!(c.route_frame(a, b"two".to_vec()), Route::Notification(p) if p == b"two".to_vec()));
    assert_eq!(c.try_resolve(a), Some(b"one".to_vec()));
}

#[test]
fn outer_response_filed_during_nested_call() {
    let mut c = Client::new();
    let (outer, _) = c.begin_call(b"NextMap").unwrap();
    assert!(matches!(c.pump(outer, 3, b"BeginMap".to_vec()), Pump::Notification(_)));
    // While the handler's nested call pumps, the outer response arrives first.
    let (inner, _) = c.begin_call(b"GetMapsDirectory").unwrap();
    assert!(matches!(c.pump(inner, outer, b"outer".to_vec()), Pump::Pending));
    assert!(matches!(c.pump(inner, inner, b"inner".to_vec()), Pump::Done(p) if p == b"inner".to_vec()));
    // Back in the outer call, the response is taken without another frame.
    assert_eq!(c.try_resolve(outer), Some(b"outer".to_vec()));
    assert!(!c.is_pending(outer));
}

#[test]
fn begin_call_frames_the_request() {
    let mut c = Client::new();
    let (id, frame) = c.begin_call(b"<methodCall/>").unwrap();
    assert_eq!(id, 0x8000_0001);
    assert!(c.is_pending(id));
    let (f, used) = read_frame(&frame).unwrap();
    assert_eq!(f.id, id);
    assert_eq!(f.payload, b"<methodCall/>".to_vec());
    assert_eq!(used, frame.len());
}

#[test]
fn begin_call_refuses_a_pending_handle() {
    let mut c = Client::new();
    c.register(0x8000_0001).unwrap();
    assert_eq!(c.begin_call(b"x").err(), Some(CallError::HandleInUse));
    assert!(c.is_pending(0x8000_0001));
    assert_eq!(c.begin_call(b"y").unwrap().0, 0x8000_0002);
}

#[test]
fn reentrant_notification_call() {
    let mut c = Client::new();
    let (outer, _) = c.begin_call(b"NextMap").unwrap();
    // A notification arrives while the outer call pumps.
    let note = match c.pump(outer, 5, b"BeginMap".to_vec()) {
        Pump::Notification(p) => p,
        other => panic!("expected a notification, got {:?}", other),
    };
    assert_eq!(note, b"BeginMap".to_vec());
    // Its handler issues an inner call, which pumps on its own.
    let (inner, _) = c.begin_call(b"GetMapsDirectory").unwrap();
    assert_ne!(inner, outer);
    assert!(matches!(c.pump(inner, inner, b"dir".to_vec()), Pump::Done(p) if p == b"dir".to_vec()));
    // Control returns to the outer call, which still waits and then resolves.
    assert!(c.is_pending(outer));
    assert!(!c.is_pending(inner));
    assert!(matches!(c.pump(outer, outer, b"ok".to_vec()), Pump::Done(p) if p == b"ok".to_vec()));
}
