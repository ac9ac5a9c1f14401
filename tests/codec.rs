use hytak_server_util::codec::{
    callback_action, check_greeting, fault_outcome, handle_callback, handshake_next, reply_fault,
    read_msg, CallFault, CallbackAction, DecodeError, HandshakeError, HandshakeStep,
};
use hytak_server_util::framing::{read_u32, write_u32};

#[test]
fn greeting_must_match_banner() {
    assert!(check_greeting(b"GBXRemote 2"));
    assert!(!check_greeting(b"GBXRemote 1"));
    assert!(!check_greeting(b"GBXRemote 2 "));
    assert!(!check_greeting(b""));
}

#[test]
fn handshake_scenario() {
    let mut bytes = write_u32(11);
    bytes.extend_from_slice(b"GBXRemote 2");
    let len = read_u32(&bytes, 0) as usize;
    let text = &bytes[4..4 + len];
    let mut step = handshake_next(HandshakeStep::Greeting, check_greeting(text)).unwrap();
    assert_eq!(step, HandshakeStep::SetApiVersion);
    for answer in [true, true, true] {
        step = handshake_next(step, answer).unwrap();
    }
    assert_eq!(step, HandshakeStep::Ready);
}

#[test]
fn handshake_fails_on_false_answer() {
    assert_eq!(
        handshake_next(HandshakeStep::Authenticate, false),
        Err(HandshakeError { step: HandshakeStep::Authenticate })
    );
    assert_eq!(
        handshake_next(HandshakeStep::Greeting, check_greeting(b"hello")),
        Err(HandshakeError { step: HandshakeStep::Greeting })
    );
}

#[test]
fn fault_reply_surfaces_code_and_message() {
    let msg = "<?xml version=\"1.0\"?><methodResponse><fault><value><struct>\
<member><name>faultCode</name><value><int>-1000</int></value></member>\
<member><name>faultString</name><value><string>Map not found.</string></value></member>\
</struct></value></fault></methodResponse>";
    assert_eq!(
        reply_fault(msg),
        Some(CallFault { code: -1000, message: "Map not found.".to_string() })
    );
}

#[test]
fn success_reply_is_no_fault() {
    let msg = "<?xml version=\"1.0\"?><methodResponse><params><param><value><boolean>1</boolean></value></param></params></methodResponse>";
    assert_eq!(reply_fault(msg), None);
}

#[test]
fn fault_outcome_keeps_fields() {
    assert_eq!(fault_outcome(None), None);
    assert_eq!(
        fault_outcome(Some((4, "bad".to_string()))),
        Some(CallFault { code: 4, message: "bad".to_string() })
    );
}

#[test]
fn begin_map_notification_fetches() {
    let msg = "<?xml version=\"1.0\"?><methodCall><methodName>ManiaPlanet.BeginMap</methodName><params></params></methodCall>";
    assert_eq!(handle_callback(msg), Ok(CallbackAction::FetchMap));
}

#[test]
fn other_notification_is_ignored() {
    let msg = "<?xml version=\"1.0\"?><methodCall><methodName>ManiaPlanet.EndMap</methodName><params></params></methodCall>";
    assert_eq!(handle_callback(msg), Ok(CallbackAction::Ignore));
}

#[test]
fn undecodable_notification_is_an_error() {
    assert_eq!(handle_callback("not xml"), Err(DecodeError));
    assert_eq!(callback_action(None), Err(DecodeError));
}

#[test]
fn callback_action_by_name() {
    assert_eq!(callback_action(Some("ManiaPlanet.BeginMap".to_string())), Ok(CallbackAction::FetchMap));
    assert_eq!(callback_action(Some("ManiaPlanet.BeginMa".to_string())), Ok(CallbackAction::Ignore));
}

#[test]
fn read_msg_decodes_utf8() {
    assert_eq!(read_msg(b"GBXRemote 2".to_vec()), Ok("GBXRemote 2".to_string()));
    assert_eq!(read_msg(vec![0xc3, 0xa9]), Ok("\u{e9}".to_string()));
    assert_eq!(read_msg(vec![0xff, 0xfe]), Err(DecodeError));
}
