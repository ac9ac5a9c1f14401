//! The boundary to the XML-RPC payload codec, the greeting banner, and the
//! decisions taken on decoded replies and notifications.

use vstd::prelude::*;
use vstd::utf8::{decode_utf8, valid_utf8};

verus! {

/// The banner the peer greets with, as bytes: `GBXRemote 2`.
pub open spec fn banner() -> Seq<u8> {
    seq![71u8, 66u8, 88u8, 82u8, 101u8, 109u8, 111u8, 116u8, 101u8, 32u8, 50u8]
}

/// Whether the greeting text is exactly the expected banner.
pub fn check_greeting(text: &[u8]) -> (r: bool)
    ensures
        r == (text@ == banner()),
{
    let expected: Vec<u8> = vec![71u8, 66u8, 88u8, 82u8, 101u8, 109u8, 111u8, 116u8, 101u8, 32u8, 50u8];
    assert(expected@ =~= banner());
    if text.len() != expected.len() {
        assert(text@.len() != banner().len());
        return false;
    }
    let mut i: usize = 0;
    while i < text.len()
        invariant
            0 <= i <= text@.len(),
            text@.len() == expected@.len(),
            expected@ == banner(),
            forall|j: int| 0 <= j < i ==> text@[j] == expected@[j],
        decreases text@.len() - i,
    {
        if text[i] != expected[i] {
            assert(text@[i as int] != banner()[i as int]);
            return false;
        }
        i = i + 1;
    }
    assert(text@ =~= expected@);
    true
}

/// Relies on `String::from_utf8`: the payload's text where the bytes are
/// valid UTF-8, nothing otherwise.
#[verifier::external_body]
fn utf8_from_bytes(bytes: Vec<u8>) -> (r: Option<String>)
    ensures
        r is Some <==> valid_utf8(bytes@),
        r matches Some(t) ==> t@ == decode_utf8(bytes@),
{
    String::from_utf8(bytes).ok()
}

/// The text of a frame's payload; `DecodeError` where it is not valid UTF-8.
pub fn read_msg(payload: Vec<u8>) -> (r: Result<String, DecodeError>)
    ensures
        !valid_utf8(payload@) <==> r is Err,
        r matches Ok(t) ==> t@ == decode_utf8(payload@),
{
    match utf8_from_bytes(payload) {
        Some(t) => Ok(t),
        None => Err(DecodeError),
    }
}

/// The fault code and message that a reply payload decodes to, where it is a
/// well-formed fault response.
pub uninterp spec fn fault_of(msg: Seq<char>) -> Option<(i32, Seq<char>)>;

/// Relies on `dxr::deserialize_xml::<FaultResponse>` and
/// `Fault::try_from(FaultResponse)`: the fault that the text holds, if any.
#[verifier::external_body]
fn decode_fault(msg: &str) -> (r: Option<(i32, String)>)
    ensures
        r is Some <==> fault_of(msg@) is Some,
        r matches Some((code, text)) ==> fault_of(msg@) == Some((code, text@)),
{
    match dxr::deserialize_xml::<dxr::FaultResponse>(msg) {
        Ok(res) => match dxr::Fault::try_from(res) {
            Ok(f) => Some((f.code(), f.string().to_owned())),
            Err(_) => None,
        },
        Err(_) => None,
    }
}

/// A fault returned by the peer for one call.
#[derive(Debug, PartialEq, Eq)]
pub struct CallFault {
    pub code: i32,
    pub message: String,
}

/// The fault a call surfaces, given what the payload decoded to as a fault.
pub fn fault_outcome(decoded: Option<(i32, String)>) -> (r: Option<CallFault>)
    ensures
        r is Some <==> decoded is Some,
        r matches Some(f) ==> decoded matches Some((c, m)) && f.code == c && f.message@ == m@,
{
    match decoded {
        Some((code, message)) => Some(CallFault { code, message }),
        None => None,
    }
}

/// The fault that a reply payload carries, where it is a fault response.
pub fn reply_fault(msg: &str) -> (r: Option<CallFault>)
    ensures
        r is Some <==> fault_of(msg@) is Some,
        r matches Some(f) ==> fault_of(msg@) == Some((f.code, f.message@)),
{
    fault_outcome(decode_fault(msg))
}

/// The method name of the call that a notification payload decodes to.
pub uninterp spec fn call_name_of(msg: Seq<char>) -> Option<Seq<char>>;

/// Relies on `dxr::deserialize_xml::<MethodCall>` and `MethodCall::name`: the
/// name of the method call that the text holds, if it is one.
#[verifier::external_body]
fn notification_name(msg: &str) -> (r: Option<String>)
    ensures
        r is Some <==> call_name_of(msg@) is Some,
        r matches Some(n) ==> call_name_of(msg@) == Some(n@),
{
    match dxr::deserialize_xml::<dxr::MethodCall>(msg) {
        Ok(call) => Some(call.name().to_owned()),
        Err(_) => None,
    }
}

/// The notification sent when a new map begins.
pub open spec fn begin_map_name() -> Seq<char> {
    "ManiaPlanet.BeginMap"@
}

/// What a notification asks of the session.
#[derive(Debug, Clone, Copy, PartialEq, Eq, Structural)]
pub enum CallbackAction {
    /// A map began: fetch a new one and insert it.
    FetchMap,
    /// Nothing to do.
    Ignore,
}

/// A payload does not decode: not UTF-8 text, or not a method call.
#[derive(Debug, Clone, Copy, PartialEq, Eq, Structural)]
pub struct DecodeError;

/// What a notification whose name decoded as `name` asks for.
pub fn callback_action(name: Option<String>) -> (r: Result<CallbackAction, DecodeError>)
    ensures
        name is None <==> r is Err,
        name matches Some(n) ==> (r == Ok::<CallbackAction, DecodeError>(
            if n@ == begin_map_name() {
                CallbackAction::FetchMap
            } else {
                CallbackAction::Ignore
            },
        )),
{
    match name {
        None => Err(DecodeError),
        Some(n) => {
            let target = "ManiaPlanet.BeginMap".to_owned();
            proof {
                reveal_strlit("ManiaPlanet.BeginMap");
            }
            if n == target {
                Ok(CallbackAction::FetchMap)
            } else {
                Ok(CallbackAction::Ignore)
            }
        },
    }
}

/// Decodes a notification and decides what it asks for.
pub fn handle_callback(msg: &str) -> (r: Result<CallbackAction, DecodeError>)
    ensures
        call_name_of(msg@) is None <==> r is Err,
        call_name_of(msg@) matches Some(n) ==> (r == Ok::<CallbackAction, DecodeError>(
            if n == begin_map_name() {
                CallbackAction::FetchMap
            } else {
                CallbackAction::Ignore
            },
        )),
{
    callback_action(notification_name(msg))
}

/// The steps of opening a session, in order.
#[derive(Debug, Clone, Copy, PartialEq, Eq, Structural)]
pub enum HandshakeStep {
    /// Waiting for the greeting banner.
    Greeting,
    /// Waiting for the answer to the API version call.
    SetApiVersion,
    /// Waiting for the answer to the authentication call.
    Authenticate,
    /// Waiting for the answer to the call that enables notifications.
    EnableCallbacks,
    /// The session is open.
    Ready,
}

/// The step that follows `s` when it succeeds.
pub open spec fn after(s: HandshakeStep) -> HandshakeStep {
    match s {
        HandshakeStep::Greeting => HandshakeStep::SetApiVersion,
        HandshakeStep::SetApiVersion => HandshakeStep::Authenticate,
        HandshakeStep::Authenticate => HandshakeStep::EnableCallbacks,
        _ => HandshakeStep::Ready,
    }
}

/// Opening a session failed at the step it names.
#[derive(Debug, Clone, Copy, PartialEq, Eq, Structural)]
pub struct HandshakeError {
    pub step: HandshakeStep,
}

/// Moves the handshake on by one step: `ok` is whether the greeting matched
/// the banner, or whether the step's call answered true.
pub fn handshake_next(step: HandshakeStep, ok: bool) -> (r: Result<HandshakeStep, HandshakeError>)
    requires
        step != HandshakeStep::Ready,
    ensures
        ok ==> r == Ok::<HandshakeStep, HandshakeError>(after(step)),
        !ok ==> r == Err::<HandshakeStep, HandshakeError>(HandshakeError { step }),
{
    if !ok {
        return Err(HandshakeError { step });
    }
    match step {
        HandshakeStep::Greeting => Ok(HandshakeStep::SetApiVersion),
        HandshakeStep::SetApiVersion => Ok(HandshakeStep::Authenticate),
        HandshakeStep::Authenticate => Ok(HandshakeStep::EnableCallbacks),
        _ => Ok(HandshakeStep::Ready),
    }
}

} // verus!
