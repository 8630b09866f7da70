//! The authentication handshake: what the server answers to the startup
//! packet and to the client's replies, by the scheme it is configured with.
//!
//! The engine reads and writes nothing itself. It is handed each event of a
//! connection and says what to do next; whoever owns the stream does it.

use crate::bytes::{
    be_i32, copy_range, i32_be_bytes, i32_from_be_bytes, lemma_be_i32_of_bytes, same_bytes,
    slice_to_array,
};
use crate::configuration::{AuthenticationType, Configuration};
use crate::errors::{ErrorKind, Errors};
use crate::md5::{credential, lemma_md5_credential_is_text, md5_credential};
use crate::messages::{error_message, texts, MessageView, OutgoingMessage};
use crate::startup::{
    decode_startup, find_terminator, lemma_decoded_names_user_and_database,
    lemma_run_length_of_terminated, run_length, version_entry, with_default_database,
    FrontEndFrames, StartupParameters, MAXIMUM_STARTUP_PACKET_LENGTH,
};
use crate::startup_encoding::{
    collect, encodable, encode_parameters, lemma_decode_recovers_parameters, names,
    startup_packet,
};
use vstd::prelude::*;
use vstd::slice::slice_subrange;
use vstd::utf8::encode_utf8;

verus! {

/// Where a connection stands in the handshake.
#[derive(Debug, PartialEq, Eq)]
pub enum AuthenticationState {
    /// Nothing has arrived yet.
    AwaitingStartup,
    /// The client was asked for a credential.
    Negotiating { scheme: AuthenticationType },
    /// The client was asked for a credential that depends on `salt`.
    Challenged { scheme: AuthenticationType, salt: [u8; 4] },
    /// The client is who it says it is.
    Authenticated,
    /// The connection is refused.
    Rejected { reason: Errors },
}

/// An [`AuthenticationState`] with its data as sequences.
pub enum StateView {
    AwaitingStartup,
    Negotiating { scheme: AuthenticationType },
    Challenged { scheme: AuthenticationType, salt: Seq<u8> },
    Authenticated,
    Rejected { reason: ErrorKind },
}

impl View for AuthenticationState {
    type V = StateView;

    open spec fn view(&self) -> StateView {
        match self {
            AuthenticationState::AwaitingStartup => StateView::AwaitingStartup,
            AuthenticationState::Negotiating { scheme } => StateView::Negotiating {
                scheme: *scheme,
            },
            AuthenticationState::Challenged { scheme, salt } => StateView::Challenged {
                scheme: *scheme,
                salt: salt@,
            },
            AuthenticationState::Authenticated => StateView::Authenticated,
            AuthenticationState::Rejected { reason } => StateView::Rejected { reason: reason@ },
        }
    }
}

impl StateView {
    /// Whether the handshake has ended.
    pub open spec fn terminal(self) -> bool {
        self is Authenticated || self is Rejected
    }
}

/// What the SASL mechanism makes of the client's last reply.
#[derive(Debug, PartialEq, Eq)]
pub enum SaslVerdict {
    /// The exchange has ended and the client is who it says it is.
    Accepted,
    /// The exchange has ended and the client is refused.
    Refused,
    /// The exchange goes on with `challenge`, ready to be written.
    Continue { challenge: Vec<u8> },
}

/// A [`SaslVerdict`] with its data as a sequence.
pub enum VerdictView {
    Accepted,
    Refused,
    Continue { challenge: Seq<u8> },
}

impl View for SaslVerdict {
    type V = VerdictView;

    open spec fn view(&self) -> VerdictView {
        match self {
            SaslVerdict::Accepted => VerdictView::Accepted,
            SaslVerdict::Refused => VerdictView::Refused,
            SaslVerdict::Continue { challenge } => VerdictView::Continue {
                challenge: challenge@,
            },
        }
    }
}

/// What happens on a connection.
#[derive(Debug, PartialEq, Eq)]
pub enum Event {
    /// The first packet has arrived. `salt` is four random bytes, fresh for
    /// this connection.
    Startup { packet: Vec<u8>, salt: [u8; 4] },
    /// The client has replied to a request for a credential.
    Response { packet: Vec<u8> },
    /// The SASL mechanism has looked at the client's reply.
    Verdict { verdict: SaslVerdict },
}

/// An [`Event`] with its data as sequences.
pub enum EventView {
    Startup { packet: Seq<u8>, salt: Seq<u8> },
    Response { packet: Seq<u8> },
    Verdict { verdict: VerdictView },
}

impl View for Event {
    type V = EventView;

    open spec fn view(&self) -> EventView {
        match self {
            Event::Startup { packet, salt } => EventView::Startup {
                packet: packet@,
                salt: salt@,
            },
            Event::Response { packet } => EventView::Response { packet: packet@ },
            Event::Verdict { verdict } => EventView::Verdict { verdict: verdict@ },
        }
    }
}

/// What is to be done after an event.
#[derive(Debug, PartialEq, Eq)]
pub enum Action {
    /// Write `message` to the client.
    Send { message: OutgoingMessage },
    /// Hand `payload`, the client's reply, to the SASL mechanism.
    Consult { payload: Vec<u8> },
    /// Write `bytes`, the mechanism's challenge, to the client as they are.
    Forward { bytes: Vec<u8> },
}

/// An [`Action`] with its data as sequences.
pub enum ActionView {
    Send { message: MessageView },
    Consult { payload: Seq<u8> },
    Forward { bytes: Seq<u8> },
}

impl View for Action {
    type V = ActionView;

    open spec fn view(&self) -> ActionView {
        match self {
            Action::Send { message } => ActionView::Send { message: message@ },
            Action::Consult { payload } => ActionView::Consult { payload: payload@ },
            Action::Forward { bytes } => ActionView::Forward { bytes: bytes@ },
        }
    }
}

/// What the engine knows: the scheme and password it is configured with,
/// where the handshake stands, and the parameters of the startup packet
/// once that was decoded.
pub struct EngineView {
    pub scheme: AuthenticationType,
    pub password: Option<Seq<char>>,
    pub state: StateView,
    pub parameters: Option<Map<Seq<char>, Seq<char>>>,
}

/// The one SASL mechanism that is offered.
pub open spec fn offered_mechanisms() -> Seq<Seq<char>> {
    seq!["SCRAM-SHA-256"@]
}

/// What follows the tag and the length in a reply of the client: `None`
/// where the packet does not start with `p` and its own length.
pub open spec fn response_payload(packet: Seq<u8>) -> Option<Seq<u8>> {
    if packet.len() >= 5 && packet[0] == 0x70 && be_i32(packet.subrange(1, 5)) == packet.len()
        - 1 {
        Some(packet.subrange(5, packet.len() as int))
    } else {
        None
    }
}

/// The credential in a reply of the client: the payload without the zero
/// byte that ends it. `None` where the packet is malformed, the payload does
/// not end with a zero byte, or holds one before its end.
pub open spec fn password_of(packet: Seq<u8>) -> Option<Seq<u8>> {
    match response_payload(packet) {
        None => None,
        Some(payload) => if payload.len() >= 1 && run_length(payload, 0, payload.len() as int)
            == payload.len() - 1 {
            Some(payload.drop_last())
        } else {
            None
        },
    }
}

/// The credential that the client is expected to send: the password as it
/// is, or its salted MD5 digest.
pub open spec fn expected_credential(e: EngineView) -> Option<Seq<u8>> {
    match (e.password, e.parameters, e.state) {
        (Some(password), Some(parameters), StateView::Negotiating { .. }) => Some(
            encode_utf8(password),
        ),
        (Some(password), Some(parameters), StateView::Challenged { salt, .. }) => Some(
            md5_credential(encode_utf8(password), encode_utf8(parameters["user"@]), salt),
        ),
        _ => None,
    }
}

/// The engine once the connection is refused for `reason`, and the message
/// that tells the client so.
pub open spec fn refuse(e: EngineView, reason: ErrorKind) -> (EngineView, ActionView) {
    (
        EngineView { state: StateView::Rejected { reason }, ..e },
        ActionView::Send { message: error_message(reason) },
    )
}

/// The engine once the client is authenticated, and the message that tells
/// the client so.
pub open spec fn welcome(e: EngineView) -> (EngineView, ActionView) {
    (
        EngineView { state: StateView::Authenticated, ..e },
        ActionView::Send { message: MessageView::AuthenticationOk },
    )
}

/// Whether what the engine knows fits together: the state belongs to the
/// configured scheme, and the parameters are there from the moment the
/// startup packet was decoded, with a user among them.
pub open spec fn consistent(e: EngineView) -> bool {
    &&& e.parameters matches Some(p) ==> p.contains_key("user"@)
    &&& match e.state {
        StateView::AwaitingStartup => e.parameters is None,
        StateView::Negotiating { scheme } => scheme == e.scheme && e.parameters is Some && (scheme
            == AuthenticationType::AuthenticationCleartextPassword || scheme
            == AuthenticationType::AuthenticationSASL),
        StateView::Challenged { scheme, salt } => scheme == e.scheme && e.parameters is Some
            && scheme == AuthenticationType::AuthenticationMD5Password && salt.len() == 4,
        StateView::Authenticated => e.parameters is Some,
        StateView::Rejected { .. } => true,
    }
}

/// Whether the engine can take `event` in the state it is in. It takes
/// nothing once the handshake has ended.
pub open spec fn accepts(e: EngineView, event: EventView) -> bool {
    match (e.state, event) {
        (StateView::AwaitingStartup, EventView::Startup { salt, .. }) => salt.len() == 4,
        (StateView::Negotiating { .. }, EventView::Response { .. }) => true,
        (StateView::Challenged { .. }, EventView::Response { .. }) => true,
        (StateView::Negotiating { scheme }, EventView::Verdict { .. }) => scheme
            == AuthenticationType::AuthenticationSASL,
        _ => false,
    }
}

/// What the startup packet leads to: a refusal where it cannot be decoded,
/// else what the configured scheme asks for.
pub open spec fn on_startup(e: EngineView, packet: Seq<u8>, salt: Seq<u8>) -> (
    EngineView,
    ActionView,
) {
    match decode_startup(packet) {
        Err(reason) => refuse(e, reason),
        Ok(parameters) => {
            let known = EngineView { parameters: Some(parameters), ..e };
            match e.scheme {
                AuthenticationType::Trust => welcome(known),
                AuthenticationType::AuthenticationCleartextPassword => (
                    EngineView { state: StateView::Negotiating { scheme: e.scheme }, ..known },
                    ActionView::Send { message: MessageView::AuthenticationCleartextPassword },
                ),
                AuthenticationType::AuthenticationMD5Password => (
                    EngineView { state: StateView::Challenged { scheme: e.scheme, salt }, ..known },
                    ActionView::Send { message: MessageView::AuthenticationMD5Password { salt } },
                ),
                AuthenticationType::AuthenticationSASL => (
                    EngineView { state: StateView::Negotiating { scheme: e.scheme }, ..known },
                    ActionView::Send {
                        message: MessageView::AuthenticationSASL {
                            mechanisms: offered_mechanisms(),
                        },
                    },
                ),
            }
        },
    }
}

/// What a reply of the client leads to. In a SASL exchange its payload goes
/// to the mechanism. Else it holds a credential: the client is admitted
/// where that is the expected one, and refused where it is another. A reply
/// that cannot be read is a protocol violation.
pub open spec fn on_response(e: EngineView, packet: Seq<u8>) -> (EngineView, ActionView) {
    if e.state == (StateView::Negotiating { scheme: AuthenticationType::AuthenticationSASL }) {
        match response_payload(packet) {
            None => refuse(
                e,
                ErrorKind::ProtocolViolation { message: "malformed authentication response"@ },
            ),
            Some(payload) => (e, ActionView::Consult { payload }),
        }
    } else {
        match password_of(packet) {
            None => refuse(
                e,
                ErrorKind::ProtocolViolation { message: "malformed authentication response"@ },
            ),
            Some(sent) => if expected_credential(e) == Some(sent) {
                welcome(e)
            } else {
                refuse(e, ErrorKind::InvalidPassword { user: e.parameters->Some_0["user"@] })
            },
        }
    }
}

/// What the verdict of the SASL mechanism leads to.
pub open spec fn on_verdict(e: EngineView, verdict: VerdictView) -> (EngineView, ActionView) {
    match verdict {
        VerdictView::Accepted => welcome(e),
        VerdictView::Refused => refuse(
            e,
            ErrorKind::InvalidPassword { user: e.parameters->Some_0["user"@] },
        ),
        VerdictView::Continue { challenge } => (e, ActionView::Forward { bytes: challenge }),
    }
}

/// The engine after `event`, and what is to be done.
pub open spec fn transition(e: EngineView, event: EventView) -> (EngineView, ActionView) {
    match event {
        EventView::Startup { packet, salt } => on_startup(e, packet, salt),
        EventView::Response { packet } => on_response(e, packet),
        EventView::Verdict { verdict } => on_verdict(e, verdict),
    }
}

/// Once the handshake has ended the engine takes no further event.
pub proof fn lemma_ended_handshake_takes_nothing(e: EngineView, event: EventView)
    requires
        e.state.terminal(),
    ensures
        !accepts(e, event),
{
}

/// What the engine knows still fits together after every event it takes.
pub proof fn lemma_transition_keeps_consistent(e: EngineView, event: EventView)
    requires
        consistent(e),
        accepts(e, event),
    ensures
        consistent(transition(e, event).0),
{
    if let EventView::Startup { packet, salt } = event {
        if decode_startup(packet) is Ok {
            lemma_decoded_names_user_and_database(packet);
        }
    }
}

/// A server that trusts its clients authenticates whoever sends a startup
/// packet that decodes: it answers with the one message that says so, asks
/// for nothing, and the handshake has ended.
pub proof fn lemma_trust_authenticates_at_once(e: EngineView, packet: Seq<u8>, salt: Seq<u8>)
    requires
        e.state is AwaitingStartup,
        e.scheme == AuthenticationType::Trust,
        decode_startup(packet) is Ok,
    ensures
        transition(e, EventView::Startup { packet, salt }) == (
            EngineView {
                state: StateView::Authenticated,
                parameters: Some(decode_startup(packet)->Ok_0),
                ..e
            },
            ActionView::Send { message: MessageView::AuthenticationOk },
        ),
        transition(e, EventView::Startup { packet, salt }).0.state.terminal(),
{
}

/// The request that the scheme of a password sends to the client.
pub open spec fn challenge_of(scheme: AuthenticationType, salt: Seq<u8>) -> MessageView {
    if scheme == AuthenticationType::AuthenticationMD5Password {
        MessageView::AuthenticationMD5Password { salt }
    } else {
        MessageView::AuthenticationCleartextPassword
    }
}

/// A server that asks for a password, as it is or as a digest, sends one
/// request after the startup packet and ends the handshake on the reply:
/// the client is authenticated where the reply holds the expected
/// credential and refused for its password where it holds another. A reply
/// that cannot be read is a protocol violation instead.
pub proof fn lemma_password_round(e: EngineView, packet: Seq<u8>, salt: Seq<u8>, reply: Seq<u8>)
    requires
        e.state is AwaitingStartup,
        e.scheme == AuthenticationType::AuthenticationCleartextPassword || e.scheme
            == AuthenticationType::AuthenticationMD5Password,
        decode_startup(packet) is Ok,
        salt.len() == 4,
    ensures
        ({
            let (asked, challenge) = transition(e, EventView::Startup { packet, salt });
            let (ended, answer) = transition(asked, EventView::Response { packet: reply });
            let user = decode_startup(packet)->Ok_0["user"@];
            &&& challenge == (ActionView::Send { message: challenge_of(e.scheme, salt) })
            &&& !asked.state.terminal()
            &&& accepts(asked, EventView::Response { packet: reply })
            &&& ended.state.terminal()
            &&& answer is Send
            &&& password_of(reply) is Some && password_of(reply) == expected_credential(asked)
                ==> ended.state is Authenticated && answer->message
                == MessageView::AuthenticationOk
            &&& password_of(reply) is Some && password_of(reply) != expected_credential(asked)
                ==> ended.state == (StateView::Rejected {
                reason: ErrorKind::InvalidPassword { user },
            }) && answer->message == error_message(ErrorKind::InvalidPassword { user })
            &&& password_of(reply) is None ==> ended.state is Rejected
                && ended.state->reason is ProtocolViolation
        }),
{
}

/// The credential that a client sends for the password of a server that
/// is configured with one, after the startup packet was taken.
pub proof fn lemma_expected_credential(e: EngineView, password: Seq<char>)
    requires
        consistent(e),
        e.password == Some(password),
    ensures
        e.state is Negotiating ==> expected_credential(e) == Some(encode_utf8(password)),
        e.state matches StateView::Challenged { salt, .. } ==> expected_credential(e) == Some(
            md5_credential(
                encode_utf8(password),
                encode_utf8(e.parameters->Some_0["user"@]),
                salt,
            ),
        ),
{
}

/// The reply in which a client sends `credential`: the tag `p`, the length
/// of what follows the tag, the credential and a closing zero byte.
pub open spec fn password_message(credential: Seq<u8>) -> Seq<u8> {
    seq![0x70u8] + i32_be_bytes(credential.len() as int + 5) + credential + seq![0u8]
}

/// A credential without a zero byte is read back from the reply that
/// carries it.
pub proof fn lemma_password_message_is_read(credential: Seq<u8>)
    requires
        credential.len() + 5 <= i32::MAX,
        forall|i: int| 0 <= i < credential.len() ==> credential[i] != 0,
    ensures
        password_of(password_message(credential)) == Some(credential),
{
    let packet = password_message(credential);
    let length = credential.len() as int + 5;
    lemma_be_i32_of_bytes(length);
    assert(packet.subrange(1, 5) =~= i32_be_bytes(length));
    let payload = packet.subrange(5, packet.len() as int);
    assert(payload =~= credential.push(0u8));
    lemma_run_length_of_terminated(payload, 0, payload.len() as int, credential.len() as int);
    assert(payload.drop_last() =~= credential);
}

/// A client that sends the expected credential is authenticated: the reply
/// that carries it is read, and the engine answers that all is well.
pub proof fn lemma_expected_reply_authenticates(e: EngineView, credential: Seq<u8>)
    requires
        e.state is Negotiating || e.state is Challenged,
        e.state != (StateView::Negotiating { scheme: AuthenticationType::AuthenticationSASL }),
        expected_credential(e) == Some(credential),
        credential.len() + 5 <= i32::MAX,
        forall|i: int| 0 <= i < credential.len() ==> credential[i] != 0,
    ensures
        transition(e, EventView::Response { packet: password_message(credential) }) == welcome(e),
{
    lemma_password_message_is_read(credential);
}

/// Under the MD5 scheme the expected credential can always be sent: a
/// client that knows the password and sends its salted digest is
/// authenticated.
pub proof fn lemma_md5_digest_authenticates(e: EngineView)
    requires
        consistent(e),
        e.state is Challenged,
        e.password is Some,
    ensures
        expected_credential(e) is Some,
        transition(
            e,
            EventView::Response { packet: password_message(expected_credential(e)->Some_0) },
        ) == welcome(e),
{
    let credential = expected_credential(e)->Some_0;
    lemma_md5_credential_is_text(
        encode_utf8(e.password->Some_0),
        encode_utf8(e.parameters->Some_0["user"@]),
        e.state->Challenged_salt,
    );
    assert forall|i: int| 0 <= i < credential.len() implies credential[i] != 0 by {
        assert(0x30 <= credential[i]);
    }
    lemma_expected_reply_authenticates(e, credential);
}

/// The same holds of a packet as a client writes it: under trust, a packet
/// written for parameters that name a user is answered with the one message
/// that says the client is authenticated.
pub proof fn lemma_trust_authenticates_written_packet(
    e: EngineView,
    params: Seq<(Seq<char>, Seq<char>)>,
    salt: Seq<u8>,
)
    requires
        e.state is AwaitingStartup,
        e.scheme == AuthenticationType::Trust,
        encodable(params),
        encode_parameters(params).len() + 9 <= MAXIMUM_STARTUP_PACKET_LENGTH,
        names(params, "user"@),
    ensures
        ({
            let (ended, answer) = transition(
                e,
                EventView::Startup { packet: startup_packet(params), salt },
            );
            &&& ended.state is Authenticated
            &&& answer == (ActionView::Send { message: MessageView::AuthenticationOk })
            &&& ended.parameters == Some(with_default_database(collect(params, version_entry())))
        }),
{
    lemma_decode_recovers_parameters(params);
}

/// The bytes that an optional vector holds, if any.
pub open spec fn optional_bytes(v: Option<Vec<u8>>) -> Option<Seq<u8>> {
    match v {
        Some(v) => Some(v@),
        None => None,
    }
}

/// What follows the tag and the length in a reply of the client.
fn payload_in(packet: &Vec<u8>) -> (payload: Option<Vec<u8>>)
    ensures
        optional_bytes(payload) == response_payload(packet@),
{
    let length = packet.len();
    if length < 5 || packet[0] != 0x70 {
        return None;
    }
    let declared = i32_from_be_bytes(slice_to_array(slice_subrange(packet.as_slice(), 1, 5)));
    if declared < 0 || declared as usize != length - 1 {
        return None;
    }
    Some(copy_range(packet, 5, length))
}

/// The credential in a reply of the client.
fn password_in(packet: &Vec<u8>) -> (password: Option<Vec<u8>>)
    ensures
        optional_bytes(password) == password_of(packet@),
{
    match payload_in(packet) {
        None => None,
        Some(payload) => {
            let length = payload.len();
            if length < 1 {
                return None;
            }
            let first_zero = find_terminator(&payload, 0, length);
            if first_zero != length - 1 {
                return None;
            }
            Some(copy_range(&payload, 0, length - 1))
        },
    }
}

/// The state of a refused connection and the message that tells the
/// client why.
fn refusal(reason: Errors) -> (refused: (AuthenticationState, Action))
    ensures
        refused.0@ == (StateView::Rejected { reason: reason@ }),
        refused.1@ == (ActionView::Send { message: error_message(reason@) }),
{
    let message = OutgoingMessage::from_error(&reason);
    (AuthenticationState::Rejected { reason }, Action::Send { message })
}

/// The authentication handshake of one connection.
pub struct AuthenticationEngine {
    scheme: AuthenticationType,
    password: Option<String>,
    state: AuthenticationState,
    parameters: Option<StartupParameters>,
}

impl View for AuthenticationEngine {
    type V = EngineView;

    closed spec fn view(&self) -> EngineView {
        EngineView {
            scheme: self.scheme,
            password: match self.password {
                Some(p) => Some(p@),
                None => None,
            },
            state: self.state@,
            parameters: match self.parameters {
                Some(p) => Some(p@),
                None => None,
            },
        }
    }
}

impl AuthenticationEngine {
    #[verifier::type_invariant]
    spec fn fits_together(&self) -> bool {
        consistent(self@)
    }

    /// The engine of a connection on which nothing has arrived, for a
    /// server configured with `configuration`.
    pub fn new(configuration: &Configuration) -> (engine: AuthenticationEngine)
        ensures
            engine@ == (EngineView {
                scheme: configuration@.authentication_type,
                password: configuration@.password,
                state: StateView::AwaitingStartup,
                parameters: None,
            }),
            consistent(engine@),
    {
        let password = match configuration.expected_password() {
            Some(p) => Some(p.clone()),
            None => None,
        };
        AuthenticationEngine {
            scheme: configuration.scheme(),
            password,
            state: AuthenticationState::AwaitingStartup,
            parameters: None,
        }
    }

    /// Where the handshake stands.
    pub fn state(&self) -> (state: &AuthenticationState)
        ensures
            state@ == self@.state,
            consistent(self@),
    {
        proof {
            use_type_invariant(self);
        }
        &self.state
    }

    /// Whether the handshake has ended, one way or the other.
    pub fn is_finished(&self) -> (finished: bool)
        ensures
            finished == self@.state.terminal(),
    {
        match &self.state {
            AuthenticationState::Authenticated => true,
            AuthenticationState::Rejected { .. } => true,
            _ => false,
        }
    }

    /// Whether the client is authenticated.
    pub fn is_authenticated(&self) -> (authenticated: bool)
        ensures
            authenticated == (self@.state is Authenticated),
    {
        match &self.state {
            AuthenticationState::Authenticated => true,
            _ => false,
        }
    }

    /// The parameters of the startup packet, once that was decoded.
    pub fn parameters(&self) -> (parameters: Option<&StartupParameters>)
        ensures
            match parameters {
                Some(p) => self@.parameters == Some(p@),
                None => self@.parameters is None,
            },
    {
        self.parameters.as_ref()
    }

    /// Whether the engine can take `event` in the state it is in.
    pub fn accepts(&self, event: &Event) -> (accepted: bool)
        ensures
            accepted == accepts(self@, event@),
    {
        match (&self.state, event) {
            (AuthenticationState::AwaitingStartup, Event::Startup { .. }) => true,
            (AuthenticationState::Negotiating { .. }, Event::Response { .. }) => true,
            (AuthenticationState::Challenged { .. }, Event::Response { .. }) => true,
            (AuthenticationState::Negotiating { scheme }, Event::Verdict { .. }) => *scheme
                == AuthenticationType::AuthenticationSASL,
            _ => false,
        }
    }

    /// Takes `event` and says what is to be done: the engine after the
    /// event, and the action.
    pub fn step(self, event: Event) -> (next: (AuthenticationEngine, Action))
        requires
            accepts(self@, event@),
        ensures
            (next.0@, next.1@) == transition(self@, event@),
            consistent(next.0@),
    {
        proof {
            use_type_invariant(&self);
        }
        match event {
            Event::Startup { packet, salt } => self.startup(&packet, salt),
            Event::Response { packet } => self.response(&packet),
            Event::Verdict { verdict } => self.verdict(verdict),
        }
    }

    /// The engine once the connection is refused for `reason`.
    fn refuse(self, reason: Errors) -> (next: (AuthenticationEngine, Action))
        ensures
            (next.0@, next.1@) == refuse(self@, reason@),
            consistent(next.0@),
    {
        proof {
            use_type_invariant(&self);
        }
        let (state, action) = refusal(reason);
        (
            AuthenticationEngine {
                scheme: self.scheme,
                password: self.password,
                state,
                parameters: self.parameters,
            },
            action,
        )
    }

    /// The engine once the client is authenticated.
    fn welcome(self) -> (next: (AuthenticationEngine, Action))
        requires
            self@.parameters is Some,
        ensures
            (next.0@, next.1@) == welcome(self@),
            consistent(next.0@),
    {
        proof {
            use_type_invariant(&self);
        }
        (
            AuthenticationEngine {
                scheme: self.scheme,
                password: self.password,
                state: AuthenticationState::Authenticated,
                parameters: self.parameters,
            },
            Action::Send { message: OutgoingMessage::AuthenticationOk },
        )
    }

    fn startup(self, packet: &Vec<u8>, salt: [u8; 4]) -> (next: (AuthenticationEngine, Action))
        requires
            self@.state is AwaitingStartup,
        ensures
            (next.0@, next.1@) == on_startup(self@, packet@, salt@),
            consistent(next.0@),
    {
        proof {
            use_type_invariant(&self);
        }
        match FrontEndFrames::try_from(packet) {
            Err(reason) => self.refuse(reason),
            Ok(FrontEndFrames::StartupMessage { parameters }) => {
                let scheme = self.scheme;
                proof {
                    lemma_decoded_names_user_and_database(packet@);
                }
                let (state, message) = match scheme {
                    AuthenticationType::Trust => (
                        AuthenticationState::Authenticated,
                        OutgoingMessage::AuthenticationOk,
                    ),
                    AuthenticationType::AuthenticationCleartextPassword => (
                        AuthenticationState::Negotiating { scheme },
                        OutgoingMessage::AuthenticationCleartextPassword,
                    ),
                    AuthenticationType::AuthenticationMD5Password => (
                        AuthenticationState::Challenged { scheme, salt },
                        OutgoingMessage::AuthenticationMD5Password { salt },
                    ),
                    AuthenticationType::AuthenticationSASL => {
                        let mut mechanisms: Vec<String> = Vec::new();
                        mechanisms.push("SCRAM-SHA-256".to_owned());
                        assert(texts(mechanisms@) =~= offered_mechanisms());
                        (
                            AuthenticationState::Negotiating { scheme },
                            OutgoingMessage::AuthenticationSASL { mechanisms },
                        )
                    },
                };
                (
                    AuthenticationEngine {
                        scheme,
                        password: self.password,
                        state,
                        parameters: Some(parameters),
                    },
                    Action::Send { message },
                )
            },
        }
    }

    fn response(self, packet: &Vec<u8>) -> (next: (AuthenticationEngine, Action))
        requires
            self@.state is Negotiating || self@.state is Challenged,
        ensures
            (next.0@, next.1@) == on_response(self@, packet@),
            consistent(next.0@),
    {
        proof {
            use_type_invariant(&self);
        }
        let sasl = match &self.state {
            AuthenticationState::Negotiating { scheme } => *scheme
                == AuthenticationType::AuthenticationSASL,
            _ => false,
        };
        if sasl {
            return match payload_in(packet) {
                None => self.refuse(
                    Errors::protocol_violation("malformed authentication response"),
                ),
                Some(payload) => (self, Action::Consult { payload }),
            };
        }
        let sent = match password_in(packet) {
            None => {
                return self.refuse(
                    Errors::protocol_violation("malformed authentication response"),
                );
            },
            Some(sent) => sent,
        };
        let user: String = match &self.parameters {
            Some(parameters) => parameters.user().clone(),
            None => String::new(),
        };
        let matched = match &self.password {
            None => false,
            Some(password) => match &self.state {
                AuthenticationState::Challenged { salt, .. } => {
                    let expected = credential(
                        password.as_str().as_bytes(),
                        user.as_str().as_bytes(),
                        salt.as_slice(),
                    );
                    same_bytes(expected.as_slice(), sent.as_slice())
                },
                _ => same_bytes(password.as_str().as_bytes(), sent.as_slice()),
            },
        };
        if matched {
            self.welcome()
        } else {
            self.refuse(Errors::InvalidPassword { user })
        }
    }

    fn verdict(self, verdict: SaslVerdict) -> (next: (AuthenticationEngine, Action))
        requires
            self@.state == (StateView::Negotiating {
                scheme: AuthenticationType::AuthenticationSASL,
            }),
        ensures
            (next.0@, next.1@) == on_verdict(self@, verdict@),
            consistent(next.0@),
    {
        proof {
            use_type_invariant(&self);
        }
        match verdict {
            SaslVerdict::Accepted => self.welcome(),
            SaslVerdict::Refused => {
                let user: String = match &self.parameters {
                    Some(parameters) => parameters.user().clone(),
                    None => String::new(),
                };
                self.refuse(Errors::InvalidPassword { user })
            },
            SaslVerdict::Continue { challenge } => (self, Action::Forward { bytes: challenge }),
        }
    }

    /// Ends the handshake and hands out what it has come to: the
    /// parameters of the connection where the client is authenticated, the
    /// reason where it is refused.
    pub fn finish(self) -> (outcome: Result<StartupParameters, Errors>)
        requires
            self@.state.terminal(),
        ensures
            match outcome {
                Ok(parameters) => self@.state is Authenticated && self@.parameters == Some(
                    parameters@,
                ),
                Err(reason) => self@.state == (StateView::Rejected { reason: reason@ }),
            },
    {
        proof {
            use_type_invariant(&self);
        }
        match self.state {
            AuthenticationState::Rejected { reason } => Err(reason),
            _ => Ok(self.parameters.unwrap()),
        }
    }
}

} // verus!
