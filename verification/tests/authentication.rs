//! Tests of the authentication handshake.

use rustgres::authentication::{Action, AuthenticationEngine, AuthenticationState, Event, SaslVerdict};
use rustgres::{AuthenticationType, Configuration, Errors, HostAddr, IpAddress, OutgoingMessage, Server};

fn configuration(scheme: AuthenticationType, password: Option<&str>) -> Configuration {
    Configuration::new(
        "postgres".to_owned(),
        password.map(|p| p.to_owned()),
        None,
        HostAddr { ip: IpAddress::V4(127, 0, 0, 1), port: 5432 },
        scheme,
    )
}

fn startup_for(user: &[u8]) -> Vec<u8> {
    let mut tail = b"user\0".to_vec();
    tail.extend_from_slice(user);
    tail.extend_from_slice(b"\0\0");
    let length = (8 + tail.len()) as u32;
    let mut packet = length.to_be_bytes().to_vec();
    packet.extend_from_slice(&[0, 3, 0, 0]);
    packet.extend_from_slice(&tail);
    packet
}

fn reply_with(credential: &[u8]) -> Vec<u8> {
    let length = (credential.len() + 5) as u32;
    let mut packet = vec![b'p'];
    packet.extend_from_slice(&length.to_be_bytes());
    packet.extend_from_slice(credential);
    packet.push(0);
    packet
}

const SALT: [u8; 4] = [1, 2, 3, 4];

fn started(scheme: AuthenticationType, password: Option<&str>) -> (AuthenticationEngine, Action) {
    let engine = AuthenticationEngine::new(&configuration(scheme, password));
    assert_eq!(engine.state(), &AuthenticationState::AwaitingStartup);
    let event = Event::Startup { packet: startup_for(b"alice"), salt: SALT };
    assert!(engine.accepts(&event));
    engine.step(event)
}

fn invalid_password_response() -> OutgoingMessage {
    OutgoingMessage::ErrorResponse {
        severity: "FATAL".to_owned(),
        code: "28P01".to_owned(),
        message: "password authentication failed for user alice".to_owned(),
    }
}

#[test]
fn trust_authenticates_with_one_message() {
    let (engine, action) = started(AuthenticationType::Trust, None);
    assert_eq!(action, Action::Send { message: OutgoingMessage::AuthenticationOk });
    assert_eq!(engine.state(), &AuthenticationState::Authenticated);
    assert!(engine.is_authenticated());
    assert!(engine.is_finished());
    assert_eq!(engine.parameters().unwrap().user(), "alice");
    let parameters = engine.finish().unwrap();
    assert_eq!(parameters.database(), "alice");
}

#[test]
fn ended_handshake_accepts_nothing() {
    let (engine, _) = started(AuthenticationType::Trust, None);
    assert!(!engine.accepts(&Event::Startup { packet: startup_for(b"alice"), salt: SALT }));
    assert!(!engine.accepts(&Event::Response { packet: reply_with(b"x") }));
    assert!(!engine.accepts(&Event::Verdict { verdict: SaslVerdict::Accepted }));
}

#[test]
fn events_out_of_turn_are_not_accepted() {
    let engine = AuthenticationEngine::new(&configuration(AuthenticationType::Trust, None));
    assert!(!engine.accepts(&Event::Response { packet: reply_with(b"x") }));
    assert!(!engine.accepts(&Event::Verdict { verdict: SaslVerdict::Accepted }));
    let (engine, _) = started(AuthenticationType::AuthenticationCleartextPassword, Some("pw"));
    assert!(!engine.accepts(&Event::Startup { packet: startup_for(b"alice"), salt: SALT }));
    assert!(!engine.accepts(&Event::Verdict { verdict: SaslVerdict::Accepted }));
    assert!(engine.accepts(&Event::Response { packet: reply_with(b"pw") }));
}

#[test]
fn cleartext_with_the_right_password() {
    let (engine, action) =
        started(AuthenticationType::AuthenticationCleartextPassword, Some("secret"));
    assert_eq!(action, Action::Send { message: OutgoingMessage::AuthenticationCleartextPassword });
    assert_eq!(
        engine.state(),
        &AuthenticationState::Negotiating {
            scheme: AuthenticationType::AuthenticationCleartextPassword
        }
    );
    assert!(!engine.is_finished());
    let (engine, action) = engine.step(Event::Response { packet: reply_with(b"secret") });
    assert_eq!(action, Action::Send { message: OutgoingMessage::AuthenticationOk });
    assert_eq!(engine.state(), &AuthenticationState::Authenticated);
}

#[test]
fn cleartext_with_a_wrong_password() {
    let (engine, _) = started(AuthenticationType::AuthenticationCleartextPassword, Some("secret"));
    let (engine, action) = engine.step(Event::Response { packet: reply_with(b"Secret") });
    assert_eq!(action, Action::Send { message: invalid_password_response() });
    assert_eq!(
        engine.state(),
        &AuthenticationState::Rejected {
            reason: Errors::InvalidPassword { user: "alice".to_owned() }
        }
    );
    assert!(engine.is_finished());
    assert!(!engine.is_authenticated());
    assert_eq!(engine.finish().err(), Some(Errors::InvalidPassword { user: "alice".to_owned() }));
}

#[test]
fn cleartext_without_a_configured_password_refuses() {
    let (engine, _) = started(AuthenticationType::AuthenticationCleartextPassword, None);
    let (engine, action) = engine.step(Event::Response { packet: reply_with(b"") });
    assert_eq!(action, Action::Send { message: invalid_password_response() });
    assert!(!engine.is_authenticated());
}

#[test]
fn password_prefix_is_not_the_password() {
    let (engine, _) = started(AuthenticationType::AuthenticationCleartextPassword, Some("secret"));
    let (engine, _) = engine.step(Event::Response { packet: reply_with(b"secre") });
    assert!(!engine.is_authenticated());
    let (engine, _) = started(AuthenticationType::AuthenticationCleartextPassword, Some("secret"));
    let (engine, _) = engine.step(Event::Response { packet: reply_with(b"secrets") });
    assert!(!engine.is_authenticated());
}

#[test]
fn md5_with_the_right_digest() {
    let (engine, action) = started(AuthenticationType::AuthenticationMD5Password, Some("secret"));
    assert_eq!(
        action,
        Action::Send { message: OutgoingMessage::AuthenticationMD5Password { salt: SALT } }
    );
    assert_eq!(
        engine.state(),
        &AuthenticationState::Challenged {
            scheme: AuthenticationType::AuthenticationMD5Password,
            salt: SALT
        }
    );
    let reply = reply_with(b"md598a0412b9c31436fc53776e863350083");
    let (engine, action) = engine.step(Event::Response { packet: reply });
    assert_eq!(action, Action::Send { message: OutgoingMessage::AuthenticationOk });
    assert_eq!(engine.state(), &AuthenticationState::Authenticated);
}

#[test]
fn md5_with_a_wrong_digest() {
    let (engine, _) = started(AuthenticationType::AuthenticationMD5Password, Some("secret"));
    let reply = reply_with(b"md598a0412b9c31436fc53776e863350084");
    let (engine, action) = engine.step(Event::Response { packet: reply });
    assert_eq!(action, Action::Send { message: invalid_password_response() });
    assert_eq!(
        engine.state(),
        &AuthenticationState::Rejected {
            reason: Errors::InvalidPassword { user: "alice".to_owned() }
        }
    );
}

#[test]
fn md5_does_not_take_the_password_itself() {
    let (engine, _) = started(AuthenticationType::AuthenticationMD5Password, Some("secret"));
    let (engine, _) = engine.step(Event::Response { packet: reply_with(b"secret") });
    assert!(!engine.is_authenticated());
}

#[test]
fn md5_digest_depends_on_the_salt() {
    let engine = AuthenticationEngine::new(&configuration(
        AuthenticationType::AuthenticationMD5Password,
        Some("secret"),
    ));
    let (engine, _) =
        engine.step(Event::Startup { packet: startup_for(b"alice"), salt: [4, 3, 2, 1] });
    let reply = reply_with(b"md598a0412b9c31436fc53776e863350083");
    let (engine, _) = engine.step(Event::Response { packet: reply });
    assert!(!engine.is_authenticated());
}

#[test]
fn malformed_reply_is_a_protocol_violation() {
    let malformed: Vec<Vec<u8>> = vec![
        vec![],
        vec![b'p', 0, 0, 0],
        vec![b'q', 0, 0, 0, 11, b's', b'e', b'c', b'r', b'e', b't', 0],
        vec![b'p', 0, 0, 0, 12, b's', b'e', b'c', b'r', b'e', b't', 0],
        vec![b'p', 0, 0, 0, 10, b's', b'e', b'c', b'r', b'e', b't'],
        vec![b'p', 0, 0, 0, 11, b's', b'e', 0, b'r', b'e', b't', 0],
        vec![b'p', 0, 0, 0, 4],
        vec![b'p', 0xff, 0xff, 0xff, 0xff, 0],
    ];
    for packet in malformed {
        let (engine, _) =
            started(AuthenticationType::AuthenticationCleartextPassword, Some("secret"));
        let (engine, action) = engine.step(Event::Response { packet });
        assert_eq!(
            action,
            Action::Send {
                message: OutgoingMessage::ErrorResponse {
                    severity: "FATAL".to_owned(),
                    code: "08P01".to_owned(),
                    message: "malformed authentication response".to_owned(),
                }
            }
        );
        assert!(matches!(
            engine.state(),
            AuthenticationState::Rejected { reason: Errors::ProtocolViolation { .. } }
        ));
    }
}

#[test]
fn startup_that_does_not_decode_is_refused() {
    let engine = AuthenticationEngine::new(&configuration(AuthenticationType::Trust, None));
    let mut packet = startup_for(b"alice");
    packet[5] = 4;
    let (engine, action) = engine.step(Event::Startup { packet, salt: SALT });
    assert_eq!(
        action,
        Action::Send {
            message: OutgoingMessage::ErrorResponse {
                severity: "FATAL".to_owned(),
                code: "08P01".to_owned(),
                message: "unsupported frontend protocol".to_owned(),
            }
        }
    );
    assert_eq!(
        engine.state(),
        &AuthenticationState::Rejected {
            reason: Errors::ProtocolViolation {
                message: "unsupported frontend protocol".to_owned()
            }
        }
    );
    assert!(engine.parameters().is_none());
    assert!(engine.finish().is_err());
}

#[test]
fn startup_without_user_is_refused_under_trust() {
    let engine = AuthenticationEngine::new(&configuration(AuthenticationType::Trust, None));
    let packet = vec![0, 0, 0, 9, 0, 3, 0, 0, 0];
    let (engine, action) = engine.step(Event::Startup { packet, salt: SALT });
    assert_eq!(
        action,
        Action::Send {
            message: OutgoingMessage::ErrorResponse {
                severity: "FATAL".to_owned(),
                code: "28000".to_owned(),
                message: "no PostgreSQL user name specified in startup packet".to_owned(),
            }
        }
    );
    assert!(matches!(
        engine.state(),
        AuthenticationState::Rejected {
            reason: Errors::InvalidAuthorizationSpecification { .. }
        }
    ));
}

#[test]
fn sasl_hands_the_reply_to_the_mechanism() {
    let (engine, action) = started(AuthenticationType::AuthenticationSASL, None);
    assert_eq!(
        action,
        Action::Send {
            message: OutgoingMessage::AuthenticationSASL {
                mechanisms: vec!["SCRAM-SHA-256".to_owned()]
            }
        }
    );
    let reply = vec![b'p', 0, 0, 0, 7, 0xaa, 0x00, 0xbb];
    let (engine, action) = engine.step(Event::Response { packet: reply });
    assert_eq!(action, Action::Consult { payload: vec![0xaa, 0x00, 0xbb] });
    assert!(!engine.is_finished());
    let verdict = SaslVerdict::Continue { challenge: vec![9, 9, 9] };
    let (engine, action) = engine.step(Event::Verdict { verdict });
    assert_eq!(action, Action::Forward { bytes: vec![9, 9, 9] });
    assert_eq!(
        engine.state(),
        &AuthenticationState::Negotiating { scheme: AuthenticationType::AuthenticationSASL }
    );
    let (engine, action) = engine.step(Event::Response { packet: vec![b'p', 0, 0, 0, 4] });
    assert_eq!(action, Action::Consult { payload: vec![] });
    let (engine, action) = engine.step(Event::Verdict { verdict: SaslVerdict::Accepted });
    assert_eq!(action, Action::Send { message: OutgoingMessage::AuthenticationOk });
    assert!(engine.is_authenticated());
}

#[test]
fn sasl_refusal_is_an_invalid_password() {
    let (engine, _) = started(AuthenticationType::AuthenticationSASL, None);
    let (engine, action) = engine.step(Event::Verdict { verdict: SaslVerdict::Refused });
    assert_eq!(action, Action::Send { message: invalid_password_response() });
    assert_eq!(engine.finish().err(), Some(Errors::InvalidPassword { user: "alice".to_owned() }));
}

#[test]
fn sasl_reply_without_its_length_is_a_protocol_violation() {
    let (engine, _) = started(AuthenticationType::AuthenticationSASL, None);
    let (engine, _) = engine.step(Event::Response { packet: vec![b'p', 0, 0, 0, 9, 1] });
    assert!(matches!(
        engine.state(),
        AuthenticationState::Rejected { reason: Errors::ProtocolViolation { .. } }
    ));
}

#[test]
fn handshake_written_to_the_wire() {
    let mut server = Server::new();
    let (engine, action) = started(AuthenticationType::AuthenticationMD5Password, Some("secret"));
    if let Action::Send { message } = action {
        assert!(server.send(&message));
    }
    let (_, action) = engine.step(Event::Response { packet: reply_with(b"nope") });
    if let Action::Send { message } = action {
        assert!(server.send(&message));
    }
    let mut expected = vec![b'R', 0, 0, 0, 12, 0, 0, 0, 5, 1, 2, 3, 4, b'E', 0, 0, 0, 66];
    expected.extend_from_slice(
        b"SFATAL\0C28P01\0Mpassword authentication failed for user alice\0\0",
    );
    assert_eq!(server.buffer(), &expected);
}
