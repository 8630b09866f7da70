//! Tests of the message encoder and of the configuration.

use rustgres::{
    AuthenticationType, Configuration, Errors, HostAddr, IpAddress, OutgoingMessage, Server,
};

#[test]
fn test_default_configuration() {
    let configuration = Configuration::default();
    assert_eq!(configuration.authentication_type(), AuthenticationType::Trust)
}

#[test]
fn default_configuration_is_postgres_on_the_local_host() {
    let configuration = Configuration::default();
    assert_eq!(configuration.clone().user(), "postgres");
    assert_eq!(configuration.clone().password(), None);
    assert_eq!(configuration.clone().dbname(), None);
    assert_eq!(
        configuration.clone().hostaddr(),
        HostAddr { ip: IpAddress::V4(127, 0, 0, 1), port: 5432 }
    );
    assert_eq!(configuration.scheme(), AuthenticationType::Trust);
    assert_eq!(configuration.expected_password(), None);
}

#[test]
fn configuration_keeps_what_it_was_given() {
    let configuration = Configuration::new(
        "postgres".to_owned(),
        Some("secret".to_owned()),
        Some("db".to_owned()),
        HostAddr { ip: IpAddress::V4(127, 0, 0, 1), port: 3000 },
        AuthenticationType::AuthenticationMD5Password,
    );
    assert_eq!(configuration.clone().user(), "postgres");
    assert_eq!(configuration.clone().password(), Some("secret".to_owned()));
    assert_eq!(configuration.clone().dbname(), Some("db".to_owned()));
    assert_eq!(configuration.clone().hostaddr().port, 3000);
    assert_eq!(
        configuration.clone().authentication_type(),
        AuthenticationType::AuthenticationMD5Password
    );
    assert_eq!(configuration.expected_password(), Some(&"secret".to_owned()));
}

#[test]
fn test_authentication_ok() {
    let mut server = Server::new();
    server.authentication_ok();
    assert_eq!(server.buffer(), &vec![b'R', 0, 0, 0, 8, 0, 0, 0, 0]);
}

#[test]
fn test_wrong_username_error() {
    let mut server = Server::new();
    server.error_response("FATAL", "28000", "role \"nobody\" does not exist");
    let mut expected = vec![b'E', 0, 0, 0, 49];
    expected.extend_from_slice(b"SFATAL\0C28000\0Mrole \"nobody\" does not exist\0\0");
    assert_eq!(expected.len(), 50);
    assert_eq!(server.buffer(), &expected);
}

#[test]
fn cleartext_request_is_code_three() {
    let mut server = Server::new();
    server.authentication_cleartext_password();
    assert_eq!(server.buffer(), &vec![b'R', 0, 0, 0, 8, 0, 0, 0, 3]);
}

#[test]
fn md5_request_carries_the_salt() {
    let mut server = Server::new();
    server.authentication_md5_password([0xde, 0xad, 0xbe, 0xef]);
    assert_eq!(server.buffer(), &vec![b'R', 0, 0, 0, 12, 0, 0, 0, 5, 0xde, 0xad, 0xbe, 0xef]);
}

#[test]
fn sasl_request_lists_the_mechanisms() {
    let mut server = Server::new();
    server.authentication_sasl(vec!["SCRAM-SHA-256".to_owned(), "SCRAM-SHA-256-PLUS".to_owned()]);
    let mut expected = vec![b'R', 0, 0, 0, 42, 0, 0, 0, 10];
    expected.extend_from_slice(b"SCRAM-SHA-256\0SCRAM-SHA-256-PLUS\0\0");
    assert_eq!(expected.len(), 43);
    assert_eq!(server.buffer(), &expected);
}

#[test]
fn negotiation_counts_the_options() {
    let mut server = Server::new();
    server.negotiate_protocol_version(196608, vec!["_pq_.a".to_owned(), "_pq_.b".to_owned()]);
    let mut expected = vec![b'v', 0, 0, 0, 26, 0, 3, 0, 0, 0, 0, 0, 2];
    expected.extend_from_slice(b"_pq_.a\0_pq_.b\0");
    assert_eq!(expected.len(), 27);
    assert_eq!(server.buffer(), &expected);
}

#[test]
fn negotiation_without_options() {
    let mut server = Server::new();
    server.negotiate_protocol_version(-1, Vec::new());
    assert_eq!(server.buffer(), &vec![b'v', 0, 0, 0, 12, 0xff, 0xff, 0xff, 0xff, 0, 0, 0, 0]);
}

#[test]
fn messages_follow_each_other_in_the_buffer() {
    let mut server = Server::new();
    server.authentication_cleartext_password();
    assert!(server.send(&OutgoingMessage::AuthenticationOk));
    assert_eq!(
        server.buffer(),
        &vec![b'R', 0, 0, 0, 8, 0, 0, 0, 3, b'R', 0, 0, 0, 8, 0, 0, 0, 0]
    );
    let taken = server.take();
    assert_eq!(taken.len(), 18);
    assert!(server.buffer().is_empty());
}

#[test]
fn send_encodes_every_kind_of_message() {
    let mut server = Server::new();
    assert!(server.send(&OutgoingMessage::ErrorResponse {
        severity: "FATAL".to_owned(),
        code: "28P01".to_owned(),
        message: "no".to_owned(),
    }));
    let mut expected = vec![b'E', 0, 0, 0, 23];
    expected.extend_from_slice(b"SFATAL\0C28P01\0Mno\0\0");
    assert_eq!(server.take(), expected);
    assert!(server.send(&OutgoingMessage::AuthenticationMD5Password { salt: [1, 2, 3, 4] }));
    assert_eq!(server.take(), vec![b'R', 0, 0, 0, 12, 0, 0, 0, 5, 1, 2, 3, 4]);
    assert!(server.send(&OutgoingMessage::AuthenticationSASL { mechanisms: Vec::new() }));
    assert_eq!(server.take(), vec![b'R', 0, 0, 0, 9, 0, 0, 0, 10, 0]);
}

#[test]
fn every_error_has_its_response() {
    assert_eq!(
        OutgoingMessage::from_error(&Errors::protocol_violation("incomplete startup packet")),
        OutgoingMessage::ErrorResponse {
            severity: "FATAL".to_owned(),
            code: "08P01".to_owned(),
            message: "incomplete startup packet".to_owned(),
        }
    );
    assert_eq!(
        OutgoingMessage::from_error(&Errors::InvalidAuthorizationSpecification {
            message: "no user".to_owned()
        }),
        OutgoingMessage::ErrorResponse {
            severity: "FATAL".to_owned(),
            code: "28000".to_owned(),
            message: "no user".to_owned(),
        }
    );
    assert_eq!(
        OutgoingMessage::from_error(&Errors::InvalidPassword { user: "bob".to_owned() }),
        OutgoingMessage::ErrorResponse {
            severity: "FATAL".to_owned(),
            code: "28P01".to_owned(),
            message: "password authentication failed for user bob".to_owned(),
        }
    );
}
