//! The messages that the server sends, and their layout on the wire.
//!
//! Every message is one tag byte, a 32-bit length that counts itself and
//! the payload, and the payload.

use crate::bytes::{
    append_bytes, append_terminated, i32_be_bytes, i32_to_be_bytes, terminated,
};
use crate::errors::{ErrorKind, Errors};
use vstd::prelude::*;

verus! {

/// A message from the server to the client.
#[derive(Debug, PartialEq, Eq)]
pub enum OutgoingMessage {
    /// The client is authenticated.
    AuthenticationOk,
    /// The client is to send its password as it is.
    AuthenticationCleartextPassword,
    /// The client is to send the MD5 digest of its password, salted with `salt`.
    AuthenticationMD5Password { salt: [u8; 4] },
    /// The client is to pick one of `mechanisms` for a SASL exchange.
    AuthenticationSASL { mechanisms: Vec<String> },
    /// The server speaks `version` and does not know `options`.
    NegotiateProtocolVersion { version: i32, options: Vec<String> },
    /// The request failed.
    ErrorResponse { severity: String, code: String, message: String },
}

/// Each text of `texts` in UTF-8, followed by a zero byte.
pub open spec fn terminated_list(texts: Seq<Seq<char>>) -> Seq<u8>
    decreases texts.len(),
{
    if texts.len() == 0 {
        Seq::<u8>::empty()
    } else {
        terminated_list(texts.drop_last()) + terminated(texts.last())
    }
}

/// A message on the wire: the tag, the length of what follows it, the payload.
pub open spec fn frame(tag: u8, payload: Seq<u8>) -> Seq<u8> {
    seq![tag] + i32_be_bytes(payload.len() as int + 4) + payload
}

/// The payload of an authentication request that carries no data.
pub open spec fn authentication_payload(code: int) -> Seq<u8> {
    i32_be_bytes(code)
}

/// The payload of a request for an MD5 digest.
pub open spec fn md5_password_payload(salt: Seq<u8>) -> Seq<u8> {
    i32_be_bytes(5) + salt
}

/// The payload of a request for a SASL exchange.
pub open spec fn sasl_payload(mechanisms: Seq<Seq<char>>) -> Seq<u8> {
    i32_be_bytes(10) + terminated_list(mechanisms) + seq![0u8]
}

/// The payload of a protocol negotiation.
pub open spec fn negotiation_payload(version: int, options: Seq<Seq<char>>) -> Seq<u8> {
    i32_be_bytes(version) + i32_be_bytes(options.len() as int) + terminated_list(options)
}

/// The payload of an error response: severity, code and message, each
/// behind its field code, and a closing zero byte.
pub open spec fn error_payload(
    severity: Seq<char>,
    code: Seq<char>,
    message: Seq<char>,
) -> Seq<u8> {
    seq![0x53u8] + terminated(severity) + seq![0x43u8] + terminated(code) + seq![0x4du8]
        + terminated(message) + seq![0u8]
}

/// The texts that a vector of strings holds.
pub open spec fn texts(strings: Seq<String>) -> Seq<Seq<char>> {
    strings.map_values(|s: String| s@)
}

/// A message from the server to the client, with its texts as sequences
/// of characters.
pub enum MessageView {
    AuthenticationOk,
    AuthenticationCleartextPassword,
    AuthenticationMD5Password { salt: Seq<u8> },
    AuthenticationSASL { mechanisms: Seq<Seq<char>> },
    NegotiateProtocolVersion { version: int, options: Seq<Seq<char>> },
    ErrorResponse { severity: Seq<char>, code: Seq<char>, message: Seq<char> },
}

impl View for OutgoingMessage {
    type V = MessageView;

    open spec fn view(&self) -> MessageView {
        match self {
            OutgoingMessage::AuthenticationOk => MessageView::AuthenticationOk,
            OutgoingMessage::AuthenticationCleartextPassword =>
                MessageView::AuthenticationCleartextPassword,
            OutgoingMessage::AuthenticationMD5Password {
                salt,
            } => MessageView::AuthenticationMD5Password { salt: salt@ },
            OutgoingMessage::AuthenticationSASL { mechanisms } => MessageView::AuthenticationSASL {
                mechanisms: texts(mechanisms@),
            },
            OutgoingMessage::NegotiateProtocolVersion {
                version,
                options,
            } => MessageView::NegotiateProtocolVersion {
                version: *version as int,
                options: texts(options@),
            },
            OutgoingMessage::ErrorResponse {
                severity,
                code,
                message,
            } => MessageView::ErrorResponse {
                severity: severity@,
                code: code@,
                message: message@,
            },
        }
    }
}

impl MessageView {
    /// The tag byte of the message: `R`, `v` or `E`.
    pub open spec fn tag(self) -> u8 {
        match self {
            MessageView::NegotiateProtocolVersion { .. } => 0x76u8,
            MessageView::ErrorResponse { .. } => 0x45u8,
            _ => 0x52u8,
        }
    }

    /// The payload of the message.
    pub open spec fn payload(self) -> Seq<u8> {
        match self {
            MessageView::AuthenticationOk => authentication_payload(0),
            MessageView::AuthenticationCleartextPassword => authentication_payload(3),
            MessageView::AuthenticationMD5Password { salt } => md5_password_payload(salt),
            MessageView::AuthenticationSASL { mechanisms } => sasl_payload(mechanisms),
            MessageView::NegotiateProtocolVersion { version, options } => negotiation_payload(
                version,
                options,
            ),
            MessageView::ErrorResponse { severity, code, message } => error_payload(
                severity,
                code,
                message,
            ),
        }
    }

    /// The message on the wire.
    pub open spec fn encoding(self) -> Seq<u8> {
        frame(self.tag(), self.payload())
    }

    /// Whether the message can be framed: its length fits the length field.
    pub open spec fn well_formed(self) -> bool {
        self.payload().len() + 4 <= i32::MAX
    }
}

/// The SQLSTATE code that an error is reported under.
pub open spec fn sqlstate(e: ErrorKind) -> Seq<char> {
    match e {
        ErrorKind::ProtocolViolation { .. } => "08P01"@,
        ErrorKind::InvalidAuthorizationSpecification { .. } => "28000"@,
        ErrorKind::InvalidPassword { .. } => "28P01"@,
    }
}

/// The message that tells the client of an error.
pub open spec fn error_message(e: ErrorKind) -> MessageView {
    MessageView::ErrorResponse { severity: "FATAL"@, code: sqlstate(e), message: e.text() }
}

impl OutgoingMessage {
    /// The message that tells the client of `error`: fatal, under the
    /// error's code, with the error's text.
    pub fn from_error(error: &Errors) -> (message: OutgoingMessage)
        ensures
            message@ == error_message(error@),
    {
        let code = match error {
            Errors::ProtocolViolation { .. } => "08P01",
            Errors::InvalidAuthorizationSpecification { .. } => "28000",
            Errors::InvalidPassword { .. } => "28P01",
        };
        OutgoingMessage::ErrorResponse {
            severity: "FATAL".to_owned(),
            code: code.to_owned(),
            message: error.message(),
        }
    }
}

/// A list of terminated texts is at least as long as the list.
proof fn lemma_terminated_list_len(list: Seq<Seq<char>>)
    ensures
        terminated_list(list).len() >= list.len(),
    decreases list.len(),
{
    if list.len() > 0 {
        lemma_terminated_list_len(list.drop_last());
    }
}

/// Appends each of `strings`, in UTF-8 and ended by a zero byte, to `buffer`.
fn append_terminated_list(buffer: &mut Vec<u8>, strings: &Vec<String>)
    ensures
        final(buffer)@ == old(buffer)@ + terminated_list(texts(strings@)),
{
    let mut i: usize = 0;
    while i < strings.len()
        invariant
            i <= strings.len(),
            buffer@ == old(buffer)@ + terminated_list(texts(strings@).take(i as int)),
        decreases strings.len() - i,
    {
        append_terminated(buffer, strings[i].as_str());
        proof {
            let next = texts(strings@).take(i + 1);
            assert(next.drop_last() =~= texts(strings@).take(i as int));
            assert(next.last() == strings@[i as int]@);
            assert(buffer@ =~= old(buffer)@ + terminated_list(next));
        }
        i += 1;
    }
    assert(texts(strings@).take(strings.len() as int) =~= texts(strings@));
}

/// Appends the four bytes of `v`, most significant first, to `buffer`.
fn append_i32(buffer: &mut Vec<u8>, v: i32)
    ensures
        final(buffer)@ == old(buffer)@ + i32_be_bytes(v as int),
{
    let bytes = i32_to_be_bytes(v);
    append_bytes(buffer, bytes.as_slice());
}

/// The payload of `message`, or `None` where it names more options than a
/// 32-bit count can hold.
fn payload_of(message: &OutgoingMessage) -> (payload: Option<Vec<u8>>)
    ensures
        payload matches Some(p) ==> p@ == message@.payload(),
        payload is None ==> !message@.well_formed(),
{
    let mut payload: Vec<u8> = Vec::new();
    match message {
        OutgoingMessage::AuthenticationOk => {
            append_i32(&mut payload, 0);
        },
        OutgoingMessage::AuthenticationCleartextPassword => {
            append_i32(&mut payload, 3);
        },
        OutgoingMessage::AuthenticationMD5Password { salt } => {
            append_i32(&mut payload, 5);
            append_bytes(&mut payload, salt.as_slice());
        },
        OutgoingMessage::AuthenticationSASL { mechanisms } => {
            append_i32(&mut payload, 10);
            append_terminated_list(&mut payload, mechanisms);
            payload.push(0u8);
        },
        OutgoingMessage::NegotiateProtocolVersion { version, options } => {
            if options.len() > 0x7fff_ffff {
                proof {
                    lemma_terminated_list_len(texts(options@));
                }
                return None;
            }
            append_i32(&mut payload, *version);
            append_i32(&mut payload, options.len() as i32);
            append_terminated_list(&mut payload, options);
        },
        OutgoingMessage::ErrorResponse { severity, code, message } => {
            payload.push(0x53u8);
            append_terminated(&mut payload, severity.as_str());
            payload.push(0x43u8);
            append_terminated(&mut payload, code.as_str());
            payload.push(0x4du8);
            append_terminated(&mut payload, message.as_str());
            payload.push(0u8);
        },
    }
    assert(payload@ =~= message@.payload());
    Some(payload)
}

/// The tag byte of `message`.
fn tag_of(message: &OutgoingMessage) -> (tag: u8)
    ensures
        tag == message@.tag(),
{
    match message {
        OutgoingMessage::NegotiateProtocolVersion { .. } => 0x76u8,
        OutgoingMessage::ErrorResponse { .. } => 0x45u8,
        _ => 0x52u8,
    }
}

/// The buffer of messages that wait to be written to the client.
pub struct Server {
    buffer: Vec<u8>,
}

impl View for Server {
    type V = Seq<u8>;

    closed spec fn view(&self) -> Seq<u8> {
        self.buffer@
    }
}

impl Server {
    /// A server with nothing to write.
    pub fn new() -> (server: Server)
        ensures
            server@ == Seq::<u8>::empty(),
    {
        Server { buffer: Vec::new() }
    }

    /// The bytes that wait to be written.
    pub fn buffer(&self) -> (bytes: &Vec<u8>)
        ensures
            bytes@ == self@,
    {
        &self.buffer
    }

    /// Hands out the bytes that wait to be written and leaves none behind.
    pub fn take(&mut self) -> (bytes: Vec<u8>)
        ensures
            bytes@ == old(self)@,
            final(self)@ == Seq::<u8>::empty(),
    {
        let mut bytes: Vec<u8> = Vec::new();
        core::mem::swap(&mut self.buffer, &mut bytes);
        bytes
    }

    /// Adds `message` to the buffer where it can be framed, and says
    /// whether it could. The buffer is left as it was where it could not.
    pub fn send(&mut self, message: &OutgoingMessage) -> (sent: bool)
        ensures
            sent == message@.well_formed(),
            sent ==> final(self)@ == old(self)@ + message@.encoding(),
            !sent ==> final(self)@ == old(self)@,
    {
        match payload_of(message) {
            None => false,
            Some(payload) => {
                if payload.len() > 0x7fff_fffb {
                    return false;
                }
                self.buffer.push(tag_of(message));
                append_i32(&mut self.buffer, (payload.len() + 4) as i32);
                append_bytes(&mut self.buffer, payload.as_slice());
                assert(self.buffer@ =~= old(self)@ + message@.encoding());
                true
            },
        }
    }

    /// Add an AuthenticationOk message to the buffer.
    pub fn authentication_ok(&mut self)
        ensures
            final(self)@ == old(self)@ + MessageView::AuthenticationOk.encoding(),
    {
        let sent = self.send(&OutgoingMessage::AuthenticationOk);
        assert(sent);
    }

    /// Add an AuthenticationCleartextPassword message to the buffer.
    pub fn authentication_cleartext_password(&mut self)
        ensures
            final(self)@ == old(self)@
                + MessageView::AuthenticationCleartextPassword.encoding(),
    {
        let sent = self.send(&OutgoingMessage::AuthenticationCleartextPassword);
        assert(sent);
    }

    /// Add an AuthenticationMD5Password message with the given salt to the buffer.
    pub fn authentication_md5_password(&mut self, salt: [u8; 4])
        ensures
            final(self)@ == old(self)@ + frame(0x52u8, md5_password_payload(salt@)),
    {
        let sent = self.send(&OutgoingMessage::AuthenticationMD5Password { salt });
        assert(sent);
    }

    /// Add an AuthenticationSASL message that offers `mechanisms` to the buffer.
    pub fn authentication_sasl(&mut self, mechanisms: Vec<String>)
        requires
            sasl_payload(texts(mechanisms@)).len() + 4 <= i32::MAX,
        ensures
            final(self)@ == old(self)@ + frame(0x52u8, sasl_payload(texts(mechanisms@))),
    {
        let sent = self.send(&OutgoingMessage::AuthenticationSASL { mechanisms });
        assert(sent);
    }

    /// Add a NegotiateProtocolVersion message to the buffer: the version
    /// that the server speaks and the options that it does not know.
    pub fn negotiate_protocol_version(&mut self, version: i32, options: Vec<String>)
        requires
            negotiation_payload(version as int, texts(options@)).len() + 4 <= i32::MAX,
        ensures
            final(self)@ == old(self)@ + frame(
                0x76u8,
                negotiation_payload(version as int, texts(options@)),
            ),
    {
        let sent = self.send(&OutgoingMessage::NegotiateProtocolVersion { version, options });
        assert(sent);
    }

    /// Add an ErrorResponse message to the buffer.
    pub fn error_response(&mut self, severity: &str, code: &str, message: &str)
        requires
            error_payload(severity@, code@, message@).len() + 4 <= i32::MAX,
        ensures
            final(self)@ == old(self)@ + frame(
                0x45u8,
                error_payload(severity@, code@, message@),
            ),
    {
        let response = OutgoingMessage::ErrorResponse {
            severity: severity.to_owned(),
            code: code.to_owned(),
            message: message.to_owned(),
        };
        let sent = self.send(&response);
        assert(sent);
    }
}

/// The requests that carry no data are nine fixed bytes: the tag `R`, the
/// length 8 and the request's code.
pub proof fn lemma_fixed_requests()
    ensures
        MessageView::AuthenticationOk.encoding() == seq![
            0x52u8, 0u8, 0u8, 0u8, 8u8, 0u8, 0u8, 0u8, 0u8,
        ],
        MessageView::AuthenticationCleartextPassword.encoding() == seq![
            0x52u8, 0u8, 0u8, 0u8, 8u8, 0u8, 0u8, 0u8, 3u8,
        ],
{
    assert(MessageView::AuthenticationOk.encoding() =~= seq![
        0x52u8, 0u8, 0u8, 0u8, 8u8, 0u8, 0u8, 0u8, 0u8,
    ]);
    assert(MessageView::AuthenticationCleartextPassword.encoding() =~= seq![
        0x52u8, 0u8, 0u8, 0u8, 8u8, 0u8, 0u8, 0u8, 3u8,
    ]);
}

/// A request for an MD5 digest is thirteen bytes: the tag `R`, the length
/// 12, the code 5 and the four bytes of the salt.
pub proof fn lemma_md5_request(salt: Seq<u8>)
    requires
        salt.len() == 4,
    ensures
        frame(0x52u8, md5_password_payload(salt)) == seq![
            0x52u8, 0u8, 0u8, 0u8, 12u8, 0u8, 0u8, 0u8, 5u8,
        ] + salt,
{
    assert(frame(0x52u8, md5_password_payload(salt)) =~= seq![
        0x52u8, 0u8, 0u8, 0u8, 12u8, 0u8, 0u8, 0u8, 5u8,
    ] + salt);
}

} // verus!
