//! Decoding of the startup packet, the first packet a client sends.
//!
//! The packet carries its own length, the protocol version and a list of
//! parameters, each a name and a value that end with a zero byte. One more
//! zero byte ends the packet.

use crate::bytes::{be_i32, copy_range, i32_from_be_bytes, slice_to_array};
use crate::errors::{ErrorKind, Errors};
use vstd::hash_map::StringHashMap;
use vstd::prelude::*;
use vstd::slice::slice_subrange;
use vstd::utf8::{decode_utf8, encode_utf8, encode_utf8_decode_utf8, valid_utf8};

verus! {

/// The longest startup packet that is accepted, in bytes.
pub const MAXIMUM_STARTUP_PACKET_LENGTH: usize = 10000;

/// The one protocol version that is spoken: major 3, minor 0.
pub const SUPPORTED_PROTOCOL_VERSION: i32 = 196608;

/// The number of bytes of `s` from `from` on that come before the first zero
/// byte, or before `to` where no zero byte comes first.
pub open spec fn run_length(s: Seq<u8>, from: int, to: int) -> nat
    decreases to - from,
{
    if from >= to || s[from] == 0 {
        0
    } else {
        1 + run_length(s, from + 1, to)
    }
}

/// A run of bytes without a zero, followed by a zero byte before `to`, is
/// counted in full.
pub proof fn lemma_run_length_of_terminated(s: Seq<u8>, from: int, to: int, k: int)
    requires
        0 <= from,
        0 <= k,
        from + k < to <= s.len(),
        forall|i: int| from <= i < from + k ==> s[i] != 0,
        s[from + k] == 0,
    ensures
        run_length(s, from, to) == k,
    decreases k,
{
    if k > 0 {
        lemma_run_length_of_terminated(s, from + 1, to, k - 1);
    }
}

/// The parameters read from `s` between `pos` and `end`, added to `acc` in
/// the order in which they stand, a later value replacing an earlier one of
/// the same name. `None` where a name or a value has no zero byte to end it
/// before `end`, or is not UTF-8.
pub open spec fn scan_parameters(
    s: Seq<u8>,
    pos: int,
    end: int,
    acc: Map<Seq<char>, Seq<char>>,
) -> Option<Map<Seq<char>, Seq<char>>>
    decreases end - pos,
{
    if pos >= end {
        if pos == end {
            Some(acc)
        } else {
            None
        }
    } else {
        let name_end = pos + run_length(s, pos, end);
        let value_end = name_end + 1 + run_length(s, name_end + 1, end);
        let name = s.subrange(pos, name_end);
        let value = s.subrange(name_end + 1, value_end);
        if name_end >= end || value_end >= end || !valid_utf8(name) || !valid_utf8(value) {
            None
        } else {
            scan_parameters(
                s,
                value_end + 1,
                end,
                acc.insert(decode_utf8(name), decode_utf8(value)),
            )
        }
    }
}

/// The parameter that every decoded packet carries: the protocol version in
/// decimal.
pub open spec fn version_entry() -> Map<Seq<char>, Seq<char>> {
    Map::<Seq<char>, Seq<char>>::empty().insert("protocol_version"@, "196608"@)
}

/// `m`, with the database named after the user where none is named.
pub open spec fn with_default_database(m: Map<Seq<char>, Seq<char>>) -> Map<
    Seq<char>,
    Seq<char>,
> {
    if m.contains_key("database"@) {
        m
    } else {
        m.insert("database"@, m["user"@])
    }
}

/// The result of decoding once the parameters are read: an error where
/// they could not be read or name no user, else the parameters with the
/// database named.
pub open spec fn conclude(scanned: Option<Map<Seq<char>, Seq<char>>>) -> Result<
    Map<Seq<char>, Seq<char>>,
    ErrorKind,
> {
    match scanned {
        None => Err(
            ErrorKind::ProtocolViolation {
                message: "invalid startup packet layout: malformed parameter"@,
            },
        ),
        Some(m) => if !m.contains_key("user"@) {
            Err(
                ErrorKind::InvalidAuthorizationSpecification {
                    message: "no PostgreSQL user name specified in startup packet"@,
                },
            )
        } else {
            Ok(with_default_database(m))
        },
    }
}

/// What decoding a startup packet gives: the parameters, or the error that
/// the first failed check raises.
pub open spec fn decode_startup(packet: Seq<u8>) -> Result<Map<Seq<char>, Seq<char>>, ErrorKind> {
    if packet.len() > MAXIMUM_STARTUP_PACKET_LENGTH {
        Err(ErrorKind::ProtocolViolation { message: "invalid length of startup packet"@ })
    } else if packet.len() < 4 || be_i32(packet.subrange(0, 4)) != packet.len() {
        Err(ErrorKind::ProtocolViolation { message: "incomplete startup packet"@ })
    } else if packet.last() != 0 {
        Err(
            ErrorKind::ProtocolViolation {
                message: "invalid startup packet layout: expected terminator as last byte"@,
            },
        )
    } else if packet.len() < 8 || be_i32(packet.subrange(4, 8)) != SUPPORTED_PROTOCOL_VERSION {
        Err(ErrorKind::ProtocolViolation { message: "unsupported frontend protocol"@ })
    } else {
        conclude(scan_parameters(packet, 8, packet.len() - 1, version_entry()))
    }
}

/// A packet longer than the limit is refused for its length, whatever it holds.
pub proof fn lemma_oversized_packet_is_refused(packet: Seq<u8>)
    requires
        packet.len() > MAXIMUM_STARTUP_PACKET_LENGTH,
    ensures
        decode_startup(packet) == Err::<Map<Seq<char>, Seq<char>>, ErrorKind>(
            ErrorKind::ProtocolViolation { message: "invalid length of startup packet"@ },
        ),
{
}

/// A packet whose first four bytes do not hold its own length is a protocol
/// violation, whatever else it holds.
pub proof fn lemma_length_mismatch_is_violation(packet: Seq<u8>)
    requires
        packet.len() < 4 || be_i32(packet.subrange(0, 4)) != packet.len(),
    ensures
        decode_startup(packet) is Err,
        decode_startup(packet)->Err_0 is ProtocolViolation,
{
}

/// A packet that does not end with a zero byte is a protocol violation.
pub proof fn lemma_missing_terminator_is_violation(packet: Seq<u8>)
    requires
        packet.len() == 0 || packet.last() != 0,
    ensures
        decode_startup(packet) is Err,
        decode_startup(packet)->Err_0 is ProtocolViolation,
{
}

/// A packet that asks for another protocol version than the supported one
/// is a protocol violation, whatever else it holds.
pub proof fn lemma_other_version_is_violation(packet: Seq<u8>)
    requires
        packet.len() >= 8,
        be_i32(packet.subrange(4, 8)) != SUPPORTED_PROTOCOL_VERSION,
    ensures
        decode_startup(packet) is Err,
        decode_startup(packet)->Err_0 is ProtocolViolation,
{
}

/// Whatever is decoded names a user and a database, and the database is
/// the user's name where the packet itself named none.
pub proof fn lemma_decoded_names_user_and_database(packet: Seq<u8>)
    requires
        decode_startup(packet) is Ok,
    ensures
        decode_startup(packet)->Ok_0.contains_key("user"@),
        decode_startup(packet)->Ok_0.contains_key("database"@),
        scan_parameters(packet, 8, packet.len() - 1, version_entry()) matches Some(named)
            && (!named.contains_key("database"@) ==> decode_startup(packet)->Ok_0["database"@]
            == named["user"@]),
{
    assert("database"@ != "user"@) by {
        reveal_strlit("database");
        reveal_strlit("user");
        assert("database"@.len() == 8 && "user"@.len() == 4);
    }
}

/// The parameters of a connection, as the startup packet named them.
pub struct StartupParameters {
    entries: StringHashMap<String>,
}

impl View for StartupParameters {
    type V = Map<Seq<char>, Seq<char>>;

    closed spec fn view(&self) -> Map<Seq<char>, Seq<char>> {
        self.entries@.map_values(|v: String| v@)
    }
}

impl StartupParameters {
    #[verifier::type_invariant]
    spec fn names_user_and_database(&self) -> bool {
        &&& self.entries@.contains_key("user"@)
        &&& self.entries@.contains_key("database"@)
    }

    /// The value of the parameter `name`, if the packet held it.
    pub fn get(&self, name: &str) -> (value: Option<&String>)
        ensures
            match value {
                Some(v) => self@.contains_key(name@) && v@ == self@[name@],
                None => !self@.contains_key(name@),
            },
    {
        self.entries.get(name)
    }

    /// Whether the packet held a parameter `name`.
    pub fn contains_key(&self, name: &str) -> (held: bool)
        ensures
            held == self@.contains_key(name@),
    {
        self.entries.contains_key(name)
    }

    /// The number of parameters.
    pub fn len(&self) -> (n: usize)
        ensures
            n == self@.len(),
    {
        proof {
            lemma_map_values_len(self.entries@);
        }
        self.entries.len()
    }

    /// The name of the user who connects.
    pub fn user(&self) -> (value: &String)
        ensures
            self@.contains_key("user"@),
            value@ == self@["user"@],
    {
        proof {
            use_type_invariant(self);
        }
        self.entries.get("user").unwrap()
    }

    /// The name of the database that the user connects to.
    pub fn database(&self) -> (value: &String)
        ensures
            self@.contains_key("database"@),
            value@ == self@["database"@],
    {
        proof {
            use_type_invariant(self);
        }
        self.entries.get("database").unwrap()
    }
}

/// Packets received from the client.
pub enum FrontEndFrames {
    /// First message sent by the client when the connection is opened. Only
    /// the parameter `user` is mandatory; any number of others may come with it.
    StartupMessage { parameters: StartupParameters },
}

impl FrontEndFrames {
    /// The parameters that the frame carries.
    pub open spec fn parameters(self) -> Map<Seq<char>, Seq<char>> {
        match self {
            FrontEndFrames::StartupMessage { parameters } => parameters@,
        }
    }

    /// Decodes a startup packet: the parameters that it names, or the error
    /// of the first check that it fails. Names and values are kept at their
    /// full length, whatever limit a server may put on the names it stores.
    pub fn try_from(packet: &Vec<u8>) -> (decoded: Result<FrontEndFrames, Errors>)
        ensures
            match decoded {
                Ok(frame) => decode_startup(packet@) == Ok::<
                    Map<Seq<char>, Seq<char>>,
                    ErrorKind,
                >(frame.parameters()),
                Err(e) => decode_startup(packet@) == Err::<Map<Seq<char>, Seq<char>>, ErrorKind>(
                    e@,
                ),
            },
    {
        let length = packet.len();
        if length > MAXIMUM_STARTUP_PACKET_LENGTH {
            return Err(Errors::protocol_violation("invalid length of startup packet"));
        }
        if length < 4 {
            return Err(Errors::protocol_violation("incomplete startup packet"));
        }
        let declared = i32_from_be_bytes(slice_to_array(slice_subrange(packet.as_slice(), 0, 4)));
        if declared < 0 || declared as usize != length {
            return Err(Errors::protocol_violation("incomplete startup packet"));
        }
        if packet[length - 1] != 0 {
            return Err(
                Errors::protocol_violation(
                    "invalid startup packet layout: expected terminator as last byte",
                ),
            );
        }
        if length < 8 {
            return Err(Errors::protocol_violation("unsupported frontend protocol"));
        }
        let protocol_version = i32_from_be_bytes(
            slice_to_array(slice_subrange(packet.as_slice(), 4, 8)),
        );
        if protocol_version != SUPPORTED_PROTOCOL_VERSION {
            return Err(Errors::protocol_violation("unsupported frontend protocol"));
        }
        let mut entries: StringHashMap<String> = StringHashMap::new();
        entries.insert("protocol_version".to_owned(), "196608".to_owned());
        assert(entries@.map_values(|v: String| v@) =~= version_entry());
        // The packet ends with a zero byte, so the parameters end one byte before it.
        let end: usize = length - 1;
        if end < 8 {
            return Err(malformed_parameter());
        }
        let mut cursor: usize = 8;
        while cursor != end
            invariant
                8 <= cursor <= end,
                end == packet.len() - 1,
                decode_startup(packet@) == conclude(
                    scan_parameters(packet@, 8, end as int, version_entry()),
                ),
                scan_parameters(packet@, 8, end as int, version_entry()) == scan_parameters(
                    packet@,
                    cursor as int,
                    end as int,
                    entries@.map_values(|v: String| v@),
                ),
            decreases end - cursor,
        {
            let name_end = find_terminator(packet, cursor, end);
            if name_end >= end {
                return Err(malformed_parameter());
            }
            let value_end = find_terminator(packet, name_end + 1, end);
            if value_end >= end {
                return Err(malformed_parameter());
            }
            let name = match text_of(copy_range(packet, cursor, name_end)) {
                Some(name) => name,
                None => {
                    return Err(malformed_parameter());
                },
            };
            let value = match text_of(copy_range(packet, name_end + 1, value_end)) {
                Some(value) => value,
                None => {
                    return Err(malformed_parameter());
                },
            };
            let ghost before = entries@.map_values(|v: String| v@);
            let ghost name_view = name@;
            let ghost value_view = value@;
            entries.insert(name, value);
            assert(entries@.map_values(|v: String| v@) =~= before.insert(name_view, value_view));
            cursor = value_end + 1;
        }
        if !entries.contains_key("user") {
            return Err(
                Errors::InvalidAuthorizationSpecification {
                    message: "no PostgreSQL user name specified in startup packet".to_owned(),
                },
            );
        }
        if !entries.contains_key("database") {
            let user = entries.get("user").unwrap().clone();
            let ghost before = entries@.map_values(|v: String| v@);
            entries.insert("database".to_owned(), user);
            assert(entries@.map_values(|v: String| v@) =~= before.insert(
                "database"@,
                before["user"@],
            ));
        }
        Ok(FrontEndFrames::StartupMessage { parameters: StartupParameters { entries } })
    }
}

/// The error of a parameter that cannot be read.
fn malformed_parameter() -> (e: Errors)
    ensures
        e@ == (ErrorKind::ProtocolViolation {
            message: "invalid startup packet layout: malformed parameter"@,
        }),
{
    Errors::protocol_violation("invalid startup packet layout: malformed parameter")
}

/// The index of the first zero byte of `packet` from `from` on, or `end`
/// where none comes before `end`.
pub(crate) fn find_terminator(packet: &Vec<u8>, from: usize, end: usize) -> (at: usize)
    requires
        from <= end <= packet.len(),
    ensures
        at == from + run_length(packet@, from as int, end as int),
        from <= at <= end,
{
    let mut at: usize = from;
    while at < end && packet[at] != 0
        invariant
            from <= at <= end <= packet.len(),
            from + run_length(packet@, from as int, end as int) == at + run_length(
                packet@,
                at as int,
                end as int,
            ),
        decreases end - at,
    {
        at += 1;
    }
    at
}

/// `String::from_utf8` of std: the string whose bytes are `bytes`, or
/// `None` where they are not UTF-8. The bytes of a string are the UTF-8
/// encoding of its characters.
#[verifier::external_body]
fn string_from_utf8(bytes: Vec<u8>) -> (text: Option<String>)
    ensures
        text is Some <==> valid_utf8(bytes@),
        text matches Some(s) ==> encode_utf8(s@) == bytes@,
{
    String::from_utf8(bytes).ok()
}

/// The text that `bytes` hold in UTF-8, or `None` where they are not UTF-8.
fn text_of(bytes: Vec<u8>) -> (text: Option<String>)
    ensures
        text is Some <==> valid_utf8(bytes@),
        text matches Some(s) ==> s@ == decode_utf8(bytes@),
{
    let text = string_from_utf8(bytes);
    proof {
        if text is Some {
            encode_utf8_decode_utf8(text->Some_0@);
        }
    }
    text
}

proof fn lemma_map_values_len(m: Map<Seq<char>, String>)
    ensures
        m.map_values(|v: String| v@).dom() == m.dom(),
{
    assert(m.map_values(|v: String| v@).dom() =~= m.dom());
}

} // verus!
