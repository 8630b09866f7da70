//! The startup packet as a client writes it, and the proof that decoding
//! gives back the parameters that were written.

use crate::bytes::{i32_be_bytes, lemma_be_i32_of_bytes, terminated};
use crate::errors::ErrorKind;
use crate::startup::{
    conclude, decode_startup, lemma_run_length_of_terminated, scan_parameters, version_entry, with_default_database,
    MAXIMUM_STARTUP_PACKET_LENGTH, SUPPORTED_PROTOCOL_VERSION,
};
use vstd::prelude::*;
use vstd::utf8::{encode_utf8, encode_utf8_decode_utf8, encode_utf8_valid_utf8};

verus! {

/// The parameters as they stand in a packet: each name and each value in
/// UTF-8, ended by a zero byte.
pub open spec fn encode_parameters(params: Seq<(Seq<char>, Seq<char>)>) -> Seq<u8>
    decreases params.len(),
{
    if params.len() == 0 {
        Seq::<u8>::empty()
    } else {
        terminated(params[0].0) + terminated(params[0].1) + encode_parameters(
            params.drop_first(),
        )
    }
}

/// The startup packet that names `params`: its own length, the supported
/// protocol version, the parameters and a closing zero byte.
pub open spec fn startup_packet(params: Seq<(Seq<char>, Seq<char>)>) -> Seq<u8> {
    let body = encode_parameters(params);
    i32_be_bytes(body.len() as int + 9) + i32_be_bytes(SUPPORTED_PROTOCOL_VERSION as int) + body
        + seq![0u8]
}

/// Whether a text can stand in a packet: its UTF-8 encoding holds no zero byte.
pub open spec fn zero_free(text: Seq<char>) -> bool {
    forall|i: int| 0 <= i < encode_utf8(text).len() ==> encode_utf8(text)[i] != 0
}

/// Whether every name and value of `params` can stand in a packet.
pub open spec fn encodable(params: Seq<(Seq<char>, Seq<char>)>) -> bool {
    forall|i: int|
        0 <= i < params.len() ==> zero_free(#[trigger] params[i].0) && zero_free(params[i].1)
}

/// Whether one of `params` has the name `name`.
pub open spec fn names(params: Seq<(Seq<char>, Seq<char>)>, name: Seq<char>) -> bool {
    exists|i: int| 0 <= i < params.len() && (#[trigger] params[i]).0 == name
}

/// `acc` with each of `params` added in order, a later value replacing an
/// earlier one of the same name.
pub open spec fn collect(
    params: Seq<(Seq<char>, Seq<char>)>,
    acc: Map<Seq<char>, Seq<char>>,
) -> Map<Seq<char>, Seq<char>>
    decreases params.len(),
{
    if params.len() == 0 {
        acc
    } else {
        collect(params.drop_first(), acc.insert(params[0].0, params[0].1))
    }
}

/// Scanning the encoding of `params` adds exactly `params` to what was
/// collected before.
proof fn lemma_scan_of_encoding(
    s: Seq<u8>,
    pos: int,
    end: int,
    params: Seq<(Seq<char>, Seq<char>)>,
    acc: Map<Seq<char>, Seq<char>>,
)
    requires
        0 <= pos <= end <= s.len(),
        s.subrange(pos, end) == encode_parameters(params),
        encodable(params),
    ensures
        scan_parameters(s, pos, end, acc) == Some(collect(params, acc)),
    decreases params.len(),
{
    if params.len() == 0 {
        assert(s.subrange(pos, end).len() == 0);
    } else {
        let name = encode_utf8(params[0].0);
        let value = encode_utf8(params[0].1);
        let rest = encode_parameters(params.drop_first());
        let body = s.subrange(pos, end);
        assert(body == terminated(params[0].0) + terminated(params[0].1) + rest);
        assert(zero_free(params[0].0) && zero_free(params[0].1));
        let name_end = pos + name.len();
        let value_end = name_end + 1 + value.len();
        assert(body.len() == name.len() + 1 + value.len() + 1 + rest.len());
        assert forall|i: int| pos <= i < name_end implies s[i] != 0 by {
            assert(s[i] == body[i - pos]);
            assert(body[i - pos] == name[i - pos]);
        }
        assert(s[name_end] == body[name_end - pos]);
        lemma_run_length_of_terminated(s, pos, end, name.len() as int);
        assert forall|i: int| name_end + 1 <= i < value_end implies s[i] != 0 by {
            assert(s[i] == body[i - pos]);
            assert(body[i - pos] == value[i - name_end - 1]);
        }
        assert(s[value_end] == body[value_end - pos]);
        lemma_run_length_of_terminated(s, name_end + 1, end, value.len() as int);
        assert(s.subrange(pos, name_end) =~= name);
        assert forall|k: int| 0 <= k < value.len() implies s[name_end + 1 + k] == value[k] by {
            assert(s[name_end + 1 + k] == body[name_end + 1 + k - pos]);
        }
        assert(s.subrange(name_end + 1, value_end) =~= value);
        encode_utf8_valid_utf8(params[0].0);
        encode_utf8_valid_utf8(params[0].1);
        encode_utf8_decode_utf8(params[0].0);
        encode_utf8_decode_utf8(params[0].1);
        assert forall|k: int| 0 <= k < rest.len() implies s[value_end + 1 + k] == rest[k] by {
            assert(s[value_end + 1 + k] == body[value_end + 1 + k - pos]);
        }
        assert(s.subrange(value_end + 1, end) =~= rest);
        assert forall|i: int| 0 <= i < params.drop_first().len() implies zero_free(
            #[trigger] params.drop_first()[i].0,
        ) && zero_free(params.drop_first()[i].1) by {
            assert(params.drop_first()[i] == params[i + 1]);
        }
        lemma_scan_of_encoding(
            s,
            value_end + 1,
            end,
            params.drop_first(),
            acc.insert(params[0].0, params[0].1),
        );
    }
}

/// What is collected holds a name exactly if it was held before or one of
/// the parameters has it.
pub proof fn lemma_collect_domain(
    params: Seq<(Seq<char>, Seq<char>)>,
    acc: Map<Seq<char>, Seq<char>>,
    name: Seq<char>,
)
    ensures
        collect(params, acc).contains_key(name) <==> acc.contains_key(name) || names(
            params,
            name,
        ),
    decreases params.len(),
{
    if params.len() > 0 {
        let rest = params.drop_first();
        lemma_collect_domain(rest, acc.insert(params[0].0, params[0].1), name);
        if names(rest, name) {
            let i = choose|i: int| 0 <= i < rest.len() && (#[trigger] rest[i]).0 == name;
            assert(params[i + 1] == rest[i]);
        }
        if names(params, name) {
            let i = choose|i: int| 0 <= i < params.len() && (#[trigger] params[i]).0 == name;
            if i > 0 {
                assert(rest[i - 1] == params[i]);
            }
        }
    }
}

/// A parameter that no later parameter of the same name follows is
/// collected with its own value.
pub proof fn lemma_collect_value(
    params: Seq<(Seq<char>, Seq<char>)>,
    acc: Map<Seq<char>, Seq<char>>,
    i: int,
)
    requires
        0 <= i < params.len(),
        forall|j: int| i < j < params.len() ==> (#[trigger] params[j]).0 != params[i].0,
    ensures
        collect(params, acc).contains_key(params[i].0),
        collect(params, acc)[params[i].0] == params[i].1,
    decreases params.len(),
{
    let rest = params.drop_first();
    let next = acc.insert(params[0].0, params[0].1);
    if i == 0 {
        lemma_collect_keeps(rest, next, params[0].0);
        assert forall|j: int| 0 <= j < rest.len() implies (#[trigger] rest[j]).0
            != params[0].0 by {
            assert(rest[j] == params[j + 1]);
        }
    } else {
        assert(rest[i - 1] == params[i]);
        assert forall|j: int| i - 1 < j < rest.len() implies (#[trigger] rest[j]).0 != rest[i
            - 1].0 by {
            assert(rest[j] == params[j + 1]);
        }
        lemma_collect_value(rest, next, i - 1);
    }
}

/// A name that none of the parameters has keeps the value it had before.
pub proof fn lemma_collect_keeps(
    params: Seq<(Seq<char>, Seq<char>)>,
    acc: Map<Seq<char>, Seq<char>>,
    name: Seq<char>,
)
    requires
        !names(params, name),
        acc.contains_key(name),
    ensures
        collect(params, acc).contains_key(name),
        collect(params, acc)[name] == acc[name],
    decreases params.len(),
{
    if params.len() > 0 {
        let rest = params.drop_first();
        assert(params[0].0 != name);
        assert forall|j: int| 0 <= j < rest.len() implies (#[trigger] rest[j]).0 != name by {
            assert(rest[j] == params[j + 1]);
        }
        lemma_collect_keeps(rest, acc.insert(params[0].0, params[0].1), name);
    }
}

/// The header checks pass on a packet written for `params`, so decoding
/// it comes down to what the parameters give.
proof fn lemma_header_of_startup_packet(params: Seq<(Seq<char>, Seq<char>)>)
    requires
        encodable(params),
        encode_parameters(params).len() + 9 <= MAXIMUM_STARTUP_PACKET_LENGTH,
    ensures
        decode_startup(startup_packet(params)) == conclude(
            Some(collect(params, version_entry())),
        ),
{
    let body = encode_parameters(params);
    let packet = startup_packet(params);
    let length = body.len() as int + 9;
    lemma_be_i32_of_bytes(length);
    lemma_be_i32_of_bytes(SUPPORTED_PROTOCOL_VERSION as int);
    assert(packet.len() == length);
    assert(packet.subrange(0, 4) =~= i32_be_bytes(length));
    assert(packet.subrange(4, 8) =~= i32_be_bytes(SUPPORTED_PROTOCOL_VERSION as int));
    assert(packet.last() == 0);
    assert(packet.subrange(8, length - 1) =~= body);
    lemma_scan_of_encoding(packet, 8, length - 1, params, version_entry());
}

/// Decoding gives back what was written: a packet written for parameters
/// that name a user decodes to those parameters, with the protocol version
/// and, where none is named, the user's name as the database.
pub proof fn lemma_decode_recovers_parameters(params: Seq<(Seq<char>, Seq<char>)>)
    requires
        encodable(params),
        encode_parameters(params).len() + 9 <= MAXIMUM_STARTUP_PACKET_LENGTH,
        names(params, "user"@),
    ensures
        decode_startup(startup_packet(params)) == Ok::<Map<Seq<char>, Seq<char>>, ErrorKind>(
            with_default_database(collect(params, version_entry())),
        ),
{
    lemma_header_of_startup_packet(params);
    lemma_collect_domain(params, version_entry(), "user"@);
}

/// A packet whose parameters name no user is refused for want of a user,
/// whatever else it names.
pub proof fn lemma_missing_user_is_refused(params: Seq<(Seq<char>, Seq<char>)>)
    requires
        encodable(params),
        encode_parameters(params).len() + 9 <= MAXIMUM_STARTUP_PACKET_LENGTH,
        !names(params, "user"@),
    ensures
        decode_startup(startup_packet(params)) == Err::<Map<Seq<char>, Seq<char>>, ErrorKind>(
            ErrorKind::InvalidAuthorizationSpecification {
                message: "no PostgreSQL user name specified in startup packet"@,
            },
        ),
{
    lemma_header_of_startup_packet(params);
    lemma_collect_domain(params, version_entry(), "user"@);
    assert(!version_entry().contains_key("user"@)) by {
        reveal_strlit("user");
        reveal_strlit("protocol_version");
        assert("user"@.len() == 4 && "protocol_version"@.len() == 16);
    }
}

/// Where the parameters name a user and no database, the decoded database
/// is the decoded user.
pub proof fn lemma_database_defaults_to_user(params: Seq<(Seq<char>, Seq<char>)>)
    requires
        encodable(params),
        encode_parameters(params).len() + 9 <= MAXIMUM_STARTUP_PACKET_LENGTH,
        names(params, "user"@),
        !names(params, "database"@),
    ensures
        decode_startup(startup_packet(params)) matches Ok(decoded) && decoded.contains_key(
            "user"@,
        ) && decoded.contains_key("database"@) && decoded["database"@] == decoded["user"@],
{
    lemma_decode_recovers_parameters(params);
    lemma_collect_domain(params, version_entry(), "user"@);
    lemma_collect_domain(params, version_entry(), "database"@);
    assert(!version_entry().contains_key("database"@)) by {
        reveal_strlit("database");
        reveal_strlit("protocol_version");
        assert("database"@.len() == 8 && "protocol_version"@.len() == 16);
    }
    assert("database"@ != "user"@) by {
        reveal_strlit("database");
        reveal_strlit("user");
        assert("database"@.len() == 8 && "user"@.len() == 4);
    }
}

/// Each parameter that was written is read back with its own value, unless
/// a later parameter of the same name replaced it.
pub proof fn lemma_decode_recovers_value(params: Seq<(Seq<char>, Seq<char>)>, i: int)
    requires
        encodable(params),
        encode_parameters(params).len() + 9 <= MAXIMUM_STARTUP_PACKET_LENGTH,
        names(params, "user"@),
        0 <= i < params.len(),
        forall|j: int| i < j < params.len() ==> (#[trigger] params[j]).0 != params[i].0,
    ensures
        decode_startup(startup_packet(params)) matches Ok(decoded) && decoded.contains_key(
            params[i].0,
        ) && decoded[params[i].0] == params[i].1,
{
    lemma_decode_recovers_parameters(params);
    lemma_collect_value(params, version_entry(), i);
}

} // verus!
