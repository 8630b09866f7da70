//! Framing of the first packet of a connection.
//!
//! The first packet has no tag: it starts with four bytes that hold its
//! length, themselves included. The reader here says how many bytes to ask
//! the stream for, takes what arrives, and hands out the packet once it is
//! whole.

use crate::bytes::{be_i32, i32_from_be_bytes, slice_to_array};
use crate::errors::{ErrorKind, Errors};
use crate::startup::MAXIMUM_STARTUP_PACKET_LENGTH;
use vstd::prelude::*;
use vstd::slice::slice_subrange;

verus! {

/// How many more bytes a packet needs of which `received` has arrived: the
/// rest of the length where that is not whole yet, else the rest of what the
/// length declares. An error where the declared length is more than the
/// limit or less than the four bytes that hold it.
pub open spec fn wanted_after(received: Seq<u8>) -> Result<int, ErrorKind> {
    if received.len() < 4 {
        Ok(4 - received.len())
    } else {
        let declared = be_i32(received.subrange(0, 4));
        if declared > MAXIMUM_STARTUP_PACKET_LENGTH || declared < 4 {
            Err(ErrorKind::ProtocolViolation { message: "invalid length of startup packet"@ })
        } else if declared >= received.len() {
            Ok(declared - received.len())
        } else {
            Ok(0)
        }
    }
}

/// The first packet of a stream that has closed after `stream`: the bytes
/// that the length declares, or the error that framing raises.
pub open spec fn first_packet_of(stream: Seq<u8>) -> Result<Seq<u8>, ErrorKind> {
    match wanted_after(stream) {
        Err(e) => Err(e),
        Ok(wanted) => if wanted > 0 {
            Err(ErrorKind::ProtocolViolation { message: "incomplete startup packet"@ })
        } else {
            Ok(stream.subrange(0, be_i32(stream.subrange(0, 4))))
        },
    }
}

/// A packet that framing hands out is as long as its first four bytes
/// say, and no longer than the limit.
pub proof fn lemma_first_packet_is_whole(stream: Seq<u8>)
    requires
        first_packet_of(stream) is Ok,
    ensures
        ({
            let packet = first_packet_of(stream)->Ok_0;
            &&& 4 <= packet.len() <= MAXIMUM_STARTUP_PACKET_LENGTH
            &&& packet.len() <= stream.len()
            &&& be_i32(packet.subrange(0, 4)) == packet.len()
            &&& packet == stream.subrange(0, packet.len() as int)
        }),
{
    let packet = first_packet_of(stream)->Ok_0;
    assert(packet.subrange(0, 4) =~= stream.subrange(0, 4));
}

/// The bytes of a first packet that have arrived so far.
pub struct FrameReader {
    received: Vec<u8>,
}

impl View for FrameReader {
    type V = Seq<u8>;

    closed spec fn view(&self) -> Seq<u8> {
        self.received@
    }
}

impl FrameReader {
    #[verifier::type_invariant]
    spec fn within_declared_length(&self) -> bool {
        self.received@.len() <= 4 || (wanted_after(self.received@) is Ok && self.received@.len()
            <= be_i32(self.received@.subrange(0, 4)))
    }

    /// A reader to which nothing has arrived.
    pub fn new() -> (reader: FrameReader)
        ensures
            reader@ == Seq::<u8>::empty(),
    {
        FrameReader { received: Vec::new() }
    }

    /// How many bytes to read next: none once the packet is whole.
    pub fn wanted(&self) -> (wanted: Result<usize, Errors>)
        ensures
            match wanted {
                Ok(n) => wanted_after(self@) == Ok::<int, ErrorKind>(n as int),
                Err(e) => wanted_after(self@) == Err::<int, ErrorKind>(e@),
            },
    {
        proof {
            use_type_invariant(self);
        }
        let length = self.received.len();
        if length < 4 {
            return Ok(4 - length);
        }
        let declared = i32_from_be_bytes(
            slice_to_array(slice_subrange(self.received.as_slice(), 0, 4)),
        );
        if declared < 4 || declared as usize > MAXIMUM_STARTUP_PACKET_LENGTH {
            return Err(Errors::protocol_violation("invalid length of startup packet"));
        }
        Ok(declared as usize - length)
    }

    /// Takes from the front of `bytes` as many as are wanted, and says how
    /// many that was. Takes none once the packet is whole or its declared
    /// length is refused.
    pub fn feed(&mut self, bytes: &[u8]) -> (taken: usize)
        ensures
            taken <= bytes@.len(),
            final(self)@ == old(self)@ + bytes@.take(taken as int),
            match wanted_after(old(self)@) {
                Ok(wanted) => taken == if bytes@.len() <= wanted {
                    bytes@.len() as int
                } else {
                    wanted
                },
                Err(_) => taken == 0,
            },
    {
        let wanted = match self.wanted() {
            Ok(wanted) => wanted,
            Err(_) => {
                assert(self.received@ =~= old(self)@ + bytes@.take(0));
                return 0;
            },
        };
        let taken = if bytes.len() <= wanted {
            bytes.len()
        } else {
            wanted
        };
        proof {
            use_type_invariant(&*self);
        }
        let ghost before = self.received@;
        let mut i: usize = 0;
        let mut received: Vec<u8> = Vec::new();
        core::mem::swap(&mut received, &mut self.received);
        while i < taken
            invariant
                i <= taken <= bytes@.len(),
                received@ == before + bytes@.take(i as int),
            decreases taken - i,
        {
            received.push(bytes[i]);
            i += 1;
            assert(received@ =~= before + bytes@.take(i as int));
        }
        proof {
            if before.len() >= 4 {
                assert(received@.subrange(0, 4) =~= before.subrange(0, 4));
            }
        }
        self.received = received;
        taken
    }

    /// Hands out the packet where it is whole. Where the stream has closed
    /// before that, the packet is incomplete.
    pub fn finish(self) -> (packet: Result<Vec<u8>, Errors>)
        ensures
            match packet {
                Ok(p) => first_packet_of(self@) == Ok::<Seq<u8>, ErrorKind>(p@),
                Err(e) => first_packet_of(self@) == Err::<Seq<u8>, ErrorKind>(e@),
            },
    {
        proof {
            use_type_invariant(&self);
        }
        match self.wanted() {
            Err(e) => Err(e),
            Ok(wanted) => {
                if wanted > 0 {
                    Err(Errors::protocol_violation("incomplete startup packet"))
                } else {
                    assert(self.received@ =~= self.received@.subrange(
                        0,
                        be_i32(self.received@.subrange(0, 4)),
                    ));
                    Ok(self.received)
                }
            },
        }
    }
}

/// How many more bytes a reply of the client needs of which `received`
/// has arrived. A reply starts with a tag byte; the four bytes behind it
/// hold the length of all that follows the tag. An error where that length
/// is more than the limit or less than the four bytes that hold it.
pub open spec fn reply_wanted_after(received: Seq<u8>) -> Result<int, ErrorKind> {
    if received.len() < 5 {
        Ok(5 - received.len())
    } else {
        let declared = be_i32(received.subrange(1, 5));
        if declared > MAXIMUM_STARTUP_PACKET_LENGTH || declared < 4 {
            Err(
                ErrorKind::ProtocolViolation {
                    message: "invalid length of authentication response"@,
                },
            )
        } else if declared + 1 >= received.len() {
            Ok(declared + 1 - received.len())
        } else {
            Ok(0)
        }
    }
}

/// How many bytes to read next for a reply of which `received` has
/// arrived: none once the reply is whole.
pub fn reply_wanted(received: &[u8]) -> (wanted: Result<usize, Errors>)
    ensures
        match wanted {
            Ok(n) => reply_wanted_after(received@) == Ok::<int, ErrorKind>(n as int),
            Err(e) => reply_wanted_after(received@) == Err::<int, ErrorKind>(e@),
        },
{
    let length = received.len();
    if length < 5 {
        return Ok(5 - length);
    }
    let declared = i32_from_be_bytes(slice_to_array(slice_subrange(received, 1, 5)));
    if declared < 4 || declared as usize > MAXIMUM_STARTUP_PACKET_LENGTH {
        return Err(Errors::protocol_violation("invalid length of authentication response"));
    }
    let whole = declared as usize + 1;
    if whole >= length {
        Ok(whole - length)
    } else {
        Ok(0)
    }
}

/// The first packet of a stream that has closed, all of whose bytes are in
/// `stream`.
pub fn first_packet(stream: &[u8]) -> (packet: Result<Vec<u8>, Errors>)
    ensures
        match packet {
            Ok(p) => first_packet_of(stream@) == Ok::<Seq<u8>, ErrorKind>(p@),
            Err(e) => first_packet_of(stream@) == Err::<Seq<u8>, ErrorKind>(e@),
        },
{
    let mut reader = FrameReader::new();
    let head = reader.feed(stream);
    let ghost first = reader@;
    assert(first =~= stream@.take(head as int));
    let rest = slice_subrange(stream, head, stream.len());
    let more = reader.feed(rest);
    proof {
        assert(reader@ =~= stream@.take(head + more));
        if head + more >= 4 {
            assert(reader@.subrange(0, 4) =~= stream@.subrange(0, 4));
            assert(first.subrange(0, 4) =~= stream@.subrange(0, 4));
        }
        if first_packet_of(reader@) is Ok {
            assert(first_packet_of(reader@)->Ok_0 =~= first_packet_of(stream@)->Ok_0);
        }
    }
    reader.finish()
}

} // verus!
