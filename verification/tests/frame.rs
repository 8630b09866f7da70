//! Tests of the framing of the first packet.

use rustgres::frame::{first_packet, reply_wanted, FrameReader};
use rustgres::{Errors, FrontEndFrames};

fn startup_packet() -> Vec<u8> {
    let mut packet = vec![0, 0, 0, 20, 0, 3, 0, 0];
    packet.extend_from_slice(b"user\0alice\0\0");
    packet
}

#[test]
fn test_reading_startup_packet() {
    let packet = startup_packet();
    let mut reader = FrameReader::new();
    assert_eq!(reader.wanted(), Ok(4));
    // The stream hands out the packet in pieces; the reader puts them together.
    assert_eq!(reader.feed(&packet[0..3]), 3);
    assert_eq!(reader.wanted(), Ok(1));
    assert_eq!(reader.feed(&packet[3..4]), 1);
    assert_eq!(reader.wanted(), Ok(16));
    assert_eq!(reader.feed(&packet[4..9]), 5);
    assert_eq!(reader.wanted(), Ok(11));
    assert_eq!(reader.feed(&packet[9..]), 11);
    assert_eq!(reader.wanted(), Ok(0));
    let read = reader.finish().unwrap();
    assert_eq!(read, packet);
    match FrontEndFrames::try_from(&read) {
        Ok(FrontEndFrames::StartupMessage { parameters }) => {
            assert_eq!(parameters.user(), "alice");
        }
        Err(e) => panic!("{}", e.message()),
    }
}

#[test]
fn reader_takes_no_more_than_the_packet() {
    let mut stream = startup_packet();
    stream.extend_from_slice(b"what follows");
    let mut reader = FrameReader::new();
    // Only the length is taken at first, whatever else has arrived.
    assert_eq!(reader.feed(&stream), 4);
    assert_eq!(reader.feed(&stream[4..]), 16);
    assert_eq!(reader.feed(&stream[20..]), 0);
    assert_eq!(reader.finish().unwrap(), startup_packet());
}

#[test]
fn stream_closed_early_is_a_protocol_violation() {
    let packet = startup_packet();
    let mut reader = FrameReader::new();
    assert_eq!(reader.feed(&packet[..10]), 4);
    assert_eq!(reader.feed(&packet[4..10]), 6);
    assert_eq!(
        reader.finish(),
        Err(Errors::ProtocolViolation { message: "incomplete startup packet".to_owned() })
    );
    let reader = FrameReader::new();
    assert_eq!(
        reader.finish(),
        Err(Errors::ProtocolViolation { message: "incomplete startup packet".to_owned() })
    );
}

#[test]
fn declared_length_over_the_limit_is_refused() {
    let mut reader = FrameReader::new();
    // 10001 = 0x2711
    assert_eq!(reader.feed(&[0, 0, 0x27, 0x11, 0, 3, 0, 0]), 4);
    assert_eq!(
        reader.wanted(),
        Err(Errors::ProtocolViolation { message: "invalid length of startup packet".to_owned() })
    );
    assert_eq!(reader.feed(&[0, 3, 0, 0]), 0);
    assert_eq!(
        reader.finish(),
        Err(Errors::ProtocolViolation { message: "invalid length of startup packet".to_owned() })
    );
}

#[test]
fn declared_length_at_the_limit_is_read() {
    let mut stream = vec![0u8; 10000];
    stream[2] = 0x27;
    stream[3] = 0x10;
    let mut reader = FrameReader::new();
    assert_eq!(reader.feed(&stream), 4);
    assert_eq!(reader.wanted(), Ok(9996));
    assert_eq!(reader.feed(&stream[4..]), 9996);
    assert_eq!(reader.finish().unwrap().len(), 10000);
}

#[test]
fn declared_length_below_four_is_refused() {
    for stream in [[0u8, 0, 0, 3], [0, 0, 0, 0], [0xff, 0xff, 0xff, 0xff], [0x80, 0, 0, 0]] {
        assert_eq!(
            first_packet(&stream),
            Err(Errors::ProtocolViolation {
                message: "invalid length of startup packet".to_owned()
            })
        );
    }
}

#[test]
fn packet_of_a_length_alone_is_whole() {
    assert_eq!(first_packet(&[0, 0, 0, 4, 7, 7]), Ok(vec![0, 0, 0, 4]));
}

#[test]
fn first_packet_of_a_whole_stream() {
    let mut stream = startup_packet();
    assert_eq!(first_packet(&stream), Ok(startup_packet()));
    stream.extend_from_slice(&[1, 2, 3]);
    assert_eq!(first_packet(&stream), Ok(startup_packet()));
    assert_eq!(
        first_packet(&stream[..19]),
        Err(Errors::ProtocolViolation { message: "incomplete startup packet".to_owned() })
    );
    assert_eq!(
        first_packet(&stream[..2]),
        Err(Errors::ProtocolViolation { message: "incomplete startup packet".to_owned() })
    );
}

#[test]
fn reply_is_read_by_its_declared_length() {
    assert_eq!(reply_wanted(&[]), Ok(5));
    assert_eq!(reply_wanted(&[b'p', 0, 0]), Ok(2));
    assert_eq!(reply_wanted(&[b'p', 0, 0, 0, 11]), Ok(7));
    assert_eq!(reply_wanted(&[b'p', 0, 0, 0, 11, b's', b'e']), Ok(5));
    assert_eq!(reply_wanted(&[b'p', 0, 0, 0, 4]), Ok(0));
    assert_eq!(reply_wanted(&[b'p', 0, 0, 0, 4, 1, 2]), Ok(0));
    assert_eq!(reply_wanted(&[b'p', 0, 0, 0x27, 0x10]), Ok(10000 - 4));
    for refused in [[b'p', 0, 0, 0x27, 0x11], [b'p', 0, 0, 0, 3], [b'p', 0xff, 0xff, 0xff, 0xff]] {
        assert_eq!(
            reply_wanted(&refused),
            Err(Errors::ProtocolViolation {
                message: "invalid length of authentication response".to_owned()
            })
        );
    }
}
