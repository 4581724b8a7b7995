use linedb::{Command, Frame, FrameError};

#[test]
fn decode_get_frame() {
    let wire: Vec<u8> = vec![0x30, 0x00, 0x00, 0x00, 0x01, 0x31, 0x0A];
    let frame = Frame::decode(&wire).unwrap();
    assert_eq!(frame.cmd, Command::Get(1));
    assert_eq!(frame.checksum, 0x31);
}

#[test]
fn decode_is_deterministic() {
    let wire: Vec<u8> = vec![0x30, 0x00, 0x00, 0x01, 0x02, 0x33, 0x0A];
    let first = Frame::decode(&wire);
    let second = Frame::decode(&wire);
    assert_eq!(first, second);
    assert_eq!(first.unwrap().cmd, Command::Get(258));
}

#[test]
fn decode_empty_is_client_disconnected() {
    let wire: Vec<u8> = Vec::new();
    assert_eq!(Frame::decode(&wire), Err(FrameError::ClientDisconnected));
}

#[test]
fn decode_wrong_length_is_parse_error() {
    let short: Vec<u8> = vec![0x30, 0x00, 0x00, 0x00, 0x01, 0x31];
    assert_eq!(Frame::decode(&short), Err(FrameError::ParseError));
    let long: Vec<u8> = vec![0x30, 0x00, 0x00, 0x00, 0x01, 0x31, 0x0A, 0x0A];
    assert_eq!(Frame::decode(&long), Err(FrameError::ParseError));
}

#[test]
fn decode_unknown_tag_is_parse_error() {
    let wire: Vec<u8> = vec![0x33, 0x00, 0x00, 0x00, 0x01, 0x34, 0x0A];
    assert_eq!(Frame::decode(&wire), Err(FrameError::ParseError));
}

#[test]
fn decode_bad_checksum_is_invalid() {
    let wire: Vec<u8> = vec![0x30, 0x00, 0x00, 0x00, 0x01, 0x30, 0x0A];
    assert_eq!(Frame::decode(&wire), Err(FrameError::InvalidChecksum));
}

#[test]
fn flipping_any_checksum_bit_is_invalid() {
    // GET 1: canonical bytes 0x30,0,0,0,1 sum to 0x31
    for bit in 0..8u8 {
        let bad = 0x31u8 ^ (1u8 << bit);
        let wire: Vec<u8> = vec![0x30, 0x00, 0x00, 0x00, 0x01, bad, 0x0A];
        assert_eq!(Frame::decode(&wire), Err(FrameError::InvalidChecksum));
    }
}

#[test]
fn decode_quit_frame() {
    let wire: Vec<u8> = vec![0x31, 0x00, 0x00, 0x00, 0x00, 0x31, 0x0A];
    assert_eq!(Frame::decode(&wire).unwrap().cmd, Command::Quit);
}

#[test]
fn decode_shutdown_frame() {
    // tag 0x32 alone is summed, so the checksum is 0x32
    let wire: Vec<u8> = vec![0x32, 0x00, 0x00, 0x00, 0x00, 0x32, 0x0A];
    assert_eq!(Frame::decode(&wire).unwrap().cmd, Command::Shutdown);
}

#[test]
fn quit_checksum_ignores_argument_bytes() {
    // the 4 argument bytes are on the wire but excluded from QUIT's checksum
    let wire: Vec<u8> = vec![0x31, 0x09, 0x09, 0x09, 0x09, 0x31, 0x0A];
    assert_eq!(Frame::decode(&wire).unwrap().cmd, Command::Quit);
}

#[test]
fn canonical_bytes_of_commands() {
    assert_eq!(Command::Get(258).as_bytes(), vec![0x30, 0x00, 0x00, 0x01, 0x02]);
    assert_eq!(Command::Get(0xDEADBEEF).as_bytes(), vec![0x30, 0xDE, 0xAD, 0xBE, 0xEF]);
    assert_eq!(Command::Quit.as_bytes(), vec![0x31]);
    assert_eq!(Command::Shutdown.as_bytes(), vec![0x32]);
}

#[test]
fn validate_checksum_matches_sum() {
    let good = Frame { cmd: Command::Get(1), checksum: 0x31 };
    assert!(good.validate_checksum());
    let bad = Frame { cmd: Command::Get(1), checksum: 0x32 };
    assert!(!bad.validate_checksum());
    // 0x30 + 0xFF + 0xFF + 0xFF + 0xFF = 0x42C, and 0x42C mod 256 = 0x2C
    let wrap = Frame { cmd: Command::Get(u32::MAX), checksum: 0x2C };
    assert!(wrap.validate_checksum());
}

#[test]
fn encode_wire_round_trips_every_command() {
    let commands = vec![
        Command::Get(0),
        Command::Get(1),
        Command::Get(u32::MAX),
        Command::Quit,
        Command::Shutdown,
    ];
    for cmd in commands {
        let frame = Frame { cmd, checksum: 0 };
        let sum: u32 = frame.cmd.as_bytes().iter().map(|b| *b as u32).sum();
        let checksum = (sum % 256) as u8;
        let wire = linedb::encode_wire(&cmd, checksum);
        assert_eq!(wire.len(), 7);
        assert_eq!(*wire.last().unwrap(), 0x0A);
        let decoded = Frame::decode(&wire).unwrap();
        assert_eq!(decoded.cmd, cmd);
        assert_eq!(decoded.checksum, checksum);
        // any other checksum byte on the same message is rejected
        let bad_wire = linedb::encode_wire(&cmd, checksum.wrapping_add(1));
        assert_eq!(Frame::decode(&bad_wire), Err(FrameError::InvalidChecksum));
    }
}

#[test]
fn error_messages() {
    assert_eq!(FrameError::InvalidChecksum.message(), "Invalid checksum");
    assert_eq!(FrameError::LineIndexOutOfBounds.message(), "Line index out of bounds");
    assert_eq!(FrameError::ParseError.message(), "Parse error");
    assert_eq!(FrameError::ClientDisconnected.message(), "Client disconnected");
}
