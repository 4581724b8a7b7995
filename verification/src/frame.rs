//! Fixed-length framing protocol: 7-byte wire messages carrying a tagged
//! command, a big-endian `u32` argument, an 8-bit additive checksum and a
//! line-feed terminator.
//!
//! Canonical encoding for checksum purposes: for `Get(n)` the tag byte
//! followed by the 4 big-endian bytes of `n`; for `Quit`/`Shutdown` the tag
//! byte alone. The 4 argument bytes present on the wire for `Quit` and
//! `Shutdown` are deliberately excluded from their checksums: both ends of
//! the protocol agree on this asymmetry.

use vstd::prelude::*;

verus! {

/// Command tag byte for GET (ASCII '0').
pub const TAG_GET: u8 = 0x30;

/// Command tag byte for QUIT (ASCII '1').
pub const TAG_QUIT: u8 = 0x31;

/// Command tag byte for SHUTDOWN (ASCII '2').
pub const TAG_SHUTDOWN: u8 = 0x32;

/// The line-feed byte that terminates every wire message.
pub const TERMINATOR: u8 = 0x0A;

/// Errors arising while turning raw bytes into a validated frame, plus the
/// application-level failure of a line lookup.
#[derive(Clone, Copy, Debug, PartialEq, Eq, Structural)]
pub enum FrameError {
    /// The checksum byte does not match the sum of the command's canonical bytes.
    InvalidChecksum,
    /// A requested line number is not present in the index.
    LineIndexOutOfBounds,
    /// The message has the wrong length or an unrecognized tag byte.
    ParseError,
    /// A zero-length read: the peer closed the stream.
    ClientDisconnected,
}

impl FrameError {
    /// A human-readable description of the error.
    pub fn message(&self) -> (r: String)
        ensures
            *self is InvalidChecksum ==> r@ == "Invalid checksum"@,
            *self is LineIndexOutOfBounds ==> r@ == "Line index out of bounds"@,
            *self is ParseError ==> r@ == "Parse error"@,
            *self is ClientDisconnected ==> r@ == "Client disconnected"@,
    {
        match self {
            FrameError::InvalidChecksum => String::from_str("Invalid checksum"),
            FrameError::LineIndexOutOfBounds => String::from_str("Line index out of bounds"),
            FrameError::ParseError => String::from_str("Parse error"),
            FrameError::ClientDisconnected => String::from_str("Client disconnected"),
        }
    }
}

/// One client command: fetch a line by 1-based number, end this connection,
/// or ask the whole server to shut down.
#[derive(Clone, Copy, Debug, PartialEq, Eq, Structural)]
pub enum Command {
    Get(u32),
    Quit,
    Shutdown,
}

/// The big-endian byte decomposition of a 32-bit value.
pub open spec fn be_bytes_of_u32(n: u32) -> Seq<u8> {
    seq![
        (n >> 24) as u8,
        ((n >> 16) & 0xFF) as u8,
        ((n >> 8) & 0xFF) as u8,
        (n & 0xFF) as u8,
    ]
}

/// The 32-bit value read big-endian from 4 bytes.
pub open spec fn u32_of_be(b0: u8, b1: u8, b2: u8, b3: u8) -> u32 {
    ((b0 as u32) << 24) | ((b1 as u32) << 16) | ((b2 as u32) << 8) | (b3 as u32)
}

/// Reassembling a value from its big-endian bytes gives the value back.
pub proof fn lemma_be_round_trip(n: u32)
    ensures
        u32_of_be(
            (n >> 24) as u8,
            ((n >> 16) & 0xFF) as u8,
            ((n >> 8) & 0xFF) as u8,
            (n & 0xFF) as u8,
        ) == n,
{
    assert((((n >> 24) as u8 as u32) << 24) | ((((n >> 16) & 0xFF) as u8 as u32) << 16) | ((((n
        >> 8) & 0xFF) as u8 as u32) << 8) | ((n & 0xFF) as u8 as u32) == n) by (bit_vector);
}

/// The canonical (checksum-relevant) byte representation of a command: tag
/// plus argument bytes for `Get`, tag alone for `Quit` and `Shutdown`.
pub open spec fn canonical_bytes(cmd: Command) -> Seq<u8> {
    match cmd {
        Command::Get(n) => seq![TAG_GET].add(be_bytes_of_u32(n)),
        Command::Quit => seq![TAG_QUIT],
        Command::Shutdown => seq![TAG_SHUTDOWN],
    }
}

/// The sum of a sequence of bytes, as an unbounded integer.
pub open spec fn byte_sum(s: Seq<u8>) -> int
    decreases s.len(),
{
    if s.len() == 0 {
        0
    } else {
        byte_sum(s.drop_last()) + s.last()
    }
}

/// The checksum a well-formed frame must carry for a command.
pub open spec fn spec_checksum(cmd: Command) -> u8 {
    (byte_sum(canonical_bytes(cmd)) % 256) as u8
}

impl Command {
    /// The canonical byte representation used for checksum computation.
    pub fn as_bytes(&self) -> (r: Vec<u8>)
        ensures
            r@ == canonical_bytes(*self),
    {
        match self {
            Command::Get(line_number) => {
                let n: u32 = *line_number;
                proof {
                    assert(n >> 24 < 256 && (n >> 16) & 0xFF < 256 && (n >> 8) & 0xFF < 256 && n
                        & 0xFF < 256) by (bit_vector);
                }
                let mut bytes: Vec<u8> = Vec::new();
                bytes.push(TAG_GET);
                bytes.push((n >> 24) as u8);
                bytes.push(((n >> 16) & 0xFF) as u8);
                bytes.push(((n >> 8) & 0xFF) as u8);
                bytes.push((n & 0xFF) as u8);
                proof {
                    assert(bytes@ =~= canonical_bytes(*self));
                }
                bytes
            },
            Command::Quit => {
                let mut bytes: Vec<u8> = Vec::new();
                bytes.push(TAG_QUIT);
                proof {
                    assert(bytes@ =~= canonical_bytes(*self));
                }
                bytes
            },
            Command::Shutdown => {
                let mut bytes: Vec<u8> = Vec::new();
                bytes.push(TAG_SHUTDOWN);
                proof {
                    assert(bytes@ =~= canonical_bytes(*self));
                }
                bytes
            },
        }
    }

    /// Parses the tag and argument bytes of a message. Only the first 5 bytes
    /// are examined; the argument bytes are ignored for `Quit` and `Shutdown`.
    pub fn parse(value: &[u8]) -> (r: Result<Command, FrameError>)
        requires
            value@.len() >= 5,
        ensures
            r == spec_parse_command(value@),
    {
        let tag: u8 = value[0];
        if tag == TAG_GET {
            let line_number: u32 = u32_from_be(value[1], value[2], value[3], value[4]);
            Ok(Command::Get(line_number))
        } else if tag == TAG_QUIT {
            Ok(Command::Quit)
        } else if tag == TAG_SHUTDOWN {
            Ok(Command::Shutdown)
        } else {
            Err(FrameError::ParseError)
        }
    }
}

/// The command encoded in the first 5 bytes of a message, or a parse error
/// for an unrecognized tag.
pub open spec fn spec_parse_command(bytes: Seq<u8>) -> Result<Command, FrameError> {
    if bytes[0] == TAG_GET {
        Ok(Command::Get(u32_of_be(bytes[1], bytes[2], bytes[3], bytes[4])))
    } else if bytes[0] == TAG_QUIT {
        Ok(Command::Quit)
    } else if bytes[0] == TAG_SHUTDOWN {
        Ok(Command::Shutdown)
    } else {
        Err(FrameError::ParseError)
    }
}

/// Reads a 32-bit value big-endian from 4 bytes.
pub fn u32_from_be(b0: u8, b1: u8, b2: u8, b3: u8) -> (r: u32)
    ensures
        r == u32_of_be(b0, b1, b2, b3),
{
    ((b0 as u32) << 24) | ((b1 as u32) << 16) | ((b2 as u32) << 8) | (b3 as u32)
}

/// One fully decoded wire message: the command together with the checksum
/// byte that validated it.
#[derive(Clone, Copy, Debug, PartialEq, Eq, Structural)]
pub struct Frame {
    pub cmd: Command,
    pub checksum: u8,
}

/// The decoding of a raw message buffer: an empty buffer means the peer
/// disconnected; anything but exactly 7 bytes or a known tag is a parse
/// error; a checksum byte that does not match the command's canonical sum is
/// an invalid checksum. The terminator byte is not inspected.
pub open spec fn spec_decode(bytes: Seq<u8>) -> Result<Frame, FrameError> {
    if bytes.len() == 0 {
        Err(FrameError::ClientDisconnected)
    } else if bytes.len() != 7 {
        Err(FrameError::ParseError)
    } else {
        match spec_parse_command(bytes) {
            Err(e) => Err(e),
            Ok(cmd) => {
                if bytes[5] == spec_checksum(cmd) {
                    Ok(Frame { cmd, checksum: bytes[5] })
                } else {
                    Err(FrameError::InvalidChecksum)
                }
            },
        }
    }
}

impl Frame {
    /// Whether the carried checksum equals the sum mod 256 of the command's
    /// canonical bytes.
    pub fn validate_checksum(&self) -> (r: bool)
        ensures
            r == (self.checksum == spec_checksum(self.cmd)),
    {
        let cmd_bytes = self.cmd.as_bytes();
        let mut checksum: u32 = 0;
        let mut i: usize = 0;
        while i < cmd_bytes.len()
            invariant
                i <= cmd_bytes@.len(),
                cmd_bytes@.len() <= 5,
                checksum == byte_sum(cmd_bytes@.take(i as int)),
            decreases cmd_bytes@.len() - i,
        {
            proof {
                assert(cmd_bytes@.take(i + 1).drop_last() =~= cmd_bytes@.take(i as int));
                lemma_byte_sum_bounds(cmd_bytes@.take(i + 1));
            }
            checksum = checksum + cmd_bytes[i] as u32;
            i = i + 1;
        }
        proof {
            assert(cmd_bytes@.take(cmd_bytes@.len() as int) =~= cmd_bytes@);
        }
        checksum = checksum % 256;
        checksum as u8 == self.checksum
    }

    /// Decodes and validates one raw message buffer.
    ///
    /// The result is a function of the input bytes alone: equal buffers
    /// always decode to equal results.
    pub fn decode(value: &[u8]) -> (r: Result<Frame, FrameError>)
        ensures
            r == spec_decode(value@),
    {
        if value.len() == 0 {
            Err(FrameError::ClientDisconnected)
        } else if value.len() == 7 {
            match Command::parse(value) {
                Err(e) => Err(e),
                Ok(command) => {
                    let frame = Frame { cmd: command, checksum: value[5] };
                    if !frame.validate_checksum() {
                        Err(FrameError::InvalidChecksum)
                    } else {
                        Ok(frame)
                    }
                },
            }
        } else {
            Err(FrameError::ParseError)
        }
    }
}

/// A byte sum is at least 0 and less than 256 times the byte count.
pub proof fn lemma_byte_sum_bounds(s: Seq<u8>)
    ensures
        0 <= byte_sum(s) <= s.len() * 255,
    decreases s.len(),
{
    if s.len() > 0 {
        lemma_byte_sum_bounds(s.drop_last());
    }
}

/// The full 7-byte wire image of a command carrying a given checksum byte:
/// tag, 4 argument bytes (zero for `Quit` and `Shutdown`), checksum,
/// terminator.
pub open spec fn spec_wire(cmd: Command, checksum: u8) -> Seq<u8> {
    match cmd {
        Command::Get(n) => seq![TAG_GET].add(be_bytes_of_u32(n)).push(checksum).push(TERMINATOR),
        Command::Quit => seq![TAG_QUIT, 0u8, 0u8, 0u8, 0u8, checksum, TERMINATOR],
        Command::Shutdown => seq![TAG_SHUTDOWN, 0u8, 0u8, 0u8, 0u8, checksum, TERMINATOR],
    }
}

/// Encodes a command as its 7-byte wire message with the given checksum byte.
pub fn encode_wire(cmd: &Command, checksum: u8) -> (r: Vec<u8>)
    ensures
        r@ == spec_wire(*cmd, checksum),
{
    let mut bytes = cmd.as_bytes();
    match cmd {
        Command::Get(_) => {},
        _ => {
            bytes.push(0);
            bytes.push(0);
            bytes.push(0);
            bytes.push(0);
        },
    }
    bytes.push(checksum);
    bytes.push(TERMINATOR);
    proof {
        assert(bytes@ =~= spec_wire(*cmd, checksum));
    }
    bytes
}

/// Checksum law: a wire message built from any command and the matching
/// checksum decodes back to exactly that command, and the same message with
/// any other checksum byte (in particular, the right one with any single bit
/// flipped) is rejected as `InvalidChecksum`.
pub proof fn lemma_checksum_round_trip(cmd: Command, checksum: u8)
    ensures
        checksum == spec_checksum(cmd) ==> spec_decode(spec_wire(cmd, checksum)) == Ok::<
            Frame,
            FrameError,
        >(Frame { cmd, checksum }),
        checksum != spec_checksum(cmd) ==> spec_decode(spec_wire(cmd, checksum)) == Err::<
            Frame,
            FrameError,
        >(FrameError::InvalidChecksum),
{
    let w = spec_wire(cmd, checksum);
    assert(w.len() == 7);
    match cmd {
        Command::Get(n) => {
            lemma_be_round_trip(n);
            assert(spec_parse_command(w) == Ok::<Command, FrameError>(cmd));
        },
        Command::Quit => {
            assert(spec_parse_command(w) == Ok::<Command, FrameError>(cmd));
        },
        Command::Shutdown => {
            assert(spec_parse_command(w) == Ok::<Command, FrameError>(cmd));
        },
    }
}

} // verus!
