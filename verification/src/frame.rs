use vstd::prelude::*;
use crate::error::{Error, Violation};

verus! {

/// Positive acknowledgment.
pub const ACK: u8 = 0x79;
/// Negative acknowledgment.
pub const NACK: u8 = 0x1F;
/// The byte that wakes the bootloader and lets it measure the baud rate.
pub const WAKE: u8 = 0x7F;
/// Command: report protocol version and supported commands.
pub const CMD_GET: u8 = 0x00;
/// Command: report the chip id.
pub const CMD_GET_ID: u8 = 0x02;

/// Timeout while discarding stale input, in milliseconds.
pub const DRAIN_TIMEOUT_MS: u64 = 10;
/// Timeout for the answer to a wake byte, in milliseconds.
pub const PROBE_TIMEOUT_MS: u64 = 100;
/// Timeout for an ordinary status byte, in milliseconds.
pub const RESPONSE_TIMEOUT_MS: u64 = 1000;

/// The checksum that accompanies a command byte: its one's complement.
pub open spec fn checksum_of(command: u8) -> u8 {
    (0xFF - command) as u8
}

/// The two bytes that go on the wire for a command.
pub open spec fn frame_of(command: u8) -> Seq<u8> {
    seq![command, checksum_of(command)]
}

/// Whether `bytes` is a command byte followed by its checksum.
pub open spec fn is_frame(bytes: Seq<u8>) -> bool {
    bytes.len() == 2 && bytes[1] == 0xFF - bytes[0]
}

/// What a status byte means.
pub open spec fn status_of(byte: u8) -> Result<(), Error> {
    if byte == ACK {
        Ok(())
    } else if byte == NACK {
        Err(Error::NegativeAcknowledge)
    } else {
        Err(Error::ProtocolViolation(Violation::UnexpectedByte(byte)))
    }
}

/// The chip id held by an identify payload: two bytes, most significant first.
pub open spec fn chip_id_of(payload: Seq<u8>) -> Result<u16, Error> {
    if payload.len() == 2 {
        Ok((payload[0] * 256 + payload[1]) as u16)
    } else {
        Err(Error::ProtocolViolation(Violation::UnexpectedLength(payload.len() as usize)))
    }
}

/// What decoding a received command frame yields.
pub open spec fn command_of(bytes: Seq<u8>) -> Result<u8, Error> {
    if bytes.len() != 2 {
        Err(Error::ProtocolViolation(Violation::UnexpectedLength(bytes.len() as usize)))
    } else if bytes[1] != 0xFF - bytes[0] {
        Err(Error::ProtocolViolation(Violation::UnexpectedByte(bytes[1])))
    } else {
        Ok(bytes[0])
    }
}

/// The checksum byte that follows `command` on the wire.
pub fn checksum(command: u8) -> (check: u8)
    ensures
        check == 0xFF - command,
        check == checksum_of(command),
{
    0xFF - command
}

/// The frame that carries `command`: the command, then its checksum.
pub fn encode_command(command: u8) -> (frame: [u8; 2])
    ensures
        frame@ == frame_of(command),
        is_frame(frame@),
{
    let frame: [u8; 2] = [command, checksum(command)];
    assert(frame@ =~= frame_of(command));
    frame
}

/// Reads a command frame back: the command, where `bytes` is one command
/// byte followed by its checksum; otherwise what is wrong with it.
pub fn decode_command(bytes: &[u8]) -> (r: Result<u8, Error>)
    ensures
        r == command_of(bytes@),
        r is Ok <==> is_frame(bytes@),
        r matches Ok(command) ==> bytes@ == frame_of(command),
{
    if bytes.len() != 2 {
        Err(Error::ProtocolViolation(Violation::UnexpectedLength(bytes.len())))
    } else if bytes[1] != 0xFF - bytes[0] {
        Err(Error::ProtocolViolation(Violation::UnexpectedByte(bytes[1])))
    } else {
        assert(bytes@ =~= frame_of(bytes@[0]));
        Ok(bytes[0])
    }
}

/// Judges a status byte: positive acknowledgment lets the operation go on,
/// anything else fails it.
pub fn check_status(byte: u8) -> (r: Result<(), Error>)
    ensures
        r == status_of(byte),
{
    if byte == ACK {
        Ok(())
    } else if byte == NACK {
        Err(Error::NegativeAcknowledge)
    } else {
        Err(Error::ProtocolViolation(Violation::UnexpectedByte(byte)))
    }
}

/// Reads the chip id out of an identify payload, which must be exactly two
/// bytes, most significant first.
pub fn parse_chip_id(payload: &[u8]) -> (r: Result<u16, Error>)
    ensures
        r == chip_id_of(payload@),
        r is Ok <==> payload@.len() == 2,
{
    if payload.len() == 2 {
        let high: u16 = payload[0] as u16;
        let low: u16 = payload[1] as u16;
        Ok(high * 256 + low)
    } else {
        Err(Error::ProtocolViolation(Violation::UnexpectedLength(payload.len())))
    }
}

/// The encoding of a command is the command followed by `0xFF` minus the
/// command, and decoding it gives the command back.
pub proof fn lemma_frame_round_trip(command: u8)
    ensures
        frame_of(command).len() == 2,
        frame_of(command)[0] == command,
        frame_of(command)[1] == 0xFF - command,
        command_of(frame_of(command)) == Ok::<u8, Error>(command),
{
}

/// Whatever decodes is the encoding of what it decodes to: the second byte
/// is `0xFF` minus the first.
pub proof fn lemma_decoded_is_encoded(bytes: Seq<u8>)
    ensures
        command_of(bytes) is Ok <==> is_frame(bytes),
        command_of(bytes) matches Ok(command) ==> bytes == frame_of(command)
            && bytes[1] == 0xFF - command,
{
    if command_of(bytes) is Ok {
        assert(bytes =~= frame_of(bytes[0]));
    }
}

/// A payload of any length but two holds no chip id.
pub proof fn lemma_chip_id_needs_two_bytes(payload: Seq<u8>)
    ensures
        payload.len() != 2 ==> chip_id_of(payload) is Err
            && chip_id_of(payload)->Err_0.is_protocol_violation(),
        payload.len() == 2 ==> chip_id_of(payload) == Ok::<u16, Error>(
            (payload[0] * 256 + payload[1]) as u16,
        ),
{
}

} // verus!
