//! The two wrappings of a PDU: the MBAP header of Modbus TCP, and the
//! address byte and checksum of a serial RTU frame.

use vstd::prelude::*;

use crate::bytes::{be_bytes_u16, join_register, split_register};
use crate::constants::MAX_PDU_SIZE;
use crate::error::{ModbusError, ModbusResult};
use crate::pdu::ModbusPdu;

verus! {

/// Length of the whole MBAP header, unit identifier included.
pub const MBAP_PREFIX_LEN: usize = 7;

/// The fields of an MBAP header.
#[derive(Debug, Clone, Copy, PartialEq, Eq, Structural)]
pub struct MbapHeader {
    /// Number that pairs a response with its request.
    pub transaction_id: u16,
    /// Number of bytes of the PDU that follows the header.
    pub pdu_len: usize,
    /// The addressed unit.
    pub unit_id: u8,
}

/// A PDU behind its MBAP header: transaction id, protocol id 0, the
/// number of bytes that follow the length field, unit id.
pub open spec fn mbap_framed(transaction_id: u16, unit_id: u8, pdu: Seq<u8>) -> Seq<u8> {
    be_bytes_u16(transaction_id) + seq![0u8, 0u8] + be_bytes_u16((pdu.len() + 1) as u16) + seq![
        unit_id,
    ] + pdu
}

/// What an MBAP header says. It must be seven bytes with protocol id 0
/// and a length field that leaves room for a PDU of at least one byte
/// and at most the protocol maximum.
pub open spec fn parsed_mbap_header(header: Seq<u8>) -> ModbusResult<MbapHeader> {
    let length = header[4] * 256 + header[5];
    if header.len() != MBAP_PREFIX_LEN || header[2] != 0 || header[3] != 0 || length < 2 || length
        > MAX_PDU_SIZE + 1 {
        Err(ModbusError::MalformedFrame)
    } else {
        Ok(
            MbapHeader {
                transaction_id: (header[0] * 256 + header[1]) as u16,
                pdu_len: (length - 1) as usize,
                unit_id: header[6],
            },
        )
    }
}

/// Wraps a PDU for Modbus TCP.
pub fn mbap_frame(transaction_id: u16, unit_id: u8, pdu: &ModbusPdu) -> (frame: Vec<u8>)
    ensures
        frame@ == mbap_framed(transaction_id, unit_id, pdu@),
{
    let content = pdu.as_slice();
    let n = pdu.len();
    let (id_high, id_low) = split_register(transaction_id);
    let (len_high, len_low) = split_register((n + 1) as u16);
    let mut frame: Vec<u8> = Vec::new();
    frame.push(id_high);
    frame.push(id_low);
    frame.push(0);
    frame.push(0);
    frame.push(len_high);
    frame.push(len_low);
    frame.push(unit_id);
    let ghost header = frame@;
    let mut i: usize = 0;
    while i < n
        invariant
            n == content@.len(),
            i <= n,
            frame@ == header + content@.take(i as int),
        decreases n - i,
    {
        frame.push(content[i]);
        i += 1;
        assert(frame@ =~= header + content@.take(i as int));
    }
    assert(content@.take(n as int) =~= content@);
    assert(frame@ =~= mbap_framed(transaction_id, unit_id, pdu@));
    frame
}

/// Reads an MBAP header.
pub fn parse_mbap_header(header: &[u8]) -> (r: ModbusResult<MbapHeader>)
    ensures
        r == parsed_mbap_header(header@),
{
    if header.len() != MBAP_PREFIX_LEN {
        return Err(ModbusError::MalformedFrame);
    }
    if header[2] != 0 || header[3] != 0 {
        return Err(ModbusError::MalformedFrame);
    }
    let length = join_register(header[4], header[5]) as usize;
    if length < 2 || length > MAX_PDU_SIZE + 1 {
        return Err(ModbusError::MalformedFrame);
    }
    Ok(
        MbapHeader {
            transaction_id: join_register(header[0], header[1]),
            pdu_len: length - 1,
            unit_id: header[6],
        },
    )
}

/// The header of a framed PDU reads back as it was written.
pub proof fn lemma_mbap_header_reads_back(transaction_id: u16, unit_id: u8, pdu: Seq<u8>)
    requires
        1 <= pdu.len() <= MAX_PDU_SIZE,
    ensures
        parsed_mbap_header(
            mbap_framed(transaction_id, unit_id, pdu).take(MBAP_PREFIX_LEN as int),
        ) == Ok::<MbapHeader, ModbusError>(
            MbapHeader { transaction_id, pdu_len: pdu.len() as usize, unit_id },
        ),
        mbap_framed(transaction_id, unit_id, pdu).skip(MBAP_PREFIX_LEN as int) == pdu,
{
    let frame = mbap_framed(transaction_id, unit_id, pdu);
    let header = frame.take(MBAP_PREFIX_LEN as int);
    assert(header[0] == transaction_id / 256 && header[1] == transaction_id % 256);
    assert(header[4] == (pdu.len() + 1) / 256 && header[5] == (pdu.len() + 1) % 256);
    assert(header[2] == 0 && header[3] == 0 && header[6] == unit_id);
    assert(frame.skip(MBAP_PREFIX_LEN as int) =~= pdu);
}

/// One step of the checksum: a shift to the right, and the polynomial
/// 0xA001 folded in where a set bit fell out.
pub open spec fn crc_shifted(crc: u16) -> u16 {
    if crc & 1 == 1 {
        (crc >> 1) ^ 0xA001
    } else {
        crc >> 1
    }
}

/// The checksum after one more byte: the byte folded into the low half,
/// then eight steps.
pub open spec fn crc_with_byte(crc: u16, byte: u8) -> u16 {
    crc_shifted(
        crc_shifted(
            crc_shifted(
                crc_shifted(
                    crc_shifted(crc_shifted(crc_shifted(crc_shifted(crc ^ (byte as u16))))),
                ),
            ),
        ),
    )
}

/// The CRC-16 of Modbus over a byte sequence, starting from 0xFFFF.
pub open spec fn crc16_of(data: Seq<u8>) -> u16
    decreases data.len(),
{
    if data.len() == 0 {
        0xFFFF
    } else {
        crc_with_byte(crc16_of(data.drop_last()), data.last())
    }
}

/// A PDU in a serial frame: slave address, PDU, checksum with its low
/// byte first.
pub open spec fn rtu_framed(slave_id: u8, pdu: Seq<u8>) -> Seq<u8> {
    let body = seq![slave_id] + pdu;
    body + seq![(crc16_of(body) % 256) as u8, (crc16_of(body) / 256) as u8]
}

/// What a serial frame holds: the slave address and the PDU. The frame
/// must have an address, at least one byte of PDU and the checksum, no
/// more than the protocol maximum of PDU, and the checksum that its
/// bytes give.
pub open spec fn parsed_rtu_frame(frame: Seq<u8>) -> Result<(u8, Seq<u8>), ModbusError> {
    let body = frame.take(frame.len() - 2);
    let carried = frame[frame.len() - 1] * 256 + frame[frame.len() - 2];
    if frame.len() < 4 || frame.len() > MAX_PDU_SIZE + 3 {
        Err(ModbusError::MalformedFrame)
    } else if carried != crc16_of(body) {
        Err(ModbusError::ChecksumMismatch { expected: crc16_of(body), actual: carried as u16 })
    } else {
        Ok((frame[0], body.skip(1)))
    }
}

fn crc_step(crc: u16) -> (next: u16)
    ensures
        next == crc_shifted(crc),
{
    if crc & 1 == 1 {
        (crc >> 1) ^ 0xA001
    } else {
        crc >> 1
    }
}

/// The CRC-16 of Modbus over `data`.
pub fn crc16(data: &[u8]) -> (crc: u16)
    ensures
        crc == crc16_of(data@),
{
    let n = data.len();
    let mut crc: u16 = 0xFFFF;
    let mut i: usize = 0;
    while i < n
        invariant
            n == data@.len(),
            i <= n,
            crc == crc16_of(data@.take(i as int)),
        decreases n - i,
    {
        let mut next: u16 = crc ^ (data[i] as u16);
        next = crc_step(next);
        next = crc_step(next);
        next = crc_step(next);
        next = crc_step(next);
        next = crc_step(next);
        next = crc_step(next);
        next = crc_step(next);
        next = crc_step(next);
        proof {
            assert(data@.take(i + 1).drop_last() =~= data@.take(i as int));
        }
        crc = next;
        i += 1;
    }
    assert(data@.take(n as int) =~= data@);
    crc
}

/// Wraps a PDU for a serial line.
pub fn rtu_frame(slave_id: u8, pdu: &ModbusPdu) -> (frame: Vec<u8>)
    ensures
        frame@ == rtu_framed(slave_id, pdu@),
{
    let content = pdu.as_slice();
    let n = pdu.len();
    let mut frame: Vec<u8> = Vec::new();
    frame.push(slave_id);
    let mut i: usize = 0;
    while i < n
        invariant
            n == content@.len(),
            i <= n,
            frame@ == seq![slave_id] + content@.take(i as int),
        decreases n - i,
    {
        frame.push(content[i]);
        i += 1;
        assert(frame@ =~= seq![slave_id] + content@.take(i as int));
    }
    assert(content@.take(n as int) =~= content@);
    let crc = crc16(frame.as_slice());
    let (high, low) = split_register(crc);
    frame.push(low);
    frame.push(high);
    assert(frame@ =~= rtu_framed(slave_id, pdu@));
    frame
}

/// Takes a serial frame apart and checks its checksum.
pub fn parse_rtu_frame(frame: &[u8]) -> (r: ModbusResult<(u8, ModbusPdu)>)
    ensures
        match parsed_rtu_frame(frame@) {
            Ok((slave_id, pdu)) => r is Ok && r->Ok_0.0 == slave_id && r->Ok_0.1@ == pdu,
            Err(e) => r == Err::<(u8, ModbusPdu), ModbusError>(e),
        },
{
    let n = frame.len();
    if n < 4 || n > MAX_PDU_SIZE + 3 {
        return Err(ModbusError::MalformedFrame);
    }
    let body = &frame[0..n - 2];
    assert(body@ =~= frame@.take(n - 2));
    let expected = crc16(body);
    let actual = join_register(frame[n - 1], frame[n - 2]);
    if actual != expected {
        return Err(ModbusError::ChecksumMismatch { expected, actual });
    }
    let content = &frame[1..n - 2];
    assert(content@ =~= frame@.take(n - 2).skip(1));
    match ModbusPdu::from_slice(content) {
        Ok(pdu) => Ok((frame[0], pdu)),
        Err(e) => Err(e),
    }
}

/// A framed PDU comes apart into the address and the PDU it was made
/// from.
pub proof fn lemma_rtu_frame_reads_back(slave_id: u8, pdu: Seq<u8>)
    requires
        1 <= pdu.len() <= MAX_PDU_SIZE,
    ensures
        parsed_rtu_frame(rtu_framed(slave_id, pdu)) == Ok::<(u8, Seq<u8>), ModbusError>(
            (slave_id, pdu),
        ),
{
    let body = seq![slave_id] + pdu;
    let frame = rtu_framed(slave_id, pdu);
    assert(frame.take(frame.len() - 2) =~= body);
    assert(body.skip(1) =~= pdu);
    let crc = crc16_of(body);
    assert(frame[frame.len() - 2] == crc % 256);
    assert(frame[frame.len() - 1] == crc / 256);
}

/// Length of the whole serial frame of a response, as far as its second
/// and third byte tell it.
pub open spec fn rtu_response_len(function_code: u8, third_byte: u8) -> Option<int> {
    if function_code >= 0x80 {
        Some(5int)
    } else if 1 <= function_code <= 4 {
        Some(5 + third_byte)
    } else if function_code == 5 || function_code == 6 || function_code == 0x0F || function_code
        == 0x10 {
        Some(8int)
    } else {
        None
    }
}

/// Length of the whole serial frame of a response, told from the
/// function code and the byte behind it: five bytes for an exception,
/// the data and five bytes for a read, eight bytes for the echo of a
/// write. Of another function code nothing is known.
pub fn rtu_response_length(function_code: u8, third_byte: u8) -> (len: Option<usize>)
    ensures
        match rtu_response_len(function_code, third_byte) {
            Some(n) => len == Some(n as usize),
            None => len is None,
        },
{
    if function_code >= 0x80 {
        Some(5)
    } else if function_code >= 1 && function_code <= 4 {
        Some(5 + third_byte as usize)
    } else if function_code == 5 || function_code == 6 || function_code == 0x0F || function_code
        == 0x10 {
        Some(8)
    } else {
        None
    }
}

} // verus!
