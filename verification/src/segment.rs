//! The framing of a message for the wire: a header of eight bytes, then the
//! payload.
use vstd::prelude::*;
use vstd::slice::slice_subrange;

verus! {

/// The length of a segment header in bytes.
pub const SEGMENT_HEADER_LENGTH: usize = 8;

/// The longest payload that one segment carries: its length has to fit in
/// the two bytes that the header has for it.
pub const MAX_PAYLOAD_LENGTH: usize = 65535;

/// The header of a segment.
#[derive(Debug, Clone, Copy, PartialEq, Eq)]
pub struct SegmentHeader {
    /// When the segment was sent, in microseconds, cut to 32 bits.
    pub transmission_time: u32,
    /// The mini-protocol that the payload belongs to.
    pub protocol_id: u16,
    /// The length of the payload in bytes.
    pub payload_length: u16,
}

/// Why a segment could not be written or read.
#[derive(Debug, Clone, Copy, PartialEq, Eq)]
pub enum SegmentError {
    /// The payload is longer than `MAX_PAYLOAD_LENGTH`.
    PayloadTooLong,
    /// The buffer ends before the header does.
    ShortHeader,
    /// The buffer ends before the payload that the header announces does.
    ShortPayload,
}

/// The two bytes of a 16-bit number, the high byte first.
pub open spec fn be_bytes_u16(number: u16) -> Seq<u8> {
    seq![(number / 0x100) as u8, (number % 0x100) as u8]
}

/// The four bytes of a 32-bit number, the highest byte first.
pub open spec fn be_bytes_u32(number: u32) -> Seq<u8> {
    seq![
        (number / 0x100_0000) as u8,
        (number / 0x1_0000 % 0x100) as u8,
        (number / 0x100 % 0x100) as u8,
        (number % 0x100) as u8,
    ]
}

/// The 16-bit number that two bytes spell, the high byte first.
pub open spec fn be_u16(high: u8, low: u8) -> u16 {
    (high * 0x100 + low) as u16
}

/// The 32-bit number that four bytes spell, the highest byte first.
pub open spec fn be_u32(first: u8, second: u8, third: u8, fourth: u8) -> u32 {
    (first * 0x100_0000 + second * 0x1_0000 + third * 0x100 + fourth) as u32
}

impl SegmentHeader {
    /// The eight bytes of a header: the transmission time in bytes 0 to 3,
    /// the protocol identifier in bytes 4 and 5, the payload length in bytes
    /// 6 and 7, each number with its high byte first.
    pub open spec fn bytes(self) -> Seq<u8> {
        be_bytes_u32(self.transmission_time) + be_bytes_u16(self.protocol_id) + be_bytes_u16(
            self.payload_length,
        )
    }

    /// The header that the first eight bytes of a buffer spell.
    pub open spec fn parsed(buffer: Seq<u8>) -> SegmentHeader {
        SegmentHeader {
            transmission_time: be_u32(buffer[0], buffer[1], buffer[2], buffer[3]),
            protocol_id: be_u16(buffer[4], buffer[5]),
            payload_length: be_u16(buffer[6], buffer[7]),
        }
    }
}

/// The bytes of a segment: the header, then the payload.
pub open spec fn segment_bytes(header: SegmentHeader, payload: Seq<u8>) -> Seq<u8> {
    header.bytes() + payload
}

/// What a buffer reads as: the header that its first eight bytes spell and
/// the payload of the length that the header announces, taken from the bytes
/// after the header. A buffer that ends before the header or the payload
/// does is refused. Bytes after the payload are left alone.
pub open spec fn segment_parsed(buffer: Seq<u8>) -> Result<(SegmentHeader, Seq<u8>), SegmentError> {
    if buffer.len() < SEGMENT_HEADER_LENGTH {
        Err(SegmentError::ShortHeader)
    } else {
        let header = SegmentHeader::parsed(buffer);
        let end = SEGMENT_HEADER_LENGTH + header.payload_length;
        if buffer.len() < end {
            Err(SegmentError::ShortPayload)
        } else {
            Ok((header, buffer.subrange(SEGMENT_HEADER_LENGTH as int, end)))
        }
    }
}

/// Appends the two bytes of a 16-bit number, the high byte first.
fn push_be_u16(out: &mut Vec<u8>, number: u16)
    ensures
        final(out)@ == old(out)@ + be_bytes_u16(number),
{
    out.push((number / 0x100) as u8);
    out.push((number % 0x100) as u8);
    assert(out@ =~= old(out)@ + be_bytes_u16(number));
}

/// Appends the four bytes of a 32-bit number, the highest byte first.
fn push_be_u32(out: &mut Vec<u8>, number: u32)
    ensures
        final(out)@ == old(out)@ + be_bytes_u32(number),
{
    out.push((number / 0x100_0000) as u8);
    out.push((number / 0x1_0000 % 0x100) as u8);
    out.push((number / 0x100 % 0x100) as u8);
    out.push((number % 0x100) as u8);
    assert(out@ =~= old(out)@ + be_bytes_u32(number));
}

/// Frames a payload: the header for it, then the payload itself. A payload
/// longer than `MAX_PAYLOAD_LENGTH` is refused: it is not split.
pub fn encode_segment(transmission_time: u32, protocol_id: u16, payload: &[u8]) -> (segment: Result<
    Vec<u8>,
    SegmentError,
>)
    ensures
        payload@.len() <= MAX_PAYLOAD_LENGTH ==> segment is Ok && segment->Ok_0@ == segment_bytes(
            SegmentHeader { transmission_time, protocol_id, payload_length: payload@.len() as u16 },
            payload@,
        ),
        payload@.len() > MAX_PAYLOAD_LENGTH ==> segment == Err::<Vec<u8>, SegmentError>(
            SegmentError::PayloadTooLong,
        ),
        segment matches Ok(bytes) ==> bytes@.len() == SEGMENT_HEADER_LENGTH + payload@.len()
            && be_u16(bytes@[6], bytes@[7]) == payload@.len(),
{
    if payload.len() > MAX_PAYLOAD_LENGTH {
        return Err(SegmentError::PayloadTooLong);
    }
    let payload_length = payload.len() as u16;
    let mut segment: Vec<u8> = Vec::new();
    push_be_u32(&mut segment, transmission_time);
    push_be_u16(&mut segment, protocol_id);
    push_be_u16(&mut segment, payload_length);
    let ghost header = segment@;
    let mut at: usize = 0;
    while at < payload.len()
        invariant
            at <= payload.len(),
            segment@ == header + payload@.take(at as int),
        decreases payload.len() - at,
    {
        segment.push(payload[at]);
        assert(segment@ =~= header + payload@.take(at + 1));
        at += 1;
    }
    assert(payload@.take(at as int) =~= payload@);
    proof {
        let spelled = SegmentHeader { transmission_time, protocol_id, payload_length };
        assert(header =~= spelled.bytes());
        lemma_segment_round_trip(spelled, payload@, Seq::empty());
    }
    Ok(segment)
}

/// Reads the header at the front of a buffer of at least eight bytes.
fn decode_header(buffer: &[u8]) -> (header: SegmentHeader)
    requires
        buffer@.len() >= SEGMENT_HEADER_LENGTH,
    ensures
        header == SegmentHeader::parsed(buffer@),
{
    let transmission_time: u32 = (buffer[0] as u32) * 0x100_0000 + (buffer[1] as u32) * 0x1_0000
        + (buffer[2] as u32) * 0x100 + (buffer[3] as u32);
    let protocol_id: u16 = (buffer[4] as u16) * 0x100 + (buffer[5] as u16);
    let payload_length: u16 = (buffer[6] as u16) * 0x100 + (buffer[7] as u16);
    SegmentHeader { transmission_time, protocol_id, payload_length }
}

/// Takes a segment from the front of a buffer: its header, and the payload
/// of the length that the header announces. Nothing past the end of the
/// buffer is read: a buffer that is too short is refused.
pub fn decode_segment(buffer: &[u8]) -> (segment: Result<(SegmentHeader, &[u8]), SegmentError>)
    ensures
        match segment_parsed(buffer@) {
            Ok((header, payload)) => segment is Ok && segment->Ok_0.0 == header
                && segment->Ok_0.1@ == payload,
            Err(error) => segment == Err::<(SegmentHeader, &[u8]), SegmentError>(error),
        },
{
    if buffer.len() < SEGMENT_HEADER_LENGTH {
        return Err(SegmentError::ShortHeader);
    }
    let header = decode_header(buffer);
    let length = header.payload_length as usize;
    if buffer.len() - SEGMENT_HEADER_LENGTH < length {
        return Err(SegmentError::ShortPayload);
    }
    let payload = slice_subrange(buffer, SEGMENT_HEADER_LENGTH, SEGMENT_HEADER_LENGTH + length);
    Ok((header, payload))
}

/// How many more bytes a buffer needs before a whole segment stands at its
/// front: those that the header still lacks, or, once the header is there,
/// those that the payload it announces still lacks. None are needed exactly
/// where the buffer reads as a segment.
pub open spec fn bytes_missing(buffer: Seq<u8>) -> nat {
    if buffer.len() < SEGMENT_HEADER_LENGTH {
        (SEGMENT_HEADER_LENGTH - buffer.len()) as nat
    } else {
        let end = SEGMENT_HEADER_LENGTH + SegmentHeader::parsed(buffer).payload_length;
        if buffer.len() < end {
            (end - buffer.len()) as nat
        } else {
            0
        }
    }
}

/// Tells how many more bytes have to arrive before the buffer holds a whole
/// segment. The header is read only once all eight of its bytes are there.
pub fn missing_bytes(buffer: &[u8]) -> (missing: usize)
    ensures
        missing == bytes_missing(buffer@),
        missing == 0 <==> segment_parsed(buffer@) is Ok,
{
    if buffer.len() < SEGMENT_HEADER_LENGTH {
        SEGMENT_HEADER_LENGTH - buffer.len()
    } else {
        let header = decode_header(buffer);
        let length = header.payload_length as usize;
        if buffer.len() - SEGMENT_HEADER_LENGTH < length {
            length - (buffer.len() - SEGMENT_HEADER_LENGTH)
        } else {
            0
        }
    }
}

/// The 16-bit number that the bytes of a number spell is that number.
pub proof fn lemma_be_u16_round_trip(number: u16)
    ensures
        be_bytes_u16(number).len() == 2,
        be_u16(be_bytes_u16(number)[0], be_bytes_u16(number)[1]) == number,
{
}

/// The 32-bit number that the bytes of a number spell is that number.
pub proof fn lemma_be_u32_round_trip(number: u32)
    ensures
        be_bytes_u32(number).len() == 4,
        be_u32(
            be_bytes_u32(number)[0],
            be_bytes_u32(number)[1],
            be_bytes_u32(number)[2],
            be_bytes_u32(number)[3],
        ) == number,
{
}

/// A header takes eight bytes, and reading them gives the header back. The
/// last two of them spell the payload length.
pub proof fn lemma_header_round_trip(header: SegmentHeader)
    ensures
        header.bytes().len() == SEGMENT_HEADER_LENGTH,
        SegmentHeader::parsed(header.bytes()) == header,
        be_u16(header.bytes()[6], header.bytes()[7]) == header.payload_length,
{
    lemma_be_u32_round_trip(header.transmission_time);
    lemma_be_u16_round_trip(header.protocol_id);
    lemma_be_u16_round_trip(header.payload_length);
}

/// Framing a payload of length L gives 8 + L bytes whose bytes 6 and 7
/// spell L, and reading the segment gives the header and the payload back,
/// whatever bytes follow the segment in the buffer.
pub proof fn lemma_segment_round_trip(header: SegmentHeader, payload: Seq<u8>, rest: Seq<u8>)
    requires
        header.payload_length == payload.len(),
    ensures
        segment_bytes(header, payload).len() == SEGMENT_HEADER_LENGTH + payload.len(),
        be_u16(segment_bytes(header, payload)[6], segment_bytes(header, payload)[7])
            == payload.len(),
        segment_parsed(segment_bytes(header, payload) + rest) == Ok::<
            (SegmentHeader, Seq<u8>),
            SegmentError,
        >((header, payload)),
{
    lemma_header_round_trip(header);
    let buffer = segment_bytes(header, payload) + rest;
    assert forall|i: int| 0 <= i < 8 implies buffer[i] == header.bytes()[i] by {}
    assert(SegmentHeader::parsed(buffer) == SegmentHeader::parsed(header.bytes()));
    assert(buffer.subrange(8, 8 + payload.len() as int) =~= payload);
}

/// A buffer that holds only the beginning of a segment is refused: nothing
/// shorter than 8 + L bytes reads as a segment with a payload of L bytes.
pub proof fn lemma_truncated_segment_is_refused(
    header: SegmentHeader,
    payload: Seq<u8>,
    length: int,
)
    requires
        header.payload_length == payload.len(),
        0 <= length < SEGMENT_HEADER_LENGTH + payload.len(),
    ensures
        segment_parsed(segment_bytes(header, payload).take(length)) is Err,
{
    lemma_header_round_trip(header);
    let buffer = segment_bytes(header, payload).take(length);
    if length >= 8 {
        assert forall|i: int| 0 <= i < 8 implies buffer[i] == header.bytes()[i] by {}
        assert(SegmentHeader::parsed(buffer) == SegmentHeader::parsed(header.bytes()));
    }
}

} // verus!
