use vstd::prelude::*;

use super::link::LinkFrame;
use super::raw_transport;

verus! {

/// Bit of the transport header marking the final segment of a fragment.
pub const FIN_MASK: u8 = 0b0100_0000;

/// Bit of the transport header marking the first segment of a fragment.
pub const FIR_MASK: u8 = 0b1000_0000;

/// Bits of the transport header holding the segment's sequence number.
pub const SEQUENCE_MASK: u8 = 0b0011_1111;

/// A DNP3 transport segment: its header bits and the application data that
/// follows the header byte.
#[derive(Debug, Clone)]
pub struct TransportSegment<'a> {
    pub fir: bool,
    pub fin: bool,
    pub sequence: u8,
    pub app_data: &'a [u8],
}

/// `segment` is what `user_data` (non-empty) holds: its first byte is the
/// transport header (FIR, FIN, sequence number), the rest is application
/// data.
pub open spec fn segment_of(segment: TransportSegment, user_data: Seq<u8>) -> bool {
    let header = user_data[0];
    &&& segment.fir == (header & FIR_MASK != 0)
    &&& segment.fin == (header & FIN_MASK != 0)
    &&& segment.sequence == header & SEQUENCE_MASK
    &&& segment.app_data@ == user_data.skip(1)
}

/// Parses the transport header from a link frame's first user-data block.
///
/// Only the first block is read: the transport header, application control
/// byte and function code always live at user-data offsets 0-2, which is
/// always within the first 16-byte block however many blocks the frame
/// has. Bytes beyond the first block are reachable through
/// `LinkFrame::user_data_chunks`; nothing here reassembles across blocks,
/// nor across link frames when FIR/FIN aren't both set.
pub fn parse_transport_segment<'a>(frame: &LinkFrame<'a>) -> (segment: Option<TransportSegment<'a>>)
    requires
        frame@.wf(),
    ensures
        segment is Some <==> frame@.blocks().len() > 0,
        segment matches Some(s) ==> segment_of(s, frame@.blocks()[0]),
{
    let first_block = frame.first_user_data_chunk()?;
    proof {
        assert(frame@.blocks()[0].len() > 0) by {
            reveal_with_fuel(super::link::user_data_blocks, 2);
        }
    }
    raw_transport::parse_transport_segment(first_block)
}

/// The transport header's bits: FIR is the top bit (header at least 128),
/// FIN the next one, and the sequence number the low six bits.
pub proof fn lemma_transport_header_bits(header: u8)
    ensures
        (header & FIR_MASK != 0) == (header >= 128),
        (header & FIN_MASK != 0) == ((header / 64) % 2 == 1),
        header & SEQUENCE_MASK == header % 64,
{
    assert((header & 0x80u8 != 0) == (header >= 128)) by (bit_vector);
    assert((header & 0x40u8 != 0) == ((header / 64) % 2 == 1)) by (bit_vector);
    assert(header & 0x3fu8 == header % 64) by (bit_vector);
}

} // verus!
