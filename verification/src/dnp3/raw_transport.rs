use vstd::prelude::*;
use vstd::slice::slice_subrange;

use super::transport::{TransportSegment, FIN_MASK, FIR_MASK, SEQUENCE_MASK};

verus! {

/// Parses the transport header from a link frame's user data, given as one
/// contiguous slice (block CRCs already removed).
///
/// DNP3 application fragments can span multiple link frames when FIR/FIN
/// aren't both set; nothing here reassembles across frames.
pub fn parse_transport_segment(user_data: &[u8]) -> (segment: Option<TransportSegment<'_>>)
    ensures
        segment is Some <==> user_data@.len() > 0,
        segment matches Some(s) ==> super::transport::segment_of(s, user_data@),
{
    if user_data.len() == 0 {
        return None;
    }
    let header = user_data[0];
    Some(
        TransportSegment {
            fir: header & FIR_MASK != 0,
            fin: header & FIN_MASK != 0,
            sequence: header & SEQUENCE_MASK,
            app_data: slice_subrange(user_data, 1, user_data.len()),
        },
    )
}

} // verus!
