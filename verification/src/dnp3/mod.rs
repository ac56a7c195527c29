pub mod application;
pub mod link;
pub mod raw_transport;
pub mod transport;

use vstd::prelude::*;
use vstd::slice::slice_subrange;

pub use application::FunctionCode;

use link::{LinkFrameModel, START1, START2};

verus! {

/// One DNP3 application message: the link-layer addresses of the frame that
/// carried it and the function code it asks for.
#[derive(Debug, Clone, Copy, PartialEq, Eq, Structural)]
pub struct Dnp3Message {
    pub dest: u16,
    pub src: u16,
    pub function: FunctionCode,
}

/// The message a link frame carries: the transport header is the first byte
/// of its first user-data block, and the application header follows it.
/// A frame without user data, or with too little of it for an application
/// header, carries none.
pub open spec fn message_in_frame(frame: LinkFrameModel) -> Option<Dnp3Message> {
    let blocks = frame.blocks();
    if blocks.len() == 0 {
        None
    } else {
        match application::spec_application_header(blocks[0].skip(1)) {
            Some(header) => Some(
                Dnp3Message {
                                dest: frame.dest,
                                src: frame.src,
                                function: header.function,
                            },
            ),
            None => None,
        }
    }
}

/// The messages found in `payload` from `offset` on: where a link frame
/// starts, its message (if any) is taken and the whole frame skipped;
/// anywhere else the scan moves on by one byte.
pub open spec fn scan_messages(payload: Seq<u8>, offset: nat) -> Seq<Dnp3Message>
    decreases payload.len() - offset,
{
    if offset >= payload.len() {
        Seq::empty()
    } else {
        match link::spec_link_frame(payload.skip(offset as int)) {
            None => scan_messages(payload, offset + 1),
            Some(frame) => {
                let rest = scan_messages(payload, offset + frame.consumed);
                match message_in_frame(frame) {
                    Some(m) => seq![m] + rest,
                    None => rest,
                }
            },
        }
    }
}

/// Every DNP3 message in a TCP/UDP payload, in order.
pub open spec fn spec_find_dnp3_messages(payload: Seq<u8>) -> Seq<Dnp3Message> {
    scan_messages(payload, 0)
}

/// A `0x05 0x64` sync pattern starts at index `i` of `data`.
pub open spec fn sync_at(data: Seq<u8>, i: int) -> bool {
    0 <= i && i + 1 < data.len() && data[i] == START1 && data[i + 1] == START2
}

/// Scans a TCP/UDP payload for DNP3 link frames and decodes each into a
/// `Dnp3Message`. Non-DNP3 bytes (scanner probes, other protocols sharing
/// port 20000, etc.) are skipped by sliding forward one byte at a time until
/// the next `0x05 0x64` sync pattern; a valid frame without a usable
/// application message (e.g. a link-status probe) is skipped whole.
pub fn find_dnp3_messages(payload: &[u8]) -> (messages: Vec<Dnp3Message>)
    ensures
        messages@ == spec_find_dnp3_messages(payload@),
{
    let mut offset: usize = 0;
    let mut messages: Vec<Dnp3Message> = Vec::new();
    while offset < payload.len()
        invariant
            offset <= payload.len(),
            spec_find_dnp3_messages(payload@) == messages@ + scan_messages(
                payload@,
                offset as nat,
            ),
        decreases payload.len() - offset,
    {
        let rest = slice_subrange(payload, offset, payload.len());
        assert(rest@ =~= payload@.skip(offset as int));
        match link::parse_link_frame(rest) {
            None => {
                offset += 1;
            },
            Some(frame) => {
                let ghost before = messages@;
                offset += frame.consumed();
                if let Some(segment) = transport::parse_transport_segment(&frame) {
                    if let Some(header) = application::parse_application_header(
                        segment.app_data,
                    ) {
                        messages.push(
                            Dnp3Message {
                                dest: frame.dest(),
                                src: frame.src(),
                                function: header.function,
                            },
                        );
                    }
                }
                proof {
                    let m = message_in_frame(frame@);
                    if m is Some {
                        assert(messages@ == before.push(m.unwrap()));
                        assert(before.push(m.unwrap()) + scan_messages(payload@, offset as nat)
                            =~= before + (seq![m.unwrap()] + scan_messages(
                            payload@,
                            offset as nat,
                        )));
                    }
                }
            },
        }
    }
    assert(messages@ + Seq::<Dnp3Message>::empty() =~= messages@);
    messages
}

/// Past a prefix `a`, scanning `a + b` is scanning `b`.
proof fn lemma_scan_shift(a: Seq<u8>, b: Seq<u8>, k: nat)
    ensures
        scan_messages(a + b, a.len() + k) == scan_messages(b, k),
    decreases b.len() - k,
{
    if k < b.len() {
        assert((a + b).skip((a.len() + k) as int) =~= b.skip(k as int));
        match link::spec_link_frame(b.skip(k as int)) {
            None => lemma_scan_shift(a, b, k + 1),
            Some(frame) => lemma_scan_shift(a, b, k + frame.consumed),
        }
    }
}

/// Scanning skips every position before `end` where no sync pattern starts.
proof fn lemma_scan_skips_to(data: Seq<u8>, k: nat, end: nat)
    requires
        k <= end <= data.len(),
        forall|i: int| k <= i < end ==> !sync_at(data, i),
    ensures
        scan_messages(data, k) == scan_messages(data, end),
    decreases end - k,
{
    if k < end {
        assert(!sync_at(data, k as int));
        assert(link::spec_link_frame(data.skip(k as int)) is None);
        lemma_scan_skips_to(data, k + 1, end);
    }
}

/// Bytes that hold no `0x05 0x64` sync pattern do not change what is found
/// after them: no message is read out of them, and the scan resumes exactly
/// where the rest of the payload starts.
pub proof fn lemma_noise_is_skipped(noise: Seq<u8>, rest: Seq<u8>)
    requires
        forall|i: int| 0 <= i < noise.len() ==> !sync_at(noise + rest, i),
    ensures
        spec_find_dnp3_messages(noise + rest) == spec_find_dnp3_messages(rest),
{
    lemma_scan_skips_to(noise + rest, 0, noise.len());
    lemma_scan_shift(noise, rest, 0);
}

/// A payload without any `0x05 0x64` sync pattern holds no DNP3 message.
pub proof fn lemma_no_sync_no_messages(payload: Seq<u8>)
    requires
        forall|i: int| !sync_at(payload, i),
    ensures
        spec_find_dnp3_messages(payload) == Seq::<Dnp3Message>::empty(),
{
    let empty = Seq::<u8>::empty();
    assert(payload + empty =~= payload);
    lemma_noise_is_skipped(payload, empty);
}

/// A complete link frame at the start of a payload is read whole: its
/// message (if it carries one) comes first, then the messages of whatever
/// follows the frame.
pub proof fn lemma_frame_then_rest(frame: Seq<u8>, rest: Seq<u8>)
    requires
        link::spec_link_frame(frame) matches Some(f) && f.consumed == frame.len(),
    ensures
        spec_find_dnp3_messages(frame + rest) == match message_in_frame(
            link::spec_link_frame(frame).unwrap(),
        ) {
            Some(m) => seq![m] + spec_find_dnp3_messages(rest),
            None => spec_find_dnp3_messages(rest),
        },
{
    let data = frame + rest;
    let f = link::spec_link_frame(frame).unwrap();
    assert(data.skip(0) =~= data);
    assert(data.subrange(link::HEADER_LEN as int, f.consumed as int) =~= frame.subrange(
        link::HEADER_LEN as int,
        f.consumed as int,
    ));
    assert(link::spec_link_frame(data) == Some(f));
    lemma_scan_shift(frame, rest, 0);
}

/// A frame's message is read from its first three bytes of user data alone
/// (transport header, application control, function code): it exists
/// exactly when the frame carries at least three bytes of user data, and
/// its function code is user-data byte 2, whatever object data, malformed
/// or not, or trailing authentication follows.
pub proof fn lemma_message_reads_user_data_byte_two(frame: LinkFrameModel)
    requires
        frame.wf(),
    ensures
        message_in_frame(frame) is Some <==> frame.user_data_len >= 3,
        frame.user_data_len >= 3 ==> message_in_frame(frame) == Some(
            Dnp3Message {
                dest: frame.dest,
                src: frame.src,
                function: application::function_code_of(frame.payload[2]),
            },
        ),
{
    reveal_with_fuel(link::user_data_blocks, 2);
    if frame.user_data_len > 0 {
        let n = frame.user_data_len;
        let k: nat = if n < 16 { n } else { 16 };
        assert(frame.blocks()[0] == frame.payload.take(k as int));
    }
}

} // verus!
