use vstd::prelude::*;
use vstd::slice::slice_subrange;

verus! {

/// First sync byte of every DNP3 link frame.
pub const START1: u8 = 0x05;

/// Second sync byte of every DNP3 link frame.
pub const START2: u8 = 0x64;

/// Bytes of the link header: sync (2), length, control, destination (2),
/// source (2) and the header CRC (2).
pub const HEADER_LEN: usize = 10;

/// User data travels in blocks of at most this many bytes, each followed by
/// a 2-byte CRC.
pub const MAX_USER_DATA_BLOCK: usize = 16;

/// Little-endian 16-bit value of two bytes.
pub open spec fn le_u16(lo: u8, hi: u8) -> u16 {
    (lo as int + 256 * (hi as int)) as u16
}

/// Number of user-data blocks needed for `n` bytes of user data.
pub open spec fn block_count(n: int) -> int {
    (n + 15) / 16
}

/// Total bytes of a frame whose length byte is `link_len` (at least 5): the
/// header, the user data (`link_len - 5` bytes) and one CRC per block.
pub open spec fn frame_size(link_len: u8) -> int {
    HEADER_LEN + (link_len - 5) + 2 * block_count(link_len - 5)
}

/// `data` starts with a complete link frame: both sync bytes, a length byte
/// of at least 5 (the header fields it covers), and every byte that length
/// announces.
pub open spec fn is_link_frame(data: Seq<u8>) -> bool {
    &&& data.len() >= HEADER_LEN
    &&& data[0] == START1
    &&& data[1] == START2
    &&& data[2] >= 5
    &&& frame_size(data[2]) <= data.len()
}

/// The user-data blocks of `n` bytes of user data laid out in `raw`, where
/// every block of up to 16 bytes is followed by its 2-byte CRC; the CRCs
/// are left out.
pub open spec fn user_data_blocks(raw: Seq<u8>, n: nat) -> Seq<Seq<u8>>
    decreases n,
{
    if n == 0 {
        Seq::empty()
    } else {
        let k: nat = if n < 16 { n } else { 16 };
        seq![raw.take(k as int)] + user_data_blocks(raw.skip(k + 2int), (n - k) as nat)
    }
}

/// What a link frame holds, as plain values: the header fields, the bytes
/// after the header (user-data blocks with their CRCs), the number of
/// user-data bytes and the total bytes the frame took from the input.
pub struct LinkFrameModel {
    pub control: u8,
    pub dest: u16,
    pub src: u16,
    pub payload: Seq<u8>,
    pub user_data_len: nat,
    pub consumed: nat,
}

impl LinkFrameModel {
    /// The payload is exactly as long as the user data and its block CRCs,
    /// and the frame consumed the header and that payload.
    pub open spec fn wf(self) -> bool {
        &&& self.user_data_len <= 250
        &&& self.payload.len() == self.user_data_len + 2 * block_count(self.user_data_len as int)
        &&& self.consumed == HEADER_LEN + self.payload.len()
    }

    /// The frame's user-data blocks, CRCs left out, in order.
    pub open spec fn blocks(self) -> Seq<Seq<u8>> {
        user_data_blocks(self.payload, self.user_data_len)
    }
}

/// The link frame that `data` starts with, if it starts with one.
pub open spec fn spec_link_frame(data: Seq<u8>) -> Option<LinkFrameModel> {
    if is_link_frame(data) {
        Some(
            LinkFrameModel {
                control: data[3],
                dest: le_u16(data[4], data[5]),
                src: le_u16(data[6], data[7]),
                payload: data.subrange(HEADER_LEN as int, frame_size(data[2])),
                user_data_len: (data[2] - 5) as nat,
                consumed: frame_size(data[2]) as nat,
            },
        )
    } else {
        None
    }
}

/// A DNP3 link-layer frame, borrowing its user data from the input.
#[derive(Debug, Clone)]
pub struct LinkFrame<'a> {
    pub control: u8,
    pub dest: u16,
    pub src: u16,
    /// The part of the input covering the user-data blocks and their CRCs.
    raw_payload: &'a [u8],
    /// Logical user-data length, excluding block CRCs.
    user_data_len: usize,
    /// Total bytes this frame consumed from the input, so callers can
    /// advance past it.
    pub consumed: usize,
}

impl<'a> View for LinkFrame<'a> {
    type V = LinkFrameModel;

    closed spec fn view(&self) -> LinkFrameModel {
        LinkFrameModel {
            control: self.control,
            dest: self.dest,
            src: self.src,
            payload: self.raw_payload@,
            user_data_len: self.user_data_len as nat,
            consumed: self.consumed as nat,
        }
    }
}

impl<'a> LinkFrame<'a> {
    /// The frame's link control byte.
    pub fn control(&self) -> (control: u8)
        ensures
            control == self@.control,
    {
        self.control
    }

    /// The frame's destination address.
    pub fn dest(&self) -> (dest: u16)
        ensures
            dest == self@.dest,
    {
        self.dest
    }

    /// The frame's source address.
    pub fn src(&self) -> (src: u16)
        ensures
            src == self@.src,
    {
        self.src
    }

    /// Total bytes the frame took from the input.
    pub fn consumed(&self) -> (consumed: usize)
        ensures
            consumed == self@.consumed,
    {
        self.consumed
    }

    proof fn lemma_blocks_step(raw: Seq<u8>, n: nat, offset: int)
        requires
            n > 0,
            0 <= offset,
            offset + n + 2 * block_count(n as int) <= raw.len(),
        ensures
            ({
                let k: nat = if n < 16 { n } else { 16 };
                &&& user_data_blocks(raw.skip(offset), n) == seq![
                    raw.subrange(offset, offset + k),
                ] + user_data_blocks(raw.skip(offset + k + 2), (n - k) as nat)
                &&& offset + k + 2 + (n - k) + 2 * block_count(n - k) <= raw.len()
            }),
    {
        let k: nat = if n < 16 { n } else { 16 };
        assert(raw.skip(offset).take(k as int) =~= raw.subrange(offset, offset + k));
        assert(raw.skip(offset).skip(k + 2int) =~= raw.skip(offset + k + 2));
    }

    /// Each up-to-16-byte user-data block, in order, with its trailing
    /// 2-byte CRC left out, borrowed from the input without copying.
    pub fn user_data_chunks(&self) -> (chunks: Vec<&'a [u8]>)
        requires
            self@.wf(),
        ensures
            chunks@.map_values(|c: &[u8]| c@) == self@.blocks(),
    {
        let mut remaining = self.user_data_len;
        let mut offset: usize = 0;
        let payload = self.raw_payload;
        let mut chunks: Vec<&'a [u8]> = Vec::new();
        assert(payload@.skip(0) =~= payload@);
        while remaining > 0
            invariant
                self@.wf(),
                payload@ == self@.payload,
                offset + remaining + 2 * block_count(remaining as int) == payload@.len(),
                self@.blocks() == chunks@.map_values(|c: &[u8]| c@) + user_data_blocks(
                    payload@.skip(offset as int),
                    remaining as nat,
                ),
            decreases remaining,
        {
            let chunk_len = if remaining < MAX_USER_DATA_BLOCK {
                remaining
            } else {
                MAX_USER_DATA_BLOCK
            };
            proof {
                Self::lemma_blocks_step(payload@, remaining as nat, offset as int);
            }
            let chunk = slice_subrange(payload, offset, offset + chunk_len);
            let ghost before = chunks@.map_values(|c: &[u8]| c@);
            chunks.push(chunk);
            assert(chunks@.map_values(|c: &[u8]| c@) =~= before.push(chunk@));
            assert(before.push(chunk@) + user_data_blocks(
                payload@.skip(offset + chunk_len + 2),
                (remaining - chunk_len) as nat,
            ) =~= before + (seq![chunk@] + user_data_blocks(
                payload@.skip(offset + chunk_len + 2),
                (remaining - chunk_len) as nat,
            )));
            offset = offset + chunk_len + 2;
            remaining = remaining - chunk_len;
        }
        assert(user_data_blocks(payload@.skip(offset as int), 0) =~= Seq::<Seq<u8>>::empty());
        assert(chunks@.map_values(|c: &[u8]| c@) + Seq::<Seq<u8>>::empty() =~= chunks@.map_values(
            |c: &[u8]| c@,
        ));
        chunks
    }

    /// The first user-data block, if the frame carries any user data.
    pub fn first_user_data_chunk(&self) -> (chunk: Option<&'a [u8]>)
        requires
            self@.wf(),
        ensures
            self@.blocks().len() == 0 ==> chunk is None,
            self@.blocks().len() > 0 ==> (chunk matches Some(c) && c@ == self@.blocks()[0]),
    {
        if self.user_data_len == 0 {
            return None;
        }
        let chunk_len = if self.user_data_len < MAX_USER_DATA_BLOCK {
            self.user_data_len
        } else {
            MAX_USER_DATA_BLOCK
        };
        proof {
            Self::lemma_blocks_step(self@.payload, self@.user_data_len, 0);
            assert(self@.payload.skip(0) =~= self@.payload);
        }
        Some(slice_subrange(self.raw_payload, 0, chunk_len))
    }
}

/// Parses a single DNP3 link-layer frame starting at a `0x05 0x64` sync
/// pattern.
///
/// Returns `None` if `data` doesn't start with the sync bytes or is too
/// short to contain a complete frame (e.g. a TCP segment boundary split a
/// frame). Neither the header CRC nor the block CRCs are checked.
///
/// User-data blocks stay in place (see `LinkFrame::user_data_chunks`): DNP3
/// interleaves a 2-byte CRC every 16 bytes of user data, so there is no
/// single contiguous slice to hand back. The frame's total length follows
/// from the header's length byte alone.
pub fn parse_link_frame(data: &[u8]) -> (frame: Option<LinkFrame<'_>>)
    ensures
        frame is Some <==> is_link_frame(data@),
        frame matches Some(f) ==> f@.wf() && Some(f@) == spec_link_frame(data@),
{
    if data.len() < HEADER_LEN || data[0] != START1 || data[1] != START2 {
        return None;
    }
    let link_len = data[2] as usize;
    if link_len < 5 {
        return None;
    }
    let user_data_len = link_len - 5;

    let control = data[3];
    let dest = data[4] as u16 + (data[5] as u16) * 256;
    let src = data[6] as u16 + (data[7] as u16) * 256;
    // data[8..10] is the header CRC; not validated.

    let block_count = (user_data_len + 15) / MAX_USER_DATA_BLOCK;
    let payload_len = user_data_len + block_count * 2;
    let consumed = HEADER_LEN + payload_len;
    if data.len() < consumed {
        return None;
    }

    Some(
        LinkFrame {
            control,
            dest,
            src,
            raw_payload: slice_subrange(data, HEADER_LEN, consumed),
            user_data_len,
            consumed,
        },
    )
}

/// The header CRC (bytes 8 and 9) is not checked: whatever those two bytes
/// hold, the same frame is read.
pub proof fn lemma_header_crc_not_checked(data: Seq<u8>, crc_lo: u8, crc_hi: u8)
    requires
        data.len() >= HEADER_LEN,
    ensures
        spec_link_frame(data.update(8, crc_lo).update(9, crc_hi)) == spec_link_frame(data),
{
    let other = data.update(8, crc_lo).update(9, crc_hi);
    if is_link_frame(data) {
        assert(other.subrange(HEADER_LEN as int, frame_size(data[2])) =~= data.subrange(
            HEADER_LEN as int,
            frame_size(data[2]),
        ));
    }
}

/// Position `p` of a frame's payload (the bytes after the header) holds
/// user data rather than a block CRC, for `n` bytes of user data.
pub open spec fn user_data_position(n: nat, p: int) -> bool
    decreases n,
{
    if n == 0 || p < 0 {
        false
    } else {
        let k: nat = if n < 16 { n } else { 16 };
        if p < k {
            true
        } else if p < k + 2 {
            false
        } else {
            user_data_position((n - k) as nat, p - k - 2)
        }
    }
}

proof fn lemma_blocks_ignore_crcs(raw1: Seq<u8>, raw2: Seq<u8>, n: nat)
    requires
        raw1.len() == raw2.len(),
        n + 2 * block_count(n as int) <= raw1.len(),
        forall|p: int| 0 <= p < raw1.len() && user_data_position(n, p) ==> raw1[p] == raw2[p],
    ensures
        user_data_blocks(raw1, n) == user_data_blocks(raw2, n),
    decreases n,
{
    if n > 0 {
        let k: nat = if n < 16 { n } else { 16 };
        assert forall|p: int| 0 <= p < k implies raw1[p] == raw2[p] by {
            assert(user_data_position(n, p));
        }
        assert(raw1.take(k as int) =~= raw2.take(k as int));
        let rest1 = raw1.skip(k + 2int);
        let rest2 = raw2.skip(k + 2int);
        assert forall|p: int|
            0 <= p < rest1.len() && user_data_position((n - k) as nat, p) implies rest1[p]
            == rest2[p] by {
            assert(user_data_position(n, p + k + 2));
        }
        lemma_blocks_ignore_crcs(rest1, rest2, (n - k) as nat);
    }
}

/// The block CRCs are not checked either: a frame that differs from
/// another only in its header CRC and its block CRCs is read as the same
/// frame, with the same user-data blocks.
pub proof fn lemma_block_crcs_not_checked(data1: Seq<u8>, data2: Seq<u8>)
    requires
        is_link_frame(data1),
        data2.len() == data1.len(),
        forall|i: int| 0 <= i < 8 ==> data1[i] == data2[i],
        forall|p: int|
            0 <= p < data1.len() - HEADER_LEN && #[trigger] user_data_position((data1[2] - 5) as nat, p)
                ==> data1[HEADER_LEN + p] == data2[HEADER_LEN + p],
    ensures
        spec_link_frame(data2) matches Some(f2) && {
            let f1 = spec_link_frame(data1).unwrap();
            &&& f2.control == f1.control
            &&& f2.dest == f1.dest
            &&& f2.src == f1.src
            &&& f2.user_data_len == f1.user_data_len
            &&& f2.consumed == f1.consumed
            &&& f2.blocks() == f1.blocks()
        },
{
    let n = (data1[2] - 5) as nat;
    let end = frame_size(data1[2]);
    let p1 = data1.subrange(HEADER_LEN as int, end);
    let p2 = data2.subrange(HEADER_LEN as int, end);
    assert forall|p: int| 0 <= p < p1.len() && user_data_position(n, p) implies p1[p] == p2[p] by {}
    lemma_blocks_ignore_crcs(p1, p2, n);
}

/// A frame is read from its header as the DNP3 link layer lays it out:
/// control byte 3, destination bytes 4-5 and source bytes 6-7 (both least
/// significant byte first), `length - 5` bytes of user data, and a frame
/// size of the header, the user data and a 2-byte CRC per started 16-byte
/// block.
pub proof fn lemma_link_frame_layout(data: Seq<u8>)
    ensures
        spec_link_frame(data) is Some <==> data.len() >= 10 && data[0] == 0x05 && data[1] == 0x64
            && data[2] >= 5 && data.len() >= 10 + (data[2] - 5) + 2 * ((data[2] - 5 + 15) / 16),
        spec_link_frame(data) matches Some(f) ==> {
            &&& f.control == data[3]
            &&& f.dest as int == data[4] + 256 * data[5]
            &&& f.src as int == data[6] + 256 * data[7]
            &&& f.user_data_len == data[2] - 5
            &&& f.consumed == 10 + (data[2] - 5) + 2 * ((data[2] - 5 + 15) / 16)
            &&& f.payload == data.subrange(10, f.consumed as int)
        },
{
}

/// Block `i` of `n` bytes of user data starts 18 bytes (16 of data, 2 of
/// CRC) after block `i - 1` and holds 16 bytes, or what is left for the
/// last one; there are as many blocks as started 16-byte blocks.
pub proof fn lemma_user_data_blocks_layout(raw: Seq<u8>, n: nat)
    requires
        n + 2 * block_count(n as int) <= raw.len(),
    ensures
        user_data_blocks(raw, n).len() == block_count(n as int),
        forall|i: int|
            0 <= i < block_count(n as int) ==> #[trigger] user_data_blocks(raw, n)[i]
                == raw.subrange(18 * i, 18 * i + if n - 16 * i < 16 { n - 16 * i } else { 16 }),
    decreases n,
{
    if n > 0 {
        let k: nat = if n < 16 { n } else { 16 };
        let rest = raw.skip(k + 2int);
        lemma_user_data_blocks_layout(rest, (n - k) as nat);
        let blocks = user_data_blocks(raw, n);
        assert forall|i: int| 0 <= i < block_count(n as int) implies #[trigger] blocks[i]
            == raw.subrange(18 * i, 18 * i + if n - 16 * i < 16 { n - 16 * i } else { 16 }) by {
            if i == 0 {
                assert(raw.take(k as int) =~= raw.subrange(0, k as int));
            } else {
                assert(blocks[i] == user_data_blocks(rest, (n - k) as nat)[i - 1]);
                assert(n >= 16);
                let len = if n - 16 * i < 16 { n - 16 * i } else { 16 };
                assert(rest.subrange(18 * (i - 1), 18 * (i - 1) + len) =~= raw.subrange(
                    18 * i,
                    18 * i + len,
                ));
            }
        }
    }
}

} // verus!
