use vstd::prelude::*;

use etherparse::NetHeaders::{Arp, Ipv4, Ipv6};
use etherparse::PacketHeaders;
use etherparse::TransportHeader::{Tcp, Udp};

verus! {

/// An IP address as the bytes that carry it, IPv4 or IPv6.
#[derive(Debug, Clone, Copy, PartialEq, Eq, Hash)]
pub enum IpAddress {
    V4([u8; 4]),
    V6([u8; 16]),
}

/// The TCP/UDP flow a packet travelled on.
#[derive(Debug, Clone, Copy, PartialEq, Eq, Hash)]
pub struct Flow {
    pub src_ip: IpAddress,
    pub src_port: u16,
    pub dst_ip: IpAddress,
    pub dst_port: u16,
}

/// A TCP or UDP packet of a capture that carries a non-empty payload.
pub struct Packet {
    pub ts_sec: u32,
    pub flow: Flow,
    pub payload: Vec<u8>,
}

/// A packet as plain values.
pub struct PacketView {
    pub ts_sec: u32,
    pub flow: Flow,
    pub payload: Seq<u8>,
}

impl View for Packet {
    type V = PacketView;

    open spec fn view(&self) -> PacketView {
        PacketView { ts_sec: self.ts_sec, flow: self.flow, payload: self.payload@ }
    }
}

/// Why a capture could not be read.
#[derive(Debug)]
pub enum Error {
    Io(std::io::Error),
    Pcap(String),
}

/// Makes `std::io::Error` known to the verifier as an opaque type, so that
/// an I/O error can be carried in `Error::Io`; nothing is claimed of it.
#[verifier::external_type_specification]
#[verifier::external_body]
pub struct ExIoError(std::io::Error);

impl From<std::io::Error> for Error {
    fn from(e: std::io::Error) -> (err: Self) {
        Error::Io(e)
    }
}

impl vstd::std_specs::convert::FromSpecImpl<std::io::Error> for Error {
    open spec fn obeys_from_spec() -> bool {
        true
    }

    open spec fn from_spec(e: std::io::Error) -> Self {
        Error::Io(e)
    }
}

impl Error {
    /// The error as one line of text: `io error: ` followed by the I/O
    /// error's own text (its `Display`, whose wording comes from the
    /// system), or `pcap parse error: ` followed by the reader's
    /// description of what it could not parse.
    pub fn describe(&self) -> (text: String)
        ensures
            self matches Error::Pcap(msg) ==> text@ == "pcap parse error: "@ + msg@,
            self matches Error::Io(e) ==> exists|detail: String|
                vstd::string::to_string_from_display_ensures::<std::io::Error>(&e, detail)
                    && text@ == "io error: "@ + detail@,
    {
        match self {
            Error::Io(e) => {
                let detail = e.to_string();
                String::from_str("io error: ").concat(detail.as_str())
            },
            Error::Pcap(msg) => String::from_str("pcap parse error: ").concat(msg.as_str()),
        }
    }
}

/// The network layer that etherparse found under the Ethernet header.
#[derive(Debug, Clone, Copy, PartialEq, Eq)]
pub enum NetLayer {
    /// Source and destination addresses.
    Ipv4([u8; 4], [u8; 4]),
    /// Source and destination addresses.
    Ipv6([u8; 16], [u8; 16]),
    Arp,
}

/// The transport layer that etherparse found above the network layer;
/// ICMPv4, ICMPv6 and IGMP are all `Other`.
#[derive(Debug, Clone, Copy, PartialEq, Eq)]
pub enum TransportLayer {
    /// Source and destination ports.
    Tcp(u16, u16),
    /// Source and destination ports.
    Udp(u16, u16),
    Other,
}

/// The headers of an Ethernet II frame that the packet decoding reads, and
/// the payload of its last decoded layer.
pub struct FrameHeaders {
    pub net: Option<NetLayer>,
    pub transport: Option<TransportLayer>,
    pub payload: Vec<u8>,
}

impl View for FrameHeaders {
    type V = (Option<NetLayer>, Option<TransportLayer>, Seq<u8>);

    open spec fn view(&self) -> Self::V {
        (self.net, self.transport, self.payload@)
    }
}

/// What `etherparse::PacketHeaders::from_ethernet_slice` decodes from an
/// Ethernet II frame (network layer, transport layer, payload of the last
/// layer decoded), or `None` where it reports an error.
pub uninterp spec fn ethernet_headers(data: Seq<u8>) -> Option<
    (Option<NetLayer>, Option<TransportLayer>, Seq<u8>),
>;

/// Decodes an Ethernet II frame with `etherparse::PacketHeaders::from_ethernet_slice`.
/// Trusted: the result is taken to be `ethernet_headers(data@)`, i.e. a
/// function of the frame's bytes alone; nothing more is claimed of
/// etherparse's decoding.
#[verifier::external_body]
fn read_ethernet_headers(data: &[u8]) -> (headers: Option<FrameHeaders>)
    ensures
        headers matches Some(h) ==> ethernet_headers(data@) == Some(h@),
        headers is None ==> ethernet_headers(data@) is None,
{
    let h = PacketHeaders::from_ethernet_slice(data).ok()?;
    let net = match h.net {
        None => None,
        Some(Ipv4(ip, _)) => Some(NetLayer::Ipv4(ip.source, ip.destination)),
        Some(Ipv6(ip, _)) => Some(NetLayer::Ipv6(ip.source, ip.destination)),
        Some(Arp(_)) => Some(NetLayer::Arp),
    };
    let transport = match h.transport {
        None => None,
        Some(Tcp(t)) => Some(TransportLayer::Tcp(t.source_port, t.destination_port)),
        Some(Udp(u)) => Some(TransportLayer::Udp(u.source_port, u.destination_port)),
        Some(_) => Some(TransportLayer::Other),
    };
    Some(FrameHeaders { net, transport, payload: h.payload.slice().to_vec() })
}

/// The packet that decoded headers make: kept only for IPv4/IPv6 with a TCP
/// or UDP transport layer and a non-empty payload.
pub open spec fn spec_packet_from_headers(
    ts_sec: u32,
    headers: Option<(Option<NetLayer>, Option<TransportLayer>, Seq<u8>)>,
) -> Option<PacketView> {
    match headers {
        None => None,
        Some((net, transport, payload)) => {
            let ips = match net {
                Some(NetLayer::Ipv4(source, destination)) => Some(
                    (IpAddress::V4(source), IpAddress::V4(destination)),
                ),
                Some(NetLayer::Ipv6(source, destination)) => Some(
                    (IpAddress::V6(source), IpAddress::V6(destination)),
                ),
                _ => None,
            };
            let ports = match transport {
                Some(TransportLayer::Tcp(source_port, destination_port)) => Some(
                    (source_port, destination_port),
                ),
                Some(TransportLayer::Udp(source_port, destination_port)) => Some(
                    (source_port, destination_port),
                ),
                _ => None,
            };
            if ips is None || ports is None || payload.len() == 0 {
                None
            } else {
                Some(
                    PacketView {
                        ts_sec,
                        flow: Flow {
                            src_ip: ips.unwrap().0,
                            src_port: ports.unwrap().0,
                            dst_ip: ips.unwrap().1,
                            dst_port: ports.unwrap().1,
                        },
                        payload,
                    },
                )
            }
        },
    }
}

/// The packet of a captured Ethernet frame, per `spec_packet_from_headers`.
pub open spec fn spec_decode_ethernet_packet(ts_sec: u32, data: Seq<u8>) -> Option<PacketView> {
    spec_packet_from_headers(ts_sec, ethernet_headers(data))
}

/// Builds the packet that decoded Ethernet frame headers describe. Non-IP
/// frames (ARP), IP frames without a TCP/UDP transport layer, and frames
/// with an empty payload give `None`.
pub fn packet_from_headers(ts_sec: u32, headers: Option<FrameHeaders>) -> (packet: Option<Packet>)
    ensures
        packet matches Some(p) ==> spec_packet_from_headers(
            ts_sec,
            match headers { Some(h) => Some(h@), None => None },
        ) == Some(p@),
        packet is None ==> spec_packet_from_headers(
            ts_sec,
            match headers { Some(h) => Some(h@), None => None },
        ) is None,
{
    let headers = match headers {
        Some(h) => h,
        None => return None,
    };
    let (src_ip, dst_ip) = match headers.net {
        Some(NetLayer::Ipv4(source, destination)) => (IpAddress::V4(source), IpAddress::V4(destination)),
        Some(NetLayer::Ipv6(source, destination)) => (IpAddress::V6(source), IpAddress::V6(destination)),
        _ => return None,
    };
    let (src_port, dst_port) = match headers.transport {
        Some(TransportLayer::Tcp(source_port, destination_port)) => (source_port, destination_port),
        Some(TransportLayer::Udp(source_port, destination_port)) => (source_port, destination_port),
        _ => return None,
    };
    if headers.payload.len() == 0 {
        return None;
    }
    Some(
        Packet {
            ts_sec,
            flow: Flow { src_ip, src_port, dst_ip, dst_port },
            payload: headers.payload,
        },
    )
}

/// Decodes one captured Ethernet II frame into a packet: the IP addresses
/// and TCP/UDP ports of its flow and its transport payload. Frames that are
/// not IPv4/IPv6, carry no TCP/UDP transport layer or an empty payload, or
/// fail to decode, give `None`.
pub fn decode_ethernet_packet(ts_sec: u32, data: &[u8]) -> (packet: Option<Packet>)
    ensures
        packet matches Some(p) ==> spec_decode_ethernet_packet(ts_sec, data@) == Some(p@),
        packet is None ==> spec_decode_ethernet_packet(ts_sec, data@) is None,
{
    packet_from_headers(ts_sec, read_ethernet_headers(data))
}

/// What reading the next block of a legacy pcap stream gave.
pub enum ReaderEvent {
    /// A legacy packet block: its capture timestamp (seconds) and the
    /// captured frame bytes. The block has been consumed.
    Block { ts_sec: u32, data: Vec<u8> },
    /// A block that is not a packet (e.g. the file header). It has been
    /// consumed.
    OtherBlock,
    /// The buffered bytes end in the middle of a block.
    Incomplete,
    /// The buffer was refilled after `Incomplete`.
    Refilled,
    /// The stream has ended.
    Eof,
    /// Reading, or refilling, failed; the reader's description of why.
    Failed(String),
}

/// What a pcap stream reader does next.
pub enum CursorStep {
    /// Read the next block.
    Continue,
    /// Refill the reader's buffer, then read on.
    Refill,
    /// Hand this packet out.
    Emit(Packet),
    /// The stream is over: hand out nothing more.
    Finished,
    /// Hand this error out; the stream is over.
    Fail(Error),
}

/// The decisions of a packet stream over a legacy pcap capture: which
/// blocks become packets, when to refill, and when the stream is over.
/// Once it has ended (at end of file or after an error) it stays ended, so
/// a caller that keeps polling cannot spin on a broken stream.
pub struct PcapCursor {
    done: bool,
}

impl View for PcapCursor {
    type V = bool;

    /// Whether the stream has ended.
    closed spec fn view(&self) -> bool {
        self.done
    }
}

impl PcapCursor {
    /// A cursor at the start of a stream.
    pub fn new() -> (cursor: Self)
        ensures
            !cursor@,
    {
        PcapCursor { done: false }
    }

    /// Whether the stream has ended.
    pub fn is_done(&self) -> (done: bool)
        ensures
            done == self@,
    {
        self.done
    }

    /// Decides what a read gave: a packet block becomes the packet it
    /// decodes to (or is skipped when it decodes to none), other blocks are
    /// skipped, a short buffer is refilled, end of file ends the stream and
    /// a read failure is handed out as a pcap error that ends it.
    pub fn step(&mut self, event: ReaderEvent) -> (step: CursorStep)
        ensures
            final(self)@ == (old(self)@ || event is Eof || event is Failed),
            old(self)@ ==> step is Finished,
            !old(self)@ ==> match event {
                ReaderEvent::Block { ts_sec, data } => match spec_decode_ethernet_packet(
                    ts_sec,
                    data@,
                ) {
                    Some(p) => step matches CursorStep::Emit(q) && q@ == p,
                    None => step is Continue,
                },
                ReaderEvent::OtherBlock => step is Continue,
                ReaderEvent::Incomplete => step is Refill,
                ReaderEvent::Refilled => step is Continue,
                ReaderEvent::Eof => step is Finished,
                ReaderEvent::Failed(msg) => step matches CursorStep::Fail(Error::Pcap(m))
                    && m@ == msg@,
            },
    {
        if self.done {
            return CursorStep::Finished;
        }
        match event {
            ReaderEvent::Block { ts_sec, data } => match decode_ethernet_packet(ts_sec, &data) {
                Some(packet) => CursorStep::Emit(packet),
                None => CursorStep::Continue,
            },
            ReaderEvent::OtherBlock => CursorStep::Continue,
            ReaderEvent::Incomplete => CursorStep::Refill,
            ReaderEvent::Refilled => CursorStep::Continue,
            ReaderEvent::Eof => {
                self.done = true;
                CursorStep::Finished
            },
            ReaderEvent::Failed(msg) => {
                self.done = true;
                CursorStep::Fail(Error::Pcap(msg))
            },
        }
    }
}

/// A decoded IPv4/IPv6 frame with a TCP or UDP layer and a non-empty payload
/// gives the packet of that flow: source and destination address from the
/// IP header, source and destination port from the TCP/UDP header, in that
/// order, and the payload unchanged. ARP, a missing or non-TCP/UDP
/// transport layer, an empty payload, or a failed decoding give no packet.
pub proof fn lemma_packet_keeps_addresses_ports_and_payload(
    ts_sec: u32,
    net: Option<NetLayer>,
    transport: Option<TransportLayer>,
    payload: Seq<u8>,
)
    ensures
        spec_packet_from_headers(ts_sec, None) is None,
        (net is None || net == Some(NetLayer::Arp) || transport is None || transport == Some(
            TransportLayer::Other,
        ) || payload.len() == 0) ==> spec_packet_from_headers(
            ts_sec,
            Some((net, transport, payload)),
        ) is None,
        ({
            let p = spec_packet_from_headers(ts_sec, Some((net, transport, payload)));
            &&& net matches Some(NetLayer::Ipv4(s, d)) ==> (p is Some ==> p.unwrap().flow.src_ip
                == IpAddress::V4(s) && p.unwrap().flow.dst_ip == IpAddress::V4(d))
            &&& net matches Some(NetLayer::Ipv6(s, d)) ==> (p is Some ==> p.unwrap().flow.src_ip
                == IpAddress::V6(s) && p.unwrap().flow.dst_ip == IpAddress::V6(d))
            &&& transport matches Some(TransportLayer::Tcp(s, d)) ==> (p is Some
                ==> p.unwrap().flow.src_port == s && p.unwrap().flow.dst_port == d)
            &&& transport matches Some(TransportLayer::Udp(s, d)) ==> (p is Some
                ==> p.unwrap().flow.src_port == s && p.unwrap().flow.dst_port == d)
            &&& p is Some ==> p.unwrap().payload == payload && p.unwrap().ts_sec == ts_sec
            &&& (net matches Some(NetLayer::Ipv4(_, _)) || net matches Some(NetLayer::Ipv6(_, _)))
                && (transport matches Some(TransportLayer::Tcp(_, _)) || transport matches Some(
                TransportLayer::Udp(_, _),
            )) && payload.len() > 0 ==> p is Some
        }),
{
}

} // verus!
