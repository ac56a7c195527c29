//! Deep-packet inspection of DNP3 (SCADA/ICS) traffic: decoding captured
//! packets down to DNP3 link, transport and application headers, and
//! flagging dangerous function codes and select-before-operate violations.

pub mod color;
pub mod detections;
pub mod dnp3;
pub mod pcap;
pub mod report;
pub mod text;

use vstd::prelude::*;

use detections::{Finding, FindingView, SelectBeforeOperateTracker};
use dnp3::Dnp3Message;
use pcap::{Flow, Packet, PacketView};

verus! {

/// A single DNP3 message observed in the capture, timestamped and tied to
/// the TCP/UDP flow it arrived on. This is the event stream a UI would
/// animate — every message, not just the ones that triggered a finding.
#[derive(Debug, Clone, Copy)]
pub struct MessageEvent {
    pub ts_sec: u32,
    pub flow: Flow,
    pub message: Dnp3Message,
}

/// What analysing one capture found.
#[derive(Debug, Clone)]
pub struct AnalysisReport {
    pub file: String,
    pub packet_count: usize,
    pub messages: Vec<MessageEvent>,
    pub findings: Vec<Finding>,
}

/// The message events of one packet: each DNP3 message in its payload, in
/// order, with the packet's time and flow.
pub open spec fn packet_events(packet: PacketView) -> Seq<MessageEvent> {
    dnp3::spec_find_dnp3_messages(packet.payload).map_values(
        |m: Dnp3Message| MessageEvent { ts_sec: packet.ts_sec, flow: packet.flow, message: m },
    )
}

/// The message events of a sequence of packets, packet after packet.
pub open spec fn events_of(packets: Seq<PacketView>) -> Seq<MessageEvent>
    decreases packets.len(),
{
    if packets.len() == 0 {
        Seq::empty()
    } else {
        events_of(packets.drop_last()) + packet_events(packets.last())
    }
}

/// What the select-before-operate detection remembers after `events`,
/// starting from `state`.
pub open spec fn tracker_after(state: Map<u32, bool>, events: Seq<MessageEvent>) -> Map<u32, bool>
    decreases events.len(),
{
    if events.len() == 0 {
        state
    } else {
        detections::select_before_operate::select_tracker_next(
            tracker_after(state, events.drop_last()),
            events.last().message,
        )
    }
}

/// The findings for one message event, given what the select-before-operate
/// detection remembers before it: the dangerous-function-code finding (if
/// any) first, then the select-before-operate one (if any).
pub open spec fn event_findings(state: Map<u32, bool>, event: MessageEvent) -> Seq<FindingView> {
    let dangerous = if detections::dangerous_function_code::is_dangerous(event.message.function) {
        seq![
            detections::dangerous_function_code::dangerous_finding(
                event.message,
                event.flow,
                event.ts_sec,
            ),
        ]
    } else {
        Seq::empty()
    };
    let unselected = if detections::select_before_operate::violates_select_before_operate(
        state,
        event.message,
    ) {
        seq![
            detections::select_before_operate::select_finding(
                event.message,
                event.flow,
                event.ts_sec,
            ),
        ]
    } else {
        Seq::empty()
    };
    dangerous + unselected
}

/// Every finding for `events`, in order, both detections running over them
/// from `state`.
pub open spec fn findings_after(state: Map<u32, bool>, events: Seq<MessageEvent>) -> Seq<FindingView>
    decreases events.len(),
{
    if events.len() == 0 {
        Seq::empty()
    } else {
        findings_after(state, events.drop_last()) + event_findings(
            tracker_after(state, events.drop_last()),
            events.last(),
        )
    }
}

/// The findings of both detections over every message of `packets`, with
/// nothing tracked at the start.
pub open spec fn spec_findings(packets: Seq<PacketView>) -> Seq<FindingView> {
    findings_after(Map::empty(), events_of(packets))
}

/// The views of a sequence of findings.
pub open spec fn finding_views(findings: Seq<Finding>) -> Seq<FindingView> {
    findings.map_values(|f: Finding| f@)
}

/// The views of a sequence of packets.
pub open spec fn packet_views(packets: Seq<Packet>) -> Seq<PacketView> {
    packets.map_values(|p: Packet| p@)
}

/// Runs both detections on one message and records what they find.
fn record_message(
    tracker: &mut SelectBeforeOperateTracker,
    findings: &mut Vec<Finding>,
    event: MessageEvent,
)
    ensures
        finding_views(final(findings)@) == finding_views(old(findings)@) + event_findings(
            old(tracker)@,
            event,
        ),
        final(tracker)@ == detections::select_before_operate::select_tracker_next(
            old(tracker)@,
            event.message,
        ),
{
    let ghost start = finding_views(findings@);
    if let Some(finding) = detections::check_dangerous_function_code(
        &event.message,
        event.flow,
        event.ts_sec,
    ) {
        findings.push(finding);
    }
    if let Some(finding) = tracker.check(&event.message, event.flow, event.ts_sec) {
        findings.push(finding);
    }
    assert(finding_views(findings@) =~= start + event_findings(old(tracker)@, event));
}

/// Runs both detections over every DNP3 message of a packet, recording the
/// message events and the findings.
fn record_packet(
    tracker: &mut SelectBeforeOperateTracker,
    findings: &mut Vec<Finding>,
    messages: &mut Vec<MessageEvent>,
    packet: &Packet,
)
    requires
        finding_views(old(findings)@) == findings_after(Map::empty(), old(messages)@),
        old(tracker)@ == tracker_after(Map::empty(), old(messages)@),
    ensures
        final(messages)@ == old(messages)@ + packet_events(packet@),
        finding_views(final(findings)@) == findings_after(
            Map::empty(),
            old(messages)@ + packet_events(packet@),
        ),
        final(tracker)@ == tracker_after(Map::empty(), old(messages)@ + packet_events(packet@)),
{
    let ghost before = messages@;
    let found = dnp3::find_dnp3_messages(&packet.payload);
    let ghost events = packet_events(packet@);
    let mut i: usize = 0;
    assert(before + events.take(0) =~= before);
    while i < found.len()
        invariant
            i <= found.len(),
            found@ == dnp3::spec_find_dnp3_messages(packet.payload@),
            events == packet_events(packet@),
            messages@ == before + events.take(i as int),
            finding_views(findings@) == findings_after(Map::empty(), before + events.take(i as int)),
            tracker@ == tracker_after(Map::empty(), before + events.take(i as int)),
        decreases found.len() - i,
    {
        let event = MessageEvent { ts_sec: packet.ts_sec, flow: packet.flow, message: found[i] };
        assert(event == events[i as int]);
        let ghost so_far = before + events.take(i as int);
        let ghost next = before + events.take(i + 1);
        assert(next =~= so_far.push(event));
        assert(next.drop_last() =~= so_far);
        record_message(tracker, findings, event);
        messages.push(event);
        i = i + 1;
    }
    assert(events.take(i as int) =~= events);
}

/// The findings of both detections over every DNP3 message of `packets`,
/// in capture order; for each message the dangerous-function-code finding
/// comes before the select-before-operate one.
pub fn analyze(packets: &[Packet]) -> (findings: Vec<Finding>)
    ensures
        finding_views(findings@) == spec_findings(packet_views(packets@)),
{
    let mut findings: Vec<Finding> = Vec::new();
    let mut messages: Vec<MessageEvent> = Vec::new();
    let mut tracker = SelectBeforeOperateTracker::default();
    let mut i: usize = 0;
    assert(finding_views(findings@) =~= Seq::<FindingView>::empty());
    while i < packets.len()
        invariant
            i <= packets.len(),
            messages@ == events_of(packet_views(packets@).take(i as int)),
            finding_views(findings@) == findings_after(Map::empty(), messages@),
            tracker@ == tracker_after(Map::empty(), messages@),
        decreases packets.len() - i,
    {
        let ghost seen = packet_views(packets@).take(i as int);
        record_packet(&mut tracker, &mut findings, &mut messages, &packets[i]);
        assert(packet_views(packets@).take(i + 1).drop_last() =~= seen);
        i = i + 1;
    }
    assert(packet_views(packets@).take(i as int) =~= packet_views(packets@));
    findings
}

/// What an analysis has recorded: the capture's name, the packets fed (as
/// ghost values), their count, message events and findings, and what the
/// select-before-operate detection remembers.
struct AnalysisState {
    file: String,
    packet_count: usize,
    messages: Vec<MessageEvent>,
    findings: Vec<Finding>,
    tracker: SelectBeforeOperateTracker,
    packets: Ghost<Seq<PacketView>>,
}

impl AnalysisState {
    /// The recorded events, findings and tracked pairs are those of the
    /// packets fed so far.
    spec fn wf(&self) -> bool {
        &&& self.packet_count == self.packets@.len()
        &&& self.messages@ == events_of(self.packets@)
        &&& finding_views(self.findings@) == spec_findings(self.packets@)
        &&& self.tracker@ == tracker_after(Map::empty(), events_of(self.packets@))
    }

    fn new(file: String) -> (state: Self)
        ensures
            state.wf(),
            state.file@ == file@,
            state.packets@ == Seq::<PacketView>::empty(),
    {
        let state = AnalysisState {
            file,
            packet_count: 0,
            messages: Vec::new(),
            findings: Vec::new(),
            tracker: SelectBeforeOperateTracker::default(),
            packets: Ghost(Seq::empty()),
        };
        assert(finding_views(state.findings@) =~= Seq::<FindingView>::empty());
        state
    }

    fn add_packet(&mut self, packet: &Packet)
        requires
            old(self).wf(),
            old(self).packets@.len() < usize::MAX,
        ensures
            final(self).wf(),
            final(self).file@ == old(self).file@,
            final(self).packets@ == old(self).packets@.push(packet@),
    {
        let ghost before = self.packets@;
        record_packet(&mut self.tracker, &mut self.findings, &mut self.messages, packet);
        self.packet_count = self.packet_count + 1;
        self.packets = Ghost(before.push(packet@));
        assert(self.packets@.drop_last() =~= before);
    }
}

/// The analysis of one capture, fed one packet at a time, so a capture is
/// never held in memory whole: the message events and findings of every
/// packet seen so far.
pub struct PcapAnalysis {
    state: AnalysisState,
}

impl PcapAnalysis {
    /// What is recorded is always that of the packets fed so far.
    #[verifier::type_invariant]
    spec fn inv(&self) -> bool {
        self.state.wf()
    }

    /// The name of the capture.
    pub closed spec fn file_name(&self) -> Seq<char> {
        self.state.file@
    }

    /// The packets fed so far, in order.
    pub closed spec fn packets(&self) -> Seq<PacketView> {
        self.state.packets@
    }

    /// An analysis of the capture named `file`, with no packet fed yet.
    pub fn new(file: String) -> (analysis: Self)
        ensures
            analysis.file_name() == file@,
            analysis.packets() == Seq::<PacketView>::empty(),
    {
        PcapAnalysis { state: AnalysisState::new(file) }
    }

    /// The number of packets fed so far.
    pub fn packet_count(&self) -> (count: usize)
        ensures
            count == self.packets().len(),
    {
        proof {
            use_type_invariant(self);
        }
        self.state.packet_count
    }

    /// Feeds the next packet of the capture: both detections run over each
    /// of its DNP3 messages in order.
    pub fn add_packet(&mut self, packet: &Packet)
        requires
            old(self).packets().len() < usize::MAX,
        ensures
            final(self).file_name() == old(self).file_name(),
            final(self).packets() == old(self).packets().push(packet@),
    {
        proof {
            use_type_invariant(&*self);
        }
        let mut state = AnalysisState::new(String::new());
        std::mem::swap(&mut state, &mut self.state);
        state.add_packet(packet);
        self.state = state;
    }

    /// The report of the packets fed: the capture's name, how many packets
    /// there were, every DNP3 message with its time and flow, and every
    /// finding, in capture order.
    pub fn finish(self) -> (report: AnalysisReport)
        ensures
            report.file@ == self.file_name(),
            report.packet_count == self.packets().len(),
            report.messages@ == events_of(self.packets()),
            finding_views(report.findings@) == spec_findings(self.packets()),
    {
        proof {
            use_type_invariant(&self);
        }
        let state = self.state;
        AnalysisReport {
            file: state.file,
            packet_count: state.packet_count,
            messages: state.messages,
            findings: state.findings,
        }
    }
}

/// Two messages travel between the same DNP3 source and destination.
pub open spec fn same_pair(a: Dnp3Message, b: Dnp3Message) -> bool {
    a.src == b.src && a.dest == b.dest
}

/// Among `events`, the last message of `msg`'s (source, destination) pair
/// exists and is a Select.
pub open spec fn last_of_pair_was_select(events: Seq<MessageEvent>, msg: Dnp3Message) -> bool {
    exists|j: int|
        0 <= j < events.len() && same_pair(#[trigger] events[j].message, msg)
            && events[j].message.function == dnp3::FunctionCode::Select && forall|k: int|
            j < k < events.len() ==> !same_pair(#[trigger] events[k].message, msg)
}

/// After any history of messages, the select-before-operate detection
/// remembers a Select for a pair exactly when that pair's last message was
/// a Select.
pub proof fn lemma_tracker_remembers_last_of_pair(events: Seq<MessageEvent>, msg: Dnp3Message)
    ensures
        detections::select_before_operate::preceded_by_select(
            tracker_after(Map::empty(), events),
            msg,
        ) == last_of_pair_was_select(events, msg),
    decreases events.len(),
{
    if events.len() > 0 {
        let prev = events.drop_last();
        let last = events.last();
        let n = events.len() - 1;
        lemma_tracker_remembers_last_of_pair(prev, msg);
        detections::select_before_operate::lemma_pair_key_injective(last.message, msg);
        assert(events[n] == last);
        assert forall|k: int| 0 <= k < n implies prev[k] == events[k] by {}
        if same_pair(last.message, msg) {
            if last.message.function == dnp3::FunctionCode::Select {
                assert(last_of_pair_was_select(events, msg));
            } else {
                assert(!last_of_pair_was_select(events, msg)) by {
                    if last_of_pair_was_select(events, msg) {
                        let j = choose|j: int|
                            0 <= j < events.len() && same_pair(#[trigger] events[j].message, msg)
                                && events[j].message.function == dnp3::FunctionCode::Select
                                && forall|k: int|
                                j < k < events.len() ==> !same_pair(
                                    #[trigger] events[k].message,
                                    msg,
                                );
                        if j < n {
                            assert(!same_pair(events[n].message, msg));
                        }
                    }
                }
            }
        } else {
            if last_of_pair_was_select(prev, msg) {
                let j = choose|j: int|
                    0 <= j < prev.len() && same_pair(#[trigger] prev[j].message, msg)
                        && prev[j].message.function == dnp3::FunctionCode::Select && forall|k: int|
                        j < k < prev.len() ==> !same_pair(#[trigger] prev[k].message, msg);
                assert(same_pair(events[j].message, msg));
                assert forall|k: int| j < k < events.len() implies !same_pair(
                    #[trigger] events[k].message,
                    msg,
                ) by {
                    if k < n {
                        assert(prev[k] == events[k]);
                    }
                }
                assert(last_of_pair_was_select(events, msg));
            }
            if last_of_pair_was_select(events, msg) {
                let j = choose|j: int|
                    0 <= j < events.len() && same_pair(#[trigger] events[j].message, msg)
                        && events[j].message.function == dnp3::FunctionCode::Select && forall|
                        k: int,
                    |
                        j < k < events.len() ==> !same_pair(#[trigger] events[k].message, msg);
                assert(j < n);
                assert(same_pair(prev[j].message, msg));
                assert forall|k: int| j < k < prev.len() implies !same_pair(
                    #[trigger] prev[k].message,
                    msg,
                ) by {
                    assert(prev[k] == events[k]);
                }
                assert(last_of_pair_was_select(prev, msg));
            }
        }
    }
}

/// Over a whole stream of messages, message `i` is a select-before-operate
/// violation exactly when it is an Operate and the previous message of its
/// (source, destination) pair was not a Select, or there was none.
pub proof fn lemma_select_before_operate_over_history(events: Seq<MessageEvent>, i: int)
    requires
        0 <= i < events.len(),
    ensures
        detections::select_before_operate::violates_select_before_operate(
            tracker_after(Map::empty(), events.take(i)),
            events[i].message,
        ) <==> events[i].message.function == dnp3::FunctionCode::Operate
            && !last_of_pair_was_select(events.take(i), events[i].message),
{
    lemma_tracker_remembers_last_of_pair(events.take(i), events[i].message);
}

/// The message events of a packet are every message `find_dnp3_messages`
/// finds in its payload, in order, each with the packet's time and flow.
pub proof fn lemma_packet_events_are_every_message(packet: PacketView)
    ensures
        packet_events(packet).len() == dnp3::spec_find_dnp3_messages(packet.payload).len(),
        forall|i: int|
            0 <= i < packet_events(packet).len() ==> #[trigger] packet_events(packet)[i]
                == (MessageEvent {
                ts_sec: packet.ts_sec,
                flow: packet.flow,
                message: dnp3::spec_find_dnp3_messages(packet.payload)[i],
            }),
{
}

/// The message events of packets fed one after another are those of the
/// first packets followed by those of the rest; a single packet gives its
/// own events.
pub proof fn lemma_events_of_concat(first: Seq<PacketView>, rest: Seq<PacketView>)
    ensures
        events_of(first + rest) == events_of(first) + events_of(rest),
    decreases rest.len(),
{
    if rest.len() == 0 {
        assert(first + rest =~= first);
        assert(events_of(first) + events_of(rest) =~= events_of(first));
    } else {
        lemma_events_of_concat(first, rest.drop_last());
        assert((first + rest).drop_last() =~= first + rest.drop_last());
        assert((first + rest).last() == rest.last());
        assert(events_of(first) + events_of(rest) =~= events_of(first) + events_of(
            rest.drop_last(),
        ) + packet_events(rest.last()));
    }
}

/// One packet's events.
pub proof fn lemma_events_of_one(packet: PacketView)
    ensures
        events_of(seq![packet]) == packet_events(packet),
{
    let none = Seq::<PacketView>::empty();
    assert(seq![packet].drop_last() =~= none);
    assert(seq![packet].last() == packet);
    assert(events_of(none) == Seq::<MessageEvent>::empty());
    assert(Seq::<MessageEvent>::empty() + packet_events(packet) =~= packet_events(packet));
}

/// Running the detections over two stretches of messages is running them
/// over the first, then over the second from what the first left behind.
pub proof fn lemma_findings_after_concat(
    state: Map<u32, bool>,
    first: Seq<MessageEvent>,
    rest: Seq<MessageEvent>,
)
    ensures
        tracker_after(state, first + rest) == tracker_after(tracker_after(state, first), rest),
        findings_after(state, first + rest) == findings_after(state, first) + findings_after(
            tracker_after(state, first),
            rest,
        ),
    decreases rest.len(),
{
    if rest.len() == 0 {
        assert(first + rest =~= first);
        assert(findings_after(state, first) + Seq::<FindingView>::empty() =~= findings_after(
            state,
            first,
        ));
    } else {
        lemma_findings_after_concat(state, first, rest.drop_last());
        assert((first + rest).drop_last() =~= first + rest.drop_last());
        assert((first + rest).last() == rest.last());
        let mid = tracker_after(state, first);
        assert(findings_after(state, first) + findings_after(mid, rest) =~= findings_after(
            state,
            first,
        ) + findings_after(mid, rest.drop_last()) + event_findings(
            tracker_after(mid, rest.drop_last()),
            rest.last(),
        ));
    }
}

/// The findings for one message: a dangerous-function-code finding exactly
/// when its code is Cold/Warm Restart or Direct Operate (No Ack), then a
/// select-before-operate finding exactly when it is an Operate whose pair's
/// last message was not a Select.
pub proof fn lemma_event_findings(state: Map<u32, bool>, event: MessageEvent)
    ensures
        ({
            let code = event.message.function;
            let dangerous = code is ColdRestart || code is WarmRestart || code is DirectOperate
                || code is DirectOperateNoAck;
            let key = detections::select_before_operate::pair_key(
                event.message.src,
                event.message.dest,
            );
            let unselected = code is Operate && !(state.contains_key(key) && state[key]);
            let found = event_findings(state, event);
            &&& found.len() == (if dangerous { 1int } else { 0 }) + (if unselected { 1int } else { 0 })
            &&& dangerous ==> found[0] == detections::dangerous_function_code::dangerous_finding(
                event.message,
                event.flow,
                event.ts_sec,
            )
            &&& unselected ==> found.last() == detections::select_before_operate::select_finding(
                event.message,
                event.flow,
                event.ts_sec,
            )
        }),
{
}

/// Every message of a stream gets its findings, in place: the findings of
/// the whole stream are those of the messages before it, then its own
/// (given what the detections remember of the messages before it), then
/// those of the messages after it.
pub proof fn lemma_each_message_reported(events: Seq<MessageEvent>, i: int)
    requires
        0 <= i < events.len(),
    ensures
        findings_after(Map::empty(), events) == findings_after(Map::empty(), events.take(i))
            + event_findings(tracker_after(Map::empty(), events.take(i)), events[i])
            + findings_after(tracker_after(Map::empty(), events.take(i + 1)), events.skip(i + 1)),
{
    let empty = Map::<u32, bool>::empty();
    assert(events =~= events.take(i + 1) + events.skip(i + 1));
    lemma_findings_after_concat(empty, events.take(i + 1), events.skip(i + 1));
    assert(events.take(i + 1).drop_last() =~= events.take(i));
    assert(events.take(i + 1).last() == events[i]);
}

/// A message with a dangerous function code anywhere in a capture is
/// reported: its dangerous-function-code finding is among the capture's
/// findings.
pub proof fn lemma_dangerous_message_is_reported(packets: Seq<PacketView>, i: int)
    requires
        0 <= i < events_of(packets).len(),
        detections::dangerous_function_code::is_dangerous(events_of(packets)[i].message.function),
    ensures
        spec_findings(packets).contains(
            detections::dangerous_function_code::dangerous_finding(
                events_of(packets)[i].message,
                events_of(packets)[i].flow,
                events_of(packets)[i].ts_sec,
            ),
        ),
{
    let events = events_of(packets);
    let empty = Map::<u32, bool>::empty();
    lemma_each_message_reported(events, i);
    let before = findings_after(empty, events.take(i));
    let own = event_findings(tracker_after(empty, events.take(i)), events[i]);
    assert(spec_findings(packets)[before.len() as int] == own[0]);
}

} // verus!
