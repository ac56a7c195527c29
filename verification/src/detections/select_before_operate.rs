use std::collections::HashMap;

use vstd::prelude::*;
use vstd::string::StringExecFns;

use super::{Finding, FindingView};
use crate::dnp3::{Dnp3Message, FunctionCode};
use crate::pcap::Flow;
use crate::text::push_decimal;

verus! {

broadcast use vstd::std_specs::hash::group_hash_axioms;

/// The rule name of this detection.
pub const SELECT_BEFORE_OPERATE_VIOLATION: &'static str = "select-before-operate-violation";

/// The key under which a (DNP3 source, DNP3 destination) pair is tracked.
pub open spec fn pair_key(src: u16, dest: u16) -> u32 {
    (src as int * 65536 + dest as int) as u32
}

/// Whether, in the tracked state, the last message of `msg`'s pair was a
/// Select.
pub open spec fn preceded_by_select(state: Map<u32, bool>, msg: Dnp3Message) -> bool {
    let key = pair_key(msg.src, msg.dest);
    state.contains_key(key) && state[key]
}

/// An Operate that the last message of the same pair did not select for.
pub open spec fn violates_select_before_operate(state: Map<u32, bool>, msg: Dnp3Message) -> bool {
    msg.function == FunctionCode::Operate && !preceded_by_select(state, msg)
}

/// The tracked state after `msg`: its pair now remembers whether `msg` was
/// a Select; every other pair is unchanged.
pub open spec fn select_tracker_next(state: Map<u32, bool>, msg: Dnp3Message) -> Map<u32, bool> {
    state.insert(pair_key(msg.src, msg.dest), msg.function == FunctionCode::Select)
}

/// The finding for an Operate without a preceding Select.
pub open spec fn select_finding(msg: Dnp3Message, flow: Flow, ts_sec: u32) -> FindingView {
    FindingView {
        rule: SELECT_BEFORE_OPERATE_VIOLATION@,
        message: "Operate (dnp3 dest="@ + crate::text::decimal(msg.dest as nat) + ", src="@ + crate::text::decimal(
            msg.src as nat,
        ) + ") not immediately preceded by a Select from the same pair"@,
        ts_sec,
        flow,
    }
}

/// Tracks, per (dnp3_src, dnp3_dest) pair, whether the most recent message
/// was a Select — so an Operate can be checked against the
/// select-before-operate safety pattern real utility control systems rely
/// on. Direct Operate is intentionally not checked here: it bypasses select
/// by design and is already covered by the dangerous-function-code
/// detection.
pub struct SelectBeforeOperateTracker {
    last_was_select: HashMap<u32, bool>,
}

impl View for SelectBeforeOperateTracker {
    type V = Map<u32, bool>;

    closed spec fn view(&self) -> Map<u32, bool> {
        self.last_was_select@
    }
}

impl Default for SelectBeforeOperateTracker {
    fn default() -> (tracker: Self)
        ensures
            tracker@ == Map::<u32, bool>::empty(),
    {
        SelectBeforeOperateTracker { last_was_select: HashMap::new() }
    }
}

impl SelectBeforeOperateTracker {
    /// Checks `msg` against the select-before-operate pattern and records
    /// it: an Operate is flagged unless the previous message of the same
    /// (source, destination) pair was a Select.
    pub fn check(&mut self, msg: &Dnp3Message, flow: Flow, ts_sec: u32) -> (finding: Option<Finding>)
        ensures
            finding is Some <==> violates_select_before_operate(old(self)@, *msg),
            finding matches Some(f) ==> f@ == select_finding(*msg, flow, ts_sec),
            final(self)@ == select_tracker_next(old(self)@, *msg),
    {
        let key = (msg.src as u32) * 65536 + msg.dest as u32;
        let preceded_by_select = match self.last_was_select.get(&key) {
            Some(was_select) => *was_select,
            None => false,
        };
        let is_operate = match msg.function {
            FunctionCode::Operate => true,
            _ => false,
        };
        let is_select = match msg.function {
            FunctionCode::Select => true,
            _ => false,
        };
        let finding = if is_operate && !preceded_by_select {
            let mut message = String::from_str("Operate (dnp3 dest=");
            push_decimal(&mut message, msg.dest as u64);
            message.append(", src=");
            push_decimal(&mut message, msg.src as u64);
            message.append(") not immediately preceded by a Select from the same pair");
            assert(message@ =~= select_finding(*msg, flow, ts_sec).message);
            Some(Finding { rule: SELECT_BEFORE_OPERATE_VIOLATION, message, ts_sec, flow })
        } else {
            None
        };
        self.last_was_select.insert(key, is_select);
        finding
    }
}

/// Different (source, destination) pairs are tracked under different keys.
pub proof fn lemma_pair_key_injective(a: Dnp3Message, b: Dnp3Message)
    ensures
        pair_key(a.src, a.dest) == pair_key(b.src, b.dest) ==> a.src == b.src && a.dest == b.dest,
{
    let (x1, y1, x2, y2) = (a.src as int, a.dest as int, b.src as int, b.dest as int);
    assert(x1 * 65536 + y1 == x2 * 65536 + y2 ==> x1 == x2 && y1 == y2) by (nonlinear_arith)
        requires
            0 <= y1 < 65536,
            0 <= y2 < 65536,
            0 <= x1 < 65536,
            0 <= x2 < 65536,
    ;
}

/// An Operate right after a Select of the same pair is never a violation.
pub proof fn lemma_select_then_operate_allowed(
    state: Map<u32, bool>,
    select: Dnp3Message,
    operate: Dnp3Message,
)
    requires
        select.function == FunctionCode::Select,
        operate.src == select.src,
        operate.dest == select.dest,
    ensures
        !violates_select_before_operate(select_tracker_next(state, select), operate),
{
}

/// A message of another pair changes nothing about whether a pair's last
/// message was a Select: pairs are tracked independently.
pub proof fn lemma_pairs_tracked_independently(
    state: Map<u32, bool>,
    other: Dnp3Message,
    msg: Dnp3Message,
)
    requires
        other.src != msg.src || other.dest != msg.dest,
    ensures
        preceded_by_select(select_tracker_next(state, other), msg) == preceded_by_select(
            state,
            msg,
        ),
        violates_select_before_operate(select_tracker_next(state, other), msg)
            == violates_select_before_operate(state, msg),
{
    lemma_pair_key_injective(other, msg);
}

/// A Select followed by any other message of the same pair no longer
/// counts: an Operate after that is a violation.
pub proof fn lemma_intervening_message_breaks_select(
    state: Map<u32, bool>,
    select: Dnp3Message,
    between: Dnp3Message,
    operate: Dnp3Message,
)
    requires
        select.function == FunctionCode::Select,
        between.function != FunctionCode::Select,
        operate.function == FunctionCode::Operate,
        between.src == select.src && between.dest == select.dest,
        operate.src == select.src && operate.dest == select.dest,
    ensures
        violates_select_before_operate(
            select_tracker_next(select_tracker_next(state, select), between),
            operate,
        ),
{
}

/// With nothing tracked yet, every Operate is a violation.
pub proof fn lemma_first_operate_is_flagged(operate: Dnp3Message)
    requires
        operate.function == FunctionCode::Operate,
    ensures
        violates_select_before_operate(Map::empty(), operate),
{
}

/// Only Operate can violate select-before-operate; in particular Direct
/// Operate, which bypasses select by design, never does.
pub proof fn lemma_only_operate_is_flagged(state: Map<u32, bool>, msg: Dnp3Message)
    ensures
        violates_select_before_operate(state, msg) ==> msg.function == FunctionCode::Operate,
        msg.function == FunctionCode::DirectOperate ==> !violates_select_before_operate(state, msg),
{
}

/// A select-before-operate finding names the message's addresses and
/// carries its time and flow.
pub proof fn lemma_select_finding_fields(msg: Dnp3Message, flow: Flow, ts_sec: u32)
    ensures
        select_finding(msg, flow, ts_sec).rule == "select-before-operate-violation"@,
        select_finding(msg, flow, ts_sec).ts_sec == ts_sec,
        select_finding(msg, flow, ts_sec).flow == flow,
        select_finding(msg, flow, ts_sec).message == "Operate (dnp3 dest="@ + crate::text::decimal(
            msg.dest as nat,
        ) + ", src="@ + crate::text::decimal(msg.src as nat)
            + ") not immediately preceded by a Select from the same pair"@,
{
}

/// After a message, the tracker remembers for its pair whether it was a
/// Select, and forgets nothing about any other pair.
pub proof fn lemma_tracker_next(state: Map<u32, bool>, msg: Dnp3Message, other: Dnp3Message)
    ensures
        preceded_by_select(select_tracker_next(state, msg), msg) == (msg.function
            == FunctionCode::Select),
        (other.src != msg.src || other.dest != msg.dest) ==> preceded_by_select(
            select_tracker_next(state, msg),
            other,
        ) == preceded_by_select(state, other),
{
    lemma_pair_key_injective(msg, other);
}

} // verus!
