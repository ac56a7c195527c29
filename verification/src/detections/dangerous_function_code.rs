use vstd::prelude::*;
use vstd::string::StringExecFns;

use super::{Finding, FindingView};
use crate::dnp3::{Dnp3Message, FunctionCode};
use crate::pcap::Flow;
use crate::text::push_decimal;

verus! {

/// The rule name of this detection.
pub const DANGEROUS_FUNCTION_CODE: &'static str = "dangerous-function-code";

/// Function codes that are rare in normal DNP3 polling traffic (dominated by
/// Read/Response) and carry real operational consequences when present:
/// restarting an outstation, or operating a control point without the
/// select/operate safety pattern.
pub open spec fn is_dangerous(code: FunctionCode) -> bool {
    ||| code == FunctionCode::ColdRestart
    ||| code == FunctionCode::WarmRestart
    ||| code == FunctionCode::DirectOperate
    ||| code == FunctionCode::DirectOperateNoAck
}

/// The finding for a message with a dangerous function code: the code's
/// name and the message's DNP3 addresses, on the message's flow and time.
pub open spec fn dangerous_finding(msg: Dnp3Message, flow: Flow, ts_sec: u32) -> FindingView {
    FindingView {
        rule: DANGEROUS_FUNCTION_CODE@,
        message: crate::dnp3::application::function_code_name(msg.function)
            + " function code seen (dnp3 dest="@ + crate::text::decimal(
            msg.dest as nat,
        ) + ", src="@ + crate::text::decimal(msg.src as nat) + ")"@,
        ts_sec,
        flow,
    }
}

/// Flags a message whose function code is one of the dangerous ones.
pub fn check(msg: &Dnp3Message, flow: Flow, ts_sec: u32) -> (finding: Option<Finding>)
    ensures
        finding is Some <==> is_dangerous(msg.function),
        finding matches Some(f) ==> f@ == dangerous_finding(*msg, flow, ts_sec),
{
    let dangerous = match msg.function {
        FunctionCode::ColdRestart | FunctionCode::WarmRestart | FunctionCode::DirectOperate
        | FunctionCode::DirectOperateNoAck => true,
        _ => false,
    };
    if !dangerous {
        return None;
    }
    let mut message = msg.function.name();
    message.append(" function code seen (dnp3 dest=");
    push_decimal(&mut message, msg.dest as u64);
    message.append(", src=");
    push_decimal(&mut message, msg.src as u64);
    message.append(")");
    assert(message@ =~= dangerous_finding(*msg, flow, ts_sec).message);
    Some(Finding { rule: DANGEROUS_FUNCTION_CODE, message, ts_sec, flow })
}

/// The dangerous function codes are exactly Cold Restart, Warm Restart,
/// Direct Operate and Direct Operate No Ack: on the wire, function bytes
/// 13, 14, 5 and 6, and no other byte.
pub proof fn lemma_dangerous_codes(code: FunctionCode, byte: u8)
    ensures
        is_dangerous(code) <==> (code is ColdRestart || code is WarmRestart || code is DirectOperate
            || code is DirectOperateNoAck),
        is_dangerous(crate::dnp3::application::function_code_of(byte)) <==> (byte == 5 || byte == 6
            || byte == 13 || byte == 14),
{
}

/// A dangerous-function-code finding names the code and the message's
/// addresses, and carries the message's time and flow.
pub proof fn lemma_dangerous_finding_fields(msg: Dnp3Message, flow: Flow, ts_sec: u32)
    ensures
        dangerous_finding(msg, flow, ts_sec).rule == "dangerous-function-code"@,
        dangerous_finding(msg, flow, ts_sec).ts_sec == ts_sec,
        dangerous_finding(msg, flow, ts_sec).flow == flow,
        dangerous_finding(msg, flow, ts_sec).message == crate::dnp3::application::function_code_name(
            msg.function,
        ) + " function code seen (dnp3 dest="@ + crate::text::decimal(msg.dest as nat)
            + ", src="@ + crate::text::decimal(msg.src as nat) + ")"@,
{
}

} // verus!
