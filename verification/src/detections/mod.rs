pub mod dangerous_function_code;
pub mod select_before_operate;

pub use dangerous_function_code::check as check_dangerous_function_code;
pub use dangerous_function_code::DANGEROUS_FUNCTION_CODE;
pub use select_before_operate::{SelectBeforeOperateTracker, SELECT_BEFORE_OPERATE_VIOLATION};

use vstd::prelude::*;

use crate::pcap::Flow;

verus! {

/// One security-relevant event: the rule that flagged it, a description,
/// and when and on which flow the message travelled.
#[derive(Debug, Clone)]
pub struct Finding {
    pub rule: &'static str,
    pub message: String,
    pub ts_sec: u32,
    pub flow: Flow,
}

/// A finding as plain values.
pub struct FindingView {
    pub rule: Seq<char>,
    pub message: Seq<char>,
    pub ts_sec: u32,
    pub flow: Flow,
}

impl View for Finding {
    type V = FindingView;

    open spec fn view(&self) -> FindingView {
        FindingView {
            rule: self.rule@,
            message: self.message@,
            ts_sec: self.ts_sec,
            flow: self.flow,
        }
    }
}

} // verus!
