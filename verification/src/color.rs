use vstd::prelude::*;
use vstd::string::StringExecFns;

use crate::detections::{DANGEROUS_FUNCTION_CODE, SELECT_BEFORE_OPERATE_VIOLATION};
use crate::text::str_eq;

verus! {

/// Terminal escape that turns text red.
pub const RED: &'static str = "\x1b[31m";

/// Terminal escape that turns text yellow.
pub const YELLOW: &'static str = "\x1b[33m";

/// Terminal escape that turns text bold.
pub const BOLD: &'static str = "\x1b[1m";

/// Terminal escape that ends any color or weight.
pub const RESET: &'static str = "\x1b[0m";

/// The color assigned to a detection rule: red for function codes that
/// take direct, disruptive control action (Cold/Warm Restart, Direct
/// Operate), yellow for a protocol-safety violation that's serious but
/// isn't itself an active disruptive command, none for any other rule.
pub open spec fn rule_color_spec(rule: Seq<char>) -> Seq<char> {
    if rule == DANGEROUS_FUNCTION_CODE@ {
        RED@
    } else if rule == SELECT_BEFORE_OPERATE_VIOLATION@ {
        YELLOW@
    } else {
        Seq::empty()
    }
}

/// `text` wrapped in the color of `rule`, unless coloring is off or the
/// rule has no color.
pub open spec fn colorize_spec(text: Seq<char>, rule: Seq<char>, enabled: bool) -> Seq<char> {
    let color = rule_color_spec(rule);
    if !enabled || color.len() == 0 {
        text
    } else {
        color + text + RESET@
    }
}

/// `text` in bold, unless coloring is off.
pub open spec fn bold_spec(text: Seq<char>, enabled: bool) -> Seq<char> {
    if enabled {
        BOLD@ + text + RESET@
    } else {
        text
    }
}

fn rule_color(rule: &str) -> (color: &'static str)
    ensures
        color@ == rule_color_spec(rule@),
{
    if str_eq(rule, DANGEROUS_FUNCTION_CODE) {
        RED
    } else if str_eq(rule, SELECT_BEFORE_OPERATE_VIOLATION) {
        YELLOW
    } else {
        proof {
            reveal_strlit("");
        }
        ""
    }
}

/// Wraps `text` in the color assigned to `rule`, unless `enabled` is false
/// (piped/non-terminal output) or the rule has no assigned color.
///
/// Takes the already-formatted (e.g. padded) text separately from the rule
/// used to pick the color, since wrapping *after* padding is required —
/// padding a string that already contains escape bytes would count them as
/// visible width and break column alignment.
pub fn colorize(text: &str, rule: &str, enabled: bool) -> (colored: String)
    ensures
        colored@ == colorize_spec(text@, rule@, enabled),
{
    let color = rule_color(rule);
    if !enabled || color.is_empty() {
        String::from_str(text)
    } else {
        String::from_str(color).concat(text).concat(RESET)
    }
}

/// `text` in bold, unless `enabled` is false.
pub fn bold(text: &str, enabled: bool) -> (bolded: String)
    ensures
        bolded@ == bold_spec(text@, enabled),
{
    if enabled {
        String::from_str(BOLD).concat(text).concat(RESET)
    } else {
        String::from_str(text)
    }
}

/// With coloring on, text of the dangerous-function-code rule is wrapped in
/// red, text of the select-before-operate rule in yellow, and text of any
/// other rule is left as it is; with coloring off nothing is wrapped. Bold
/// wraps in the bold escape only when coloring is on.
pub proof fn lemma_colors(text: Seq<char>, rule: Seq<char>, enabled: bool)
    ensures
        !enabled ==> colorize_spec(text, rule, enabled) == text && bold_spec(text, enabled) == text,
        enabled && rule == "dangerous-function-code"@ ==> colorize_spec(text, rule, enabled) == "\x1b[31m"@
            + text + "\x1b[0m"@,
        enabled && rule == "select-before-operate-violation"@ ==> colorize_spec(text, rule, enabled)
            == "\x1b[33m"@ + text + "\x1b[0m"@,
        rule != "dangerous-function-code"@ && rule != "select-before-operate-violation"@
            ==> colorize_spec(text, rule, enabled) == text,
        enabled ==> bold_spec(text, enabled) == "\x1b[1m"@ + text + "\x1b[0m"@,
{
    reveal_strlit("\x1b[31m");
    reveal_strlit("\x1b[33m");
    reveal_strlit("dangerous-function-code");
    reveal_strlit("select-before-operate-violation");
    assert("select-before-operate-violation"@.len() != "dangerous-function-code"@.len());
    assert(SELECT_BEFORE_OPERATE_VIOLATION@ == "select-before-operate-violation"@);
    assert(DANGEROUS_FUNCTION_CODE@ == "dangerous-function-code"@);
}

} // verus!
