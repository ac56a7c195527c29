use poc_scada_core::detections::Finding;
use poc_scada_core::pcap::{Flow, IpAddress};
use poc_scada_core::report::{group_by_rule, report_lines, str_lt};

fn flow() -> Flow {
    Flow {
        src_ip: IpAddress::V4([192, 168, 60, 1]),
        src_port: 49423,
        dst_ip: IpAddress::V4([192, 168, 60, 130]),
        dst_port: 20000,
    }
}

fn finding(rule: &'static str, ts_sec: u32, message: &str) -> Finding {
    Finding {
        rule,
        message: message.to_string(),
        ts_sec,
        flow: flow(),
    }
}

const FLOW_TEXT: &str = "192.168.60.1:49423 -> 192.168.60.130:20000";

#[test]
fn no_findings_line() {
    assert_eq!(report_lines(&vec![], &vec![], false, false), vec!["  no findings"]);
    assert_eq!(report_lines(&vec![], &vec![], true, true), vec!["  no findings"]);
}

#[test]
fn chronological_line_matches_cli_layout() {
    let findings = vec![finding(
        "dangerous-function-code",
        1422552945,
        "ColdRestart function code seen (dnp3 dest=10, src=1)",
    )];
    let lines = report_lines(&findings, &vec![FLOW_TEXT.to_string()], false, false);
    assert_eq!(
        lines,
        vec![
            "  [!] dangerous-function-code          t=1422552945 192.168.60.1:49423 -> 192.168.60.130:20000 ColdRestart function code seen (dnp3 dest=10, src=1)"
        ]
    );
}

#[test]
fn colored_rule_is_padded_before_coloring() {
    let findings = vec![finding("select-before-operate-violation", 3, "m")];
    let lines = report_lines(&findings, &vec!["f".to_string()], false, true);
    assert_eq!(
        lines,
        vec![format!(
            "  [!] \x1b[33m{:<32}\x1b[0m t={:<10} f m",
            "select-before-operate-violation", 3
        )]
    );
}

#[test]
fn grouped_listing_sorts_rules_and_keeps_order() {
    let findings = vec![
        finding("select-before-operate-violation", 1, "a"),
        finding("dangerous-function-code", 2, "b"),
        finding("select-before-operate-violation", 3, "c"),
    ];
    let flows = vec!["x".to_string(), "y".to_string(), "z".to_string()];
    let groups = group_by_rule(&findings);
    assert_eq!(groups.len(), 2);
    assert_eq!(groups[0].rule, "dangerous-function-code");
    assert_eq!(groups[0].members, vec![1]);
    assert_eq!(groups[1].rule, "select-before-operate-violation");
    assert_eq!(groups[1].members, vec![0, 2]);

    let lines = report_lines(&findings, &flows, true, false);
    assert_eq!(
        lines,
        vec![
            "  dangerous-function-code (1)".to_string(),
            format!("    t={:<10} y b", 2),
            "  select-before-operate-violation (2)".to_string(),
            format!("    t={:<10} x a", 1),
            format!("    t={:<10} z c", 3),
        ]
    );
}

#[test]
fn grouped_heading_is_bold_and_colored() {
    let findings = vec![finding("dangerous-function-code", 2, "b")];
    let lines = report_lines(&findings, &vec!["y".to_string()], true, true);
    assert_eq!(lines[0], "  \x1b[31m\x1b[1mdangerous-function-code (1)\x1b[0m\x1b[0m");
}

#[test]
fn lexicographic_order() {
    assert!(str_lt("abc", "abd"));
    assert!(str_lt("ab", "abc"));
    assert!(!str_lt("abc", "ab"));
    assert!(!str_lt("abc", "abc"));
    assert!(str_lt("", "a"));
}
