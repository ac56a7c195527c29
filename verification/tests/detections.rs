use poc_scada_core::detections::{check_dangerous_function_code, SelectBeforeOperateTracker};
use poc_scada_core::dnp3::{Dnp3Message, FunctionCode};
use poc_scada_core::pcap::{Flow, IpAddress};

fn flow() -> Flow {
    Flow {
        src_ip: IpAddress::V4([10, 0, 0, 1]),
        src_port: 12345,
        dst_ip: IpAddress::V4([10, 0, 0, 2]),
        dst_port: 20000,
    }
}

fn msg(function: FunctionCode) -> Dnp3Message {
    Dnp3Message {
        dest: 10,
        src: 1,
        function,
    }
}

#[test]
fn flags_cold_restart() {
    let msg = Dnp3Message {
        dest: 10,
        src: 1,
        function: FunctionCode::ColdRestart,
    };
    assert!(check_dangerous_function_code(&msg, flow(), 0).is_some());
}

#[test]
fn ignores_read() {
    let msg = Dnp3Message {
        dest: 10,
        src: 1,
        function: FunctionCode::Read,
    };
    assert!(check_dangerous_function_code(&msg, flow(), 0).is_none());
}

#[test]
fn dangerous_finding_text() {
    let finding = check_dangerous_function_code(&msg(FunctionCode::ColdRestart), flow(), 1422552945)
        .expect("cold restart is dangerous");
    assert_eq!(finding.rule, "dangerous-function-code");
    assert_eq!(
        finding.message,
        "ColdRestart function code seen (dnp3 dest=10, src=1)"
    );
    assert_eq!(finding.ts_sec, 1422552945);
    assert_eq!(finding.flow, flow());
}

#[test]
fn each_dangerous_code_is_flagged_and_others_are_not() {
    for code in [
        FunctionCode::ColdRestart,
        FunctionCode::WarmRestart,
        FunctionCode::DirectOperate,
        FunctionCode::DirectOperateNoAck,
    ] {
        assert!(check_dangerous_function_code(&msg(code), flow(), 0).is_some());
    }
    for code in [
        FunctionCode::Select,
        FunctionCode::Operate,
        FunctionCode::Response,
        FunctionCode::ImmediateFreeze,
        FunctionCode::Other(200),
    ] {
        assert!(check_dangerous_function_code(&msg(code), flow(), 0).is_none());
    }
}

#[test]
fn flags_bare_operate() {
    let mut tracker = SelectBeforeOperateTracker::default();
    let finding = tracker.check(&msg(FunctionCode::Operate), flow(), 0);
    assert!(finding.is_some());
}

#[test]
fn allows_select_then_operate() {
    let mut tracker = SelectBeforeOperateTracker::default();
    assert!(
        tracker
            .check(&msg(FunctionCode::Select), flow(), 0)
            .is_none()
    );
    assert!(
        tracker
            .check(&msg(FunctionCode::Operate), flow(), 1)
            .is_none()
    );
}

#[test]
fn flags_operate_after_intervening_message() {
    let mut tracker = SelectBeforeOperateTracker::default();
    tracker.check(&msg(FunctionCode::Select), flow(), 0);
    tracker.check(&msg(FunctionCode::Read), flow(), 1);
    let finding = tracker.check(&msg(FunctionCode::Operate), flow(), 2);
    assert!(finding.is_some());
}

#[test]
fn tracks_pairs_independently() {
    let mut tracker = SelectBeforeOperateTracker::default();
    tracker.check(&msg(FunctionCode::Select), flow(), 0);

    let other = Dnp3Message {
        dest: 20,
        src: 1,
        function: FunctionCode::Operate,
    };
    let finding = tracker.check(&other, flow(), 1);
    assert!(finding.is_some());
}

#[test]
fn select_of_another_pair_keeps_own_select() {
    let mut tracker = SelectBeforeOperateTracker::default();
    tracker.check(&msg(FunctionCode::Select), flow(), 0);
    let other = Dnp3Message {
        dest: 10,
        src: 2,
        function: FunctionCode::Read,
    };
    assert!(tracker.check(&other, flow(), 1).is_none());
    assert!(tracker.check(&msg(FunctionCode::Operate), flow(), 2).is_none());
}

#[test]
fn direct_operate_is_not_a_select_violation() {
    let mut tracker = SelectBeforeOperateTracker::default();
    assert!(tracker.check(&msg(FunctionCode::DirectOperate), flow(), 0).is_none());
}

#[test]
fn select_violation_text() {
    let mut tracker = SelectBeforeOperateTracker::default();
    let finding = tracker
        .check(&msg(FunctionCode::Operate), flow(), 7)
        .expect("bare operate is flagged");
    assert_eq!(finding.rule, "select-before-operate-violation");
    assert_eq!(
        finding.message,
        "Operate (dnp3 dest=10, src=1) not immediately preceded by a Select from the same pair"
    );
    assert_eq!(finding.ts_sec, 7);
}
